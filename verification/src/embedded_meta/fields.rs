use vstd::prelude::*;

use crate::embedded_meta::flags::{
    spec_calling_convention, MethodAttributes, SignatureCallingConvention,
};
use crate::error::AotError;
use crate::native_format::reader::{
    spec_decode_signed, spec_decode_string, spec_decode_unsigned, spec_read_u8, NativeReader,
};

verus! {

/// The raw byte at `offset`, and the offset behind it.
pub open spec fn spec_read_byte(data: Seq<u8>, offset: int) -> (Result<u8, AotError>, int) {
    match spec_read_u8(data, offset) {
        Some(value) => (Ok(value), offset + 1),
        None => (Err(AotError::BadImage), offset),
    }
}

/// The unsigned integer encoded at `offset`, cut to 16 bits, and the offset
/// behind it.
pub open spec fn spec_read_u16(data: Seq<u8>, offset: int) -> (Result<u16, AotError>, int) {
    match spec_decode_unsigned(data, offset) {
        Some((value, next)) => (Ok((value as int % 0x1_0000) as u16), next),
        None => (Err(AotError::BadImage), offset),
    }
}

/// The unsigned integer encoded at `offset`, and the offset behind it.
pub open spec fn spec_read_u32(data: Seq<u8>, offset: int) -> (Result<u32, AotError>, int) {
    match spec_decode_unsigned(data, offset) {
        Some((value, next)) => (Ok(value), next),
        None => (Err(AotError::BadImage), offset),
    }
}

/// The signed integer encoded at `offset`, and the offset behind it.
pub open spec fn spec_read_i32(data: Seq<u8>, offset: int) -> (Result<i32, AotError>, int) {
    match spec_decode_signed(data, offset) {
        Some((value, next)) => (Ok(value), next),
        None => (Err(AotError::BadImage), offset),
    }
}

/// The method attributes encoded at `offset`, and the offset behind them.
pub open spec fn spec_read_attributes(data: Seq<u8>, offset: int) -> (
    Result<MethodAttributes, AotError>,
    int,
) {
    match spec_decode_unsigned(data, offset) {
        Some((value, next)) => (Ok(MethodAttributes(value)), next),
        None => (Err(AotError::BadImage), offset),
    }
}

/// The calling convention encoded at `offset`, which is an unsigned integer
/// of which the lowest byte counts, and the offset behind it.
pub open spec fn spec_read_convention(data: Seq<u8>, offset: int) -> (
    Result<SignatureCallingConvention, AotError>,
    int,
) {
    match spec_decode_unsigned(data, offset) {
        Some((value, next)) => (Ok(spec_calling_convention(value as int % 0x100)), next),
        None => (Err(AotError::BadImage), offset),
    }
}

/// The text of the length-prefixed string at `offset`, and the offset behind
/// it.
pub open spec fn spec_read_text(data: Seq<u8>, offset: int) -> (Result<Seq<char>, AotError>, int) {
    match spec_decode_string(data, offset) {
        Some((text, next)) => (Ok(text), next),
        None => (Err(AotError::BadImage), offset),
    }
}

pub fn read_byte(reader: &NativeReader<'_>, offset: &mut usize) -> (r: Result<u8, AotError>)
    ensures
        (r, *final(offset) as int) == spec_read_byte(reader@, *old(offset) as int),
{
    let value = reader.read_u8(*offset)?;
    let _ = reader.len();
    *offset = *offset + 1;
    Ok(value)
}

pub fn read_u16(reader: &NativeReader<'_>, offset: &mut usize) -> (r: Result<u16, AotError>)
    ensures
        (r, *final(offset) as int) == spec_read_u16(reader@, *old(offset) as int),
{
    match reader.decode_unsigned(offset) {
        Ok(value) => Ok((value % 0x1_0000) as u16),
        Err(e) => Err(e),
    }
}

pub fn read_u32(reader: &NativeReader<'_>, offset: &mut usize) -> (r: Result<u32, AotError>)
    ensures
        (r, *final(offset) as int) == spec_read_u32(reader@, *old(offset) as int),
{
    reader.decode_unsigned(offset)
}

pub fn read_i32(reader: &NativeReader<'_>, offset: &mut usize) -> (r: Result<i32, AotError>)
    ensures
        (r, *final(offset) as int) == spec_read_i32(reader@, *old(offset) as int),
{
    reader.decode_signed(offset)
}

pub fn read_attributes(reader: &NativeReader<'_>, offset: &mut usize) -> (r: Result<
    MethodAttributes,
    AotError,
>)
    ensures
        (r, *final(offset) as int) == spec_read_attributes(reader@, *old(offset) as int),
{
    match reader.decode_unsigned(offset) {
        Ok(value) => Ok(MethodAttributes::new(value)),
        Err(e) => Err(e),
    }
}

pub fn read_convention(reader: &NativeReader<'_>, offset: &mut usize) -> (r: Result<
    SignatureCallingConvention,
    AotError,
>)
    ensures
        (r, *final(offset) as int) == spec_read_convention(reader@, *old(offset) as int),
{
    match reader.decode_unsigned(offset) {
        Ok(value) => Ok(SignatureCallingConvention::from_primitive((value % 0x100) as u8)),
        Err(e) => Err(e),
    }
}

pub fn read_text(reader: &NativeReader<'_>, offset: &mut usize) -> (r: Result<String, AotError>)
    ensures
        match spec_read_text(reader@, *old(offset) as int) {
            (Ok(text), next) => r is Ok && r->Ok_0@ == text && *final(offset) == next,
            (Err(e), next) => r is Err && r->Err_0 == e && *final(offset) == next,
        },
{
    reader.decode_string(offset)
}

} // verus!
