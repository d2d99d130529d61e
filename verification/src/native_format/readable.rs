use vstd::prelude::*;

use crate::embedded_meta::collections::{
    read_byte_collection, read_handle_collection, read_typed_collection,
    spec_read_byte_collection, spec_read_handle_collection, spec_read_typed_collection,
    ByteCollection, HandleCollection, TypedHandleCollection,
};
use crate::embedded_meta::fields::{
    read_attributes, read_byte, read_convention, read_i32, read_text, read_u16, read_u32,
    spec_read_attributes, spec_read_byte, spec_read_convention, spec_read_i32, spec_read_text,
    spec_read_u16, spec_read_u32,
};
use crate::embedded_meta::flags::{MethodAttributes, SignatureCallingConvention};
use crate::embedded_meta::handles::{
    read_base_handle, read_handle, spec_read_base_handle, spec_read_handle, BaseHandle,
    TypedHandle,
};
use crate::error::AotError;
use crate::native_format::reader::NativeReader;

verus! {

/// A value that can be read from a reader at a cursor.
pub trait NativeReadable<'a>: Sized {
    /// Whether reading at `offset` gives `r` and leaves the cursor at
    /// `next`.
    spec fn spec_reads(
        reader: NativeReader<'a>,
        offset: int,
        r: Result<Self, AotError>,
        next: int,
    ) -> bool;

    fn read(reader: &NativeReader<'a>, offset: &mut usize) -> (r: Result<Self, AotError>)
        ensures
            Self::spec_reads(*reader, *old(offset) as int, r, *final(offset) as int),
    ;
}

impl<'a> NativeReader<'a> {
    /// Reads a value of the type `R` at `offset` and moves `offset` behind
    /// it.
    pub fn read<R: NativeReadable<'a>>(&self, offset: &mut usize) -> (r: Result<R, AotError>)
        ensures
            R::spec_reads(*self, *old(offset) as int, r, *final(offset) as int),
    {
        R::read(self, offset)
    }
}

impl<'a> NativeReadable<'a> for String {
    /// A string is read as a length and as many bytes of UTF-8.
    open spec fn spec_reads(
        reader: NativeReader<'a>,
        offset: int,
        r: Result<Self, AotError>,
        next: int,
    ) -> bool {
        match spec_read_text(reader@, offset) {
            (Ok(text), end) => r is Ok && r->Ok_0@ == text && next == end,
            (Err(e), end) => r is Err && r->Err_0 == e && next == end,
        }
    }

    fn read(reader: &NativeReader<'a>, offset: &mut usize) -> (r: Result<Self, AotError>) {
        read_text(reader, offset)
    }
}

impl<'a> NativeReadable<'a> for u8 {
    /// A byte is read raw.
    open spec fn spec_reads(
        reader: NativeReader<'a>,
        offset: int,
        r: Result<Self, AotError>,
        next: int,
    ) -> bool {
        (r, next) == spec_read_byte(reader@, offset)
    }

    fn read(reader: &NativeReader<'a>, offset: &mut usize) -> (r: Result<Self, AotError>) {
        read_byte(reader, offset)
    }
}

impl<'a> NativeReadable<'a> for u16 {
    /// A 16-bit number is read as an encoded unsigned integer, cut to 16
    /// bits.
    open spec fn spec_reads(
        reader: NativeReader<'a>,
        offset: int,
        r: Result<Self, AotError>,
        next: int,
    ) -> bool {
        (r, next) == spec_read_u16(reader@, offset)
    }

    fn read(reader: &NativeReader<'a>, offset: &mut usize) -> (r: Result<Self, AotError>) {
        read_u16(reader, offset)
    }
}

impl<'a> NativeReadable<'a> for u32 {
    /// A 32-bit number is read as an encoded unsigned integer.
    open spec fn spec_reads(
        reader: NativeReader<'a>,
        offset: int,
        r: Result<Self, AotError>,
        next: int,
    ) -> bool {
        (r, next) == spec_read_u32(reader@, offset)
    }

    fn read(reader: &NativeReader<'a>, offset: &mut usize) -> (r: Result<Self, AotError>) {
        read_u32(reader, offset)
    }
}

impl<'a> NativeReadable<'a> for i32 {
    /// A signed 32-bit number is read as an encoded signed integer.
    open spec fn spec_reads(
        reader: NativeReader<'a>,
        offset: int,
        r: Result<Self, AotError>,
        next: int,
    ) -> bool {
        (r, next) == spec_read_i32(reader@, offset)
    }

    fn read(reader: &NativeReader<'a>, offset: &mut usize) -> (r: Result<Self, AotError>) {
        read_i32(reader, offset)
    }
}

impl<'a> NativeReadable<'a> for MethodAttributes {
    open spec fn spec_reads(
        reader: NativeReader<'a>,
        offset: int,
        r: Result<Self, AotError>,
        next: int,
    ) -> bool {
        (r, next) == spec_read_attributes(reader@, offset)
    }

    fn read(reader: &NativeReader<'a>, offset: &mut usize) -> (r: Result<Self, AotError>) {
        read_attributes(reader, offset)
    }
}

impl<'a> NativeReadable<'a> for SignatureCallingConvention {
    open spec fn spec_reads(
        reader: NativeReader<'a>,
        offset: int,
        r: Result<Self, AotError>,
        next: int,
    ) -> bool {
        (r, next) == spec_read_convention(reader@, offset)
    }

    fn read(reader: &NativeReader<'a>, offset: &mut usize) -> (r: Result<Self, AotError>) {
        read_convention(reader, offset)
    }
}

impl<'a> NativeReadable<'a> for BaseHandle {
    open spec fn spec_reads(
        reader: NativeReader<'a>,
        offset: int,
        r: Result<Self, AotError>,
        next: int,
    ) -> bool {
        (r, next) == spec_read_base_handle(reader@, offset)
    }

    fn read(reader: &NativeReader<'a>, offset: &mut usize) -> (r: Result<Self, AotError>) {
        read_base_handle(reader, offset)
    }
}

impl<'a, const KIND: u8> NativeReadable<'a> for TypedHandle<KIND> {
    open spec fn spec_reads(
        reader: NativeReader<'a>,
        offset: int,
        r: Result<Self, AotError>,
        next: int,
    ) -> bool {
        (r, next) == spec_read_handle::<KIND>(reader@, offset)
    }

    fn read(reader: &NativeReader<'a>, offset: &mut usize) -> (r: Result<Self, AotError>) {
        read_handle::<KIND>(reader, offset)
    }
}

impl<'a, const KIND: u8> NativeReadable<'a> for TypedHandleCollection<'a, KIND> {
    /// A collection is taken where it starts; the cursor steps over its
    /// count and its handles.
    open spec fn spec_reads(
        reader: NativeReader<'a>,
        offset: int,
        r: Result<Self, AotError>,
        next: int,
    ) -> bool {
        (r, next) == spec_read_typed_collection::<KIND>(reader, offset)
    }

    fn read(reader: &NativeReader<'a>, offset: &mut usize) -> (r: Result<Self, AotError>) {
        read_typed_collection::<KIND>(reader, offset)
    }
}

impl<'a> NativeReadable<'a> for HandleCollection<'a> {
    open spec fn spec_reads(
        reader: NativeReader<'a>,
        offset: int,
        r: Result<Self, AotError>,
        next: int,
    ) -> bool {
        (r, next) == spec_read_handle_collection(reader, offset)
    }

    fn read(reader: &NativeReader<'a>, offset: &mut usize) -> (r: Result<Self, AotError>) {
        read_handle_collection(reader, offset)
    }
}

impl<'a> NativeReadable<'a> for ByteCollection<'a> {
    /// A collection of bytes is taken where it starts; the cursor steps
    /// over its count and as many bytes.
    open spec fn spec_reads(
        reader: NativeReader<'a>,
        offset: int,
        r: Result<Self, AotError>,
        next: int,
    ) -> bool {
        (r, next) == spec_read_byte_collection(reader, offset)
    }

    fn read(reader: &NativeReader<'a>, offset: &mut usize) -> (r: Result<Self, AotError>) {
        read_byte_collection(reader, offset)
    }
}

} // verus!
