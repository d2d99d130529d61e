use vstd::prelude::*;

use crate::error::AotError;
use crate::native_format::reader::{
    spec_decode_signed, spec_decode_unsigned, spec_decode_unsigned_long, spec_read_u8,
    spec_skip_integer, NativeReader,
};

verus! {

/// The offset that lies `delta` behind `pos`, computed in 32 bits as the
/// format does: a sum below zero wraps round.
pub open spec fn spec_relative_offset(pos: int, delta: int) -> int {
    if pos + delta < 0 {
        pos + delta + 0x1_0000_0000
    } else {
        pos + delta
    }
}

/// The target of the relative offset encoded at `offset`, and the offset
/// behind the encoding.
pub open spec fn spec_relative_target(data: Seq<u8>, offset: int) -> Option<(int, int)> {
    match spec_decode_signed(data, offset) {
        Some((delta, next)) => Some((spec_relative_offset(offset, delta as int), next)),
        None => None,
    }
}

/// A cursor over a reader: the reader and the offset of the next byte to
/// decode.
#[derive(Clone, Copy)]
pub struct NativeParser<'a> {
    pub reader: NativeReader<'a>,
    pub offset: usize,
}

impl<'a> NativeParser<'a> {
    pub fn new(reader: NativeReader<'a>, offset: usize) -> (parser: Self)
        ensures
            parser.reader == reader,
            parser.offset == offset,
    {
        Self { reader, offset }
    }

    /// Reads one raw byte and steps over it.
    pub fn get_u8(&mut self) -> (r: Result<u8, AotError>)
        ensures
            final(self).reader == old(self).reader,
            match spec_read_u8(old(self).reader@, old(self).offset as int) {
                Some(value) => r == Ok::<u8, AotError>(value)
                    && final(self).offset == old(self).offset + 1,
                None => r == Err::<u8, AotError>(AotError::BadImage)
                    && final(self).offset == old(self).offset,
            },
    {
        match self.reader.read_u8(self.offset) {
            Ok(value) => {
                let _ = self.reader.len();
                self.offset = self.offset + 1;
                Ok(value)
            },
            Err(e) => Err(e),
        }
    }

    /// Decodes an unsigned integer and steps over it.
    pub fn get_unsigned(&mut self) -> (r: Result<u32, AotError>)
        ensures
            final(self).reader == old(self).reader,
            match spec_decode_unsigned(old(self).reader@, old(self).offset as int) {
                Some((value, next)) => r == Ok::<u32, AotError>(value) && final(self).offset
                    == next,
                None => r == Err::<u32, AotError>(AotError::BadImage)
                    && final(self).offset == old(self).offset,
            },
    {
        let mut offset: usize = self.offset;
        let r = self.reader.decode_unsigned(&mut offset);
        self.offset = offset;
        r
    }

    /// Decodes an unsigned 64-bit integer and steps over it.
    pub fn get_unsigned_long(&mut self) -> (r: Result<u64, AotError>)
        ensures
            final(self).reader == old(self).reader,
            match spec_decode_unsigned_long(old(self).reader@, old(self).offset as int) {
                Some((value, next)) => r == Ok::<u64, AotError>(value) && final(self).offset
                    == next,
                None => r == Err::<u64, AotError>(AotError::BadImage)
                    && final(self).offset == old(self).offset,
            },
    {
        let mut offset: usize = self.offset;
        let r = self.reader.decode_unsigned_long(&mut offset);
        self.offset = offset;
        r
    }

    /// Decodes a signed integer and steps over it.
    pub fn get_signed(&mut self) -> (r: Result<i32, AotError>)
        ensures
            final(self).reader == old(self).reader,
            match spec_decode_signed(old(self).reader@, old(self).offset as int) {
                Some((value, next)) => r == Ok::<i32, AotError>(value) && final(self).offset
                    == next,
                None => r == Err::<i32, AotError>(AotError::BadImage)
                    && final(self).offset == old(self).offset,
            },
    {
        let mut offset: usize = self.offset;
        let r = self.reader.decode_signed(&mut offset);
        self.offset = offset;
        r
    }

    /// Decodes a signed integer, steps over it, and returns the offset that
    /// lies so far from where the integer started.
    pub fn get_relative_offset(&mut self) -> (r: Result<u32, AotError>)
        ensures
            final(self).reader == old(self).reader,
            match spec_relative_target(old(self).reader@, old(self).offset as int) {
                Some((target, next)) => r == Ok::<u32, AotError>(target as u32) && 0 <= target
                    < 0x1_0000_0000 && final(self).offset == next,
                None => r == Err::<u32, AotError>(AotError::BadImage)
                    && final(self).offset == old(self).offset,
            },
    {
        let pos: usize = self.offset;
        let delta: i32 = match self.get_signed() {
            Ok(delta) => delta,
            Err(e) => {
                return Err(e);
            },
        };
        let _ = self.reader.len();
        let sum: i64 = pos as i64 + delta as i64;
        if sum < 0 {
            Ok((sum + 0x1_0000_0000) as u32)
        } else {
            Ok(sum as u32)
        }
    }

    /// Steps over one integer encoding, going by its marker alone.
    pub fn skip_integer(&mut self) -> (r: Result<(), AotError>)
        ensures
            final(self).reader == old(self).reader,
            match spec_skip_integer(old(self).reader@, old(self).offset as int) {
                Some(next) => r == Ok::<(), AotError>(()) && final(self).offset == next,
                None => r == Err::<(), AotError>(AotError::BadImage)
                    && final(self).offset == old(self).offset,
            },
    {
        let mut offset: usize = self.offset;
        let r = self.reader.skip_integer(&mut offset);
        self.offset = offset;
        r
    }

    /// Decodes a relative offset, steps over it, and returns a parser that
    /// stands at its target.
    pub fn get_parser_from_rel_offset(&mut self) -> (r: Result<NativeParser<'a>, AotError>)
        ensures
            final(self).reader == old(self).reader,
            match spec_relative_target(old(self).reader@, old(self).offset as int) {
                Some((target, next)) => r is Ok && r->Ok_0.reader == old(self).reader
                    && r->Ok_0.offset == target && final(self).offset == next,
                None => r == Err::<NativeParser<'a>, AotError>(AotError::BadImage)
                    && final(self).offset == old(self).offset,
            },
    {
        match self.get_relative_offset() {
            Ok(target) => Ok(NativeParser::new(self.reader, target as usize)),
            Err(e) => Err(e),
        }
    }

    /// Decodes the element count that opens a sequence.
    pub fn get_sequence_count(&mut self) -> (r: Result<u32, AotError>)
        ensures
            final(self).reader == old(self).reader,
            match spec_decode_unsigned(old(self).reader@, old(self).offset as int) {
                Some((value, next)) => r == Ok::<u32, AotError>(value) && final(self).offset
                    == next,
                None => r == Err::<u32, AotError>(AotError::BadImage)
                    && final(self).offset == old(self).offset,
            },
    {
        self.get_unsigned()
    }
}

} // verus!
