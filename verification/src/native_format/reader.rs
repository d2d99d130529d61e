use vstd::prelude::*;
use vstd::slice::slice_subrange;
use vstd::utf8::{decode_utf8, valid_utf8};

use crate::error::AotError;

verus! {

// ---------------------------------------------------------------------------
// The byte-level model
// ---------------------------------------------------------------------------

/// Whether the `width` bytes starting at `offset` lie inside `data`.
pub open spec fn spec_in_range(data: Seq<u8>, offset: int, width: int) -> bool {
    0 <= offset && offset + width <= data.len()
}

/// The little-endian value of the two bytes at `offset`.
pub open spec fn spec_le_u16(data: Seq<u8>, offset: int) -> int {
    data[offset] as int + data[offset + 1] as int * 0x100
}

/// The little-endian value of the four bytes at `offset`.
pub open spec fn spec_le_u32(data: Seq<u8>, offset: int) -> int {
    data[offset] as int + data[offset + 1] as int * 0x100 + data[offset + 2] as int * 0x1_0000
        + data[offset + 3] as int * 0x100_0000
}

/// The little-endian value of the eight bytes at `offset`.
pub open spec fn spec_le_u64(data: Seq<u8>, offset: int) -> int {
    spec_le_u32(data, offset) + spec_le_u32(data, offset + 4) * 0x1_0000_0000
}

pub open spec fn spec_read_u8(data: Seq<u8>, offset: int) -> Option<u8> {
    if spec_in_range(data, offset, 1) {
        Some(data[offset])
    } else {
        None
    }
}

pub open spec fn spec_read_u16(data: Seq<u8>, offset: int) -> Option<u16> {
    if spec_in_range(data, offset, 2) {
        Some(spec_le_u16(data, offset) as u16)
    } else {
        None
    }
}

pub open spec fn spec_read_u32(data: Seq<u8>, offset: int) -> Option<u32> {
    if spec_in_range(data, offset, 4) {
        Some(spec_le_u32(data, offset) as u32)
    } else {
        None
    }
}

pub open spec fn spec_read_u64(data: Seq<u8>, offset: int) -> Option<u64> {
    if spec_in_range(data, offset, 8) {
        Some(spec_le_u64(data, offset) as u64)
    } else {
        None
    }
}

/// The number of bytes of the encoding that starts with `marker`: the count
/// of low-order one bits selects it. Five is the form of a marker followed by
/// four raw bytes, nine the escape of a marker followed by eight raw bytes,
/// zero an invalid marker.
pub open spec fn spec_encoding_width(marker: u8) -> int {
    if marker % 2 == 0 {
        1
    } else if marker % 4 == 1 {
        2
    } else if marker % 8 == 3 {
        3
    } else if marker % 16 == 7 {
        4
    } else if marker % 32 == 15 {
        5
    } else if marker % 64 == 31 {
        9
    } else {
        0
    }
}

/// A byte read as a two's complement number.
pub open spec fn spec_signed_byte(b: u8) -> int {
    if b < 0x80 {
        b as int
    } else {
        b as int - 0x100
    }
}

/// A 32-bit pattern read as a two's complement number.
pub open spec fn spec_signed_32(x: int) -> int {
    if x < 0x8000_0000 {
        x
    } else {
        x - 0x1_0000_0000
    }
}

/// A 64-bit pattern read as a two's complement number.
pub open spec fn spec_signed_64(x: int) -> int {
    if x < 0x8000_0000_0000_0000 {
        x
    } else {
        x - 0x1_0000_0000_0000_0000
    }
}

/// The unsigned value of the encoding of `width` bytes (1 to 5) at `offset`.
#[verifier::opaque]
pub open spec fn spec_unsigned_value(data: Seq<u8>, offset: int, width: int) -> int {
    let b0 = data[offset] as int;
    if width == 1 {
        b0 / 2
    } else if width == 2 {
        b0 / 4 + data[offset + 1] as int * 0x40
    } else if width == 3 {
        b0 / 8 + data[offset + 1] as int * 0x20 + data[offset + 2] as int * 0x2000
    } else if width == 4 {
        b0 / 16 + data[offset + 1] as int * 0x10 + data[offset + 2] as int * 0x1000 + data[offset
            + 3] as int * 0x10_0000
    } else {
        spec_le_u32(data, offset + 1)
    }
}

/// The signed value of the encoding of `width` bytes (1 to 5) at `offset`:
/// as the unsigned one, with the topmost fragment sign-extended.
#[verifier::opaque]
pub open spec fn spec_signed_value(data: Seq<u8>, offset: int, width: int) -> int {
    let b0 = data[offset] as int;
    if width == 1 {
        spec_signed_byte(data[offset]) / 2
    } else if width == 2 {
        b0 / 4 + spec_signed_byte(data[offset + 1]) * 0x40
    } else if width == 3 {
        b0 / 8 + data[offset + 1] as int * 0x20 + spec_signed_byte(data[offset + 2]) * 0x2000
    } else if width == 4 {
        b0 / 16 + data[offset + 1] as int * 0x10 + data[offset + 2] as int * 0x1000
            + spec_signed_byte(data[offset + 3]) * 0x10_0000
    } else {
        spec_signed_32(spec_le_u32(data, offset + 1))
    }
}

/// Whether a 32-bit encoding starts at `offset` and lies wholly inside `data`.
pub open spec fn spec_encoding_fits(data: Seq<u8>, offset: int) -> bool {
    &&& 0 <= offset < data.len()
    &&& 1 <= spec_encoding_width(data[offset]) <= 5
    &&& offset + spec_encoding_width(data[offset]) <= data.len()
}

/// The value of the unsigned encoding at `offset` and the offset behind it.
pub open spec fn spec_decode_unsigned(data: Seq<u8>, offset: int) -> Option<(u32, int)> {
    if spec_encoding_fits(data, offset) {
        let width = spec_encoding_width(data[offset]);
        Some((spec_unsigned_value(data, offset, width) as u32, offset + width))
    } else {
        None
    }
}

/// The value of the signed encoding at `offset` and the offset behind it.
pub open spec fn spec_decode_signed(data: Seq<u8>, offset: int) -> Option<(i32, int)> {
    if spec_encoding_fits(data, offset) {
        let width = spec_encoding_width(data[offset]);
        Some((spec_signed_value(data, offset, width) as i32, offset + width))
    } else {
        None
    }
}

/// Whether the marker at `offset` opens the nine-byte escape, or a form that
/// no decoder accepts.
pub open spec fn spec_is_long_marker(marker: u8) -> bool {
    marker % 32 == 31
}

/// The value of the unsigned 64-bit encoding at `offset` and the offset
/// behind it.
pub open spec fn spec_decode_unsigned_long(data: Seq<u8>, offset: int) -> Option<(u64, int)> {
    if !(0 <= offset < data.len()) {
        None
    } else if !spec_is_long_marker(data[offset]) {
        match spec_decode_unsigned(data, offset) {
            Some((value, next)) => Some((value as u64, next)),
            None => None,
        }
    } else if data[offset] % 64 == 31 && spec_in_range(data, offset + 1, 8) {
        Some((spec_le_u64(data, offset + 1) as u64, offset + 9))
    } else {
        None
    }
}

/// The value of the signed 64-bit encoding at `offset` and the offset behind
/// it.
pub open spec fn spec_decode_signed_long(data: Seq<u8>, offset: int) -> Option<(i64, int)> {
    if !(0 <= offset < data.len()) {
        None
    } else if !spec_is_long_marker(data[offset]) {
        match spec_decode_signed(data, offset) {
            Some((value, next)) => Some((value as i64, next)),
            None => None,
        }
    } else if data[offset] % 64 == 31 && spec_in_range(data, offset + 1, 8) {
        Some((spec_signed_64(spec_le_u64(data, offset + 1)) as i64, offset + 9))
    } else {
        None
    }
}

/// The offset behind the integer encoding that starts at `offset`. Only the
/// marker is looked at, so the result may lie behind the end of `data`.
pub open spec fn spec_skip_integer(data: Seq<u8>, offset: int) -> Option<int> {
    if 0 <= offset < data.len() && spec_encoding_width(data[offset]) >= 1 {
        Some(offset + spec_encoding_width(data[offset]))
    } else {
        None
    }
}

/// The text that lossy UTF-8 decoding makes of `bytes`: valid sequences
/// decoded, each invalid one replaced by U+FFFD.
pub uninterp spec fn utf8_lossy(bytes: Seq<u8>) -> Seq<char>;

/// The text that `bytes` hold: where they are valid UTF-8, the characters
/// that they encode; else what lossy decoding makes of them.
pub open spec fn spec_text(bytes: Seq<u8>) -> Seq<char> {
    if valid_utf8(bytes) {
        decode_utf8(bytes)
    } else {
        utf8_lossy(bytes)
    }
}

/// The length-prefixed string at `offset` and the offset behind it.
pub open spec fn spec_decode_string(data: Seq<u8>, offset: int) -> Option<(Seq<char>, int)> {
    match spec_decode_unsigned(data, offset) {
        None => None,
        Some((length, start)) => if length == 0 {
            Some((Seq::<char>::empty(), start))
        } else if start + length > data.len() {
            None
        } else {
            Some((spec_text(data.subrange(start, start + length)), start + length))
        },
    }
}

/// The number of bytes that the unsigned encoding of `value` takes.
pub open spec fn spec_unsigned_encoding_size(value: u32) -> int {
    if value < 0x80 {
        1
    } else if value < 0x4000 {
        2
    } else if value < 0x20_0000 {
        3
    } else if value < 0x1000_0000 {
        4
    } else {
        5
    }
}

/// The four little-endian bytes of `pattern`, which is below 2^32.
pub open spec fn spec_le_bytes_32(pattern: int) -> Seq<u8> {
    seq![
        (pattern % 0x100) as u8,
        ((pattern / 0x100) % 0x100) as u8,
        ((pattern / 0x1_0000) % 0x100) as u8,
        (pattern / 0x100_0000) as u8,
    ]
}

/// The encoding in `width` bytes (1 to 5) of `pattern`, a number below
/// 2^(7 * width), or below 2^32 for five bytes.
pub open spec fn spec_encode_pattern(pattern: int, width: int) -> Seq<u8> {
    if width == 1 {
        seq![(pattern * 2) as u8]
    } else if width == 2 {
        seq![((pattern % 0x40) * 4 + 1) as u8, (pattern / 0x40) as u8]
    } else if width == 3 {
        seq![
            ((pattern % 0x20) * 8 + 3) as u8,
            ((pattern / 0x20) % 0x100) as u8,
            (pattern / 0x2000) as u8,
        ]
    } else if width == 4 {
        seq![
            ((pattern % 0x10) * 16 + 7) as u8,
            ((pattern / 0x10) % 0x100) as u8,
            ((pattern / 0x1000) % 0x100) as u8,
            (pattern / 0x10_0000) as u8,
        ]
    } else {
        seq![15u8] + spec_le_bytes_32(pattern)
    }
}

/// The shortest encoding of the unsigned `value`.
pub open spec fn spec_encode_unsigned(value: u32) -> Seq<u8> {
    spec_encode_pattern(value as int, spec_unsigned_encoding_size(value))
}

/// The number of bytes that the signed encoding of `value` takes.
pub open spec fn spec_signed_encoding_size(value: i32) -> int {
    if -0x40 <= value < 0x40 {
        1
    } else if -0x2000 <= value < 0x2000 {
        2
    } else if -0x10_0000 <= value < 0x10_0000 {
        3
    } else if -0x800_0000 <= value < 0x800_0000 {
        4
    } else {
        5
    }
}

/// The two's complement pattern of `value` in the bits of a `width`-byte
/// encoding.
pub open spec fn spec_signed_pattern(value: i32, width: int) -> int {
    let modulus: int = if width == 1 {
        0x80
    } else if width == 2 {
        0x4000
    } else if width == 3 {
        0x20_0000
    } else if width == 4 {
        0x1000_0000
    } else {
        0x1_0000_0000
    };
    if value < 0 {
        value + modulus
    } else {
        value as int
    }
}

/// The shortest encoding of the signed `value`.
pub open spec fn spec_encode_signed(value: i32) -> Seq<u8> {
    let width = spec_signed_encoding_size(value);
    spec_encode_pattern(spec_signed_pattern(value, width), width)
}

/// The encoding of the unsigned 64-bit `value`: that of a 32-bit value where
/// it fits, else the marker `0x1f` and the eight raw bytes.
pub open spec fn spec_encode_unsigned_long(value: u64) -> Seq<u8> {
    if value <= 0xFFFF_FFFF {
        spec_encode_unsigned(value as u32)
    } else {
        seq![0x1fu8] + spec_le_bytes_32(value as int % 0x1_0000_0000) + spec_le_bytes_32(
            value as int / 0x1_0000_0000,
        )
    }
}

// ---------------------------------------------------------------------------
// The reader
// ---------------------------------------------------------------------------

/// The byte of `data` at `offset`.
pub fn le_u8_at(data: &[u8], offset: usize) -> (r: Option<u8>)
    ensures
        r == spec_read_u8(data@, offset as int),
{
    if offset >= data.len() {
        return None;
    }
    Some(data[offset])
}

/// The little-endian 16-bit value of `data` at `offset`.
pub fn le_u16_at(data: &[u8], offset: usize) -> (r: Option<u16>)
    ensures
        r == spec_read_u16(data@, offset as int),
{
    let len: usize = data.len();
    if offset >= len || len - offset < 2 {
        return None;
    }
    let low: u16 = data[offset] as u16;
    let high: u16 = data[offset + 1] as u16;
    Some(low + high * 0x100)
}

/// The little-endian 32-bit value of `data` at `offset`.
pub fn le_u32_at(data: &[u8], offset: usize) -> (r: Option<u32>)
    ensures
        r == spec_read_u32(data@, offset as int),
{
    let len: usize = data.len();
    if offset >= len || len - offset < 4 {
        return None;
    }
    let b0: u32 = data[offset] as u32;
    let b1: u32 = data[offset + 1] as u32;
    let b2: u32 = data[offset + 2] as u32;
    let b3: u32 = data[offset + 3] as u32;
    Some(b0 + b1 * 0x100 + b2 * 0x1_0000 + b3 * 0x100_0000)
}

/// The little-endian 64-bit value of `data` at `offset`.
pub fn le_u64_at(data: &[u8], offset: usize) -> (r: Option<u64>)
    ensures
        r == spec_read_u64(data@, offset as int),
{
    let len: usize = data.len();
    if offset >= len || len - offset < 8 {
        return None;
    }
    let low: u32 = match le_u32_at(data, offset) {
        Some(value) => value,
        None => {
            return None;
        },
    };
    let high: u32 = match le_u32_at(data, offset + 4) {
        Some(value) => value,
        None => {
            return None;
        },
    };
    Some(low as u64 + high as u64 * 0x1_0000_0000)
}

/// Lossy UTF-8 decoding through `String::from_utf8_lossy`. The contract names
/// the result, and states what the documentation of the standard library
/// promises of valid input: it is decoded as it stands.
#[verifier::external_body]
fn string_from_utf8_lossy(bytes: &[u8]) -> (text: String)
    ensures
        text@ == utf8_lossy(bytes@),
        valid_utf8(bytes@) ==> text@ == decode_utf8(bytes@),
{
    String::from_utf8_lossy(bytes).into_owned()
}

/// Random access into a borrowed byte slice, with the decoders of the
/// variable-length encoding. The reader holds no position: every operation
/// takes the offset to work at.
#[derive(Clone, Copy)]
pub struct NativeReader<'a> {
    data: &'a [u8],
}

impl<'a> View for NativeReader<'a> {
    type V = Seq<u8>;

    closed spec fn view(&self) -> Seq<u8> {
        self.data@
    }
}

impl<'a> NativeReader<'a> {
    /// The length from which on a slice is refused.
    pub const MAX_SIZE: usize = 0x4000_0000;

    #[verifier::type_invariant]
    spec fn well_formed(&self) -> bool {
        self.data@.len() < 0x4000_0000
    }

    /// A reader over `data`, which is refused when it is too long for its
    /// offsets to be encoded.
    pub fn new(data: &'a [u8]) -> (r: Result<Self, AotError>)
        ensures
            data@.len() >= 0x4000_0000 ==> r == Err::<Self, AotError>(AotError::BadImage),
            data@.len() < 0x4000_0000 ==> r is Ok && r->Ok_0@ == data@,
    {
        if data.len() >= Self::MAX_SIZE {
            return Err(AotError::BadImage);
        }
        Ok(Self { data })
    }

    /// The number of bytes.
    pub fn len(&self) -> (n: usize)
        ensures
            n == self@.len(),
            n < 0x4000_0000,
    {
        proof {
            use_type_invariant(self);
        }
        self.data.len()
    }

    /// The bytes themselves.
    pub fn bytes(&self) -> (data: &'a [u8])
        ensures
            data@ == self@,
    {
        self.data
    }

    /// Hands `offset` back if the byte `look_ahead` behind it is inside the
    /// data.
    pub fn ensure_offset_in_range(&self, offset: usize, look_ahead: usize) -> (r: Result<
        usize,
        AotError,
    >)
        ensures
            offset + look_ahead < self@.len() ==> r == Ok::<usize, AotError>(offset),
            offset + look_ahead >= self@.len() ==> r == Err::<usize, AotError>(AotError::BadImage),
    {
        let len: usize = self.len();
        if offset >= len || look_ahead >= len - offset {
            return Err(AotError::BadImage);
        }
        Ok(offset)
    }

    /// The byte at `offset`.
    pub fn read_u8(&self, offset: usize) -> (r: Result<u8, AotError>)
        ensures
            r == match spec_read_u8(self@, offset as int) {
                Some(value) => Ok::<u8, AotError>(value),
                None => Err(AotError::BadImage),
            },
    {
        match le_u8_at(self.data, offset) {
            Some(value) => Ok(value),
            None => Err(AotError::BadImage),
        }
    }

    /// The little-endian 16-bit value at `offset`.
    pub fn read_u16(&self, offset: usize) -> (r: Result<u16, AotError>)
        ensures
            r == match spec_read_u16(self@, offset as int) {
                Some(value) => Ok::<u16, AotError>(value),
                None => Err(AotError::BadImage),
            },
    {
        match le_u16_at(self.data, offset) {
            Some(value) => Ok(value),
            None => Err(AotError::BadImage),
        }
    }

    /// The little-endian 32-bit value at `offset`.
    pub fn read_u32(&self, offset: usize) -> (r: Result<u32, AotError>)
        ensures
            r == match spec_read_u32(self@, offset as int) {
                Some(value) => Ok::<u32, AotError>(value),
                None => Err(AotError::BadImage),
            },
    {
        match le_u32_at(self.data, offset) {
            Some(value) => Ok(value),
            None => Err(AotError::BadImage),
        }
    }

    /// The little-endian 64-bit value at `offset`.
    pub fn read_u64(&self, offset: usize) -> (r: Result<u64, AotError>)
        ensures
            r == match spec_read_u64(self@, offset as int) {
                Some(value) => Ok::<u64, AotError>(value),
                None => Err(AotError::BadImage),
            },
    {
        match le_u64_at(self.data, offset) {
            Some(value) => Ok(value),
            None => Err(AotError::BadImage),
        }
    }

    /// The number of bytes of the encoding that `marker` opens, zero for an
    /// invalid marker.
    pub fn encoding_width(marker: u8) -> (width: usize)
        ensures
            width == spec_encoding_width(marker),
    {
        assert((marker & 1 == 0) == (marker % 2 == 0) && (marker & 1 != 0 && marker & 2 == 0) == (
        marker % 4 == 1) && (marker & 1 != 0 && marker & 2 != 0 && marker & 4 == 0) == (marker % 8
            == 3) && (marker & 1 != 0 && marker & 2 != 0 && marker & 4 != 0 && marker & 8 == 0)
            == (marker % 16 == 7) && (marker & 1 != 0 && marker & 2 != 0 && marker & 4 != 0
            && marker & 8 != 0 && marker & 16 == 0) == (marker % 32 == 15) && (marker & 1 != 0
            && marker & 2 != 0 && marker & 4 != 0 && marker & 8 != 0 && marker & 16 != 0 && marker
            & 32 == 0) == (marker % 64 == 31)) by (bit_vector);
        if marker & 1 == 0 {
            1
        } else if marker & 2 == 0 {
            2
        } else if marker & 4 == 0 {
            3
        } else if marker & 8 == 0 {
            4
        } else if marker & 16 == 0 {
            5
        } else if marker & 32 == 0 {
            9
        } else {
            0
        }
    }

    /// Decodes the unsigned integer at `offset` and moves `offset` behind it.
    /// On failure `offset` stays where it was.
    pub fn decode_unsigned(&self, offset: &mut usize) -> (r: Result<u32, AotError>)
        ensures
            match spec_decode_unsigned(self@, *old(offset) as int) {
                Some((value, next)) => r == Ok::<u32, AotError>(value) && *final(offset) == next,
                None => r == Err::<u32, AotError>(AotError::BadImage)
                    && *final(offset) == *old(offset),
            },
    {
        let pos: usize = *offset;
        let len: usize = self.len();
        if pos >= len {
            return Err(AotError::BadImage);
        }
        let marker: u8 = self.data[pos];
        let width: usize = Self::encoding_width(marker);
        if width == 0 || width > 5 || len - pos < width {
            return Err(AotError::BadImage);
        }
        reveal(spec_unsigned_value);
        let b0: u32 = marker as u32;
        let value: u32 = if width == 1 {
            b0 / 2
        } else if width == 2 {
            let b1: u32 = self.data[pos + 1] as u32;
            b0 / 4 + b1 * 0x40
        } else if width == 3 {
            let b1: u32 = self.data[pos + 1] as u32;
            let b2: u32 = self.data[pos + 2] as u32;
            b0 / 8 + b1 * 0x20 + b2 * 0x2000
        } else if width == 4 {
            let b1: u32 = self.data[pos + 1] as u32;
            let b2: u32 = self.data[pos + 2] as u32;
            let b3: u32 = self.data[pos + 3] as u32;
            b0 / 16 + b1 * 0x10 + b2 * 0x1000 + b3 * 0x10_0000
        } else {
            match self.read_u32(pos + 1) {
                Ok(raw) => raw,
                Err(e) => {
                    return Err(e);
                },
            }
        };
        *offset = pos + width;
        Ok(value)
    }

    /// Decodes the signed integer at `offset` and moves `offset` behind it.
    /// On failure `offset` stays where it was.
    pub fn decode_signed(&self, offset: &mut usize) -> (r: Result<i32, AotError>)
        ensures
            match spec_decode_signed(self@, *old(offset) as int) {
                Some((value, next)) => r == Ok::<i32, AotError>(value) && *final(offset) == next,
                None => r == Err::<i32, AotError>(AotError::BadImage)
                    && *final(offset) == *old(offset),
            },
    {
        let pos: usize = *offset;
        let len: usize = self.len();
        if pos >= len {
            return Err(AotError::BadImage);
        }
        let marker: u8 = self.data[pos];
        let width: usize = Self::encoding_width(marker);
        if width == 0 || width > 5 || len - pos < width {
            return Err(AotError::BadImage);
        }
        reveal(spec_signed_value);
        let value: i32 = if width == 1 {
            Self::sign_extend_byte(marker) / 2
        } else if width == 2 {
            let top: i32 = Self::sign_extend_byte(self.data[pos + 1]);
            (marker / 4) as i32 + top * 0x40
        } else if width == 3 {
            let b1: i32 = self.data[pos + 1] as i32;
            let top: i32 = Self::sign_extend_byte(self.data[pos + 2]);
            (marker / 8) as i32 + b1 * 0x20 + top * 0x2000
        } else if width == 4 {
            let b1: i32 = self.data[pos + 1] as i32;
            let b2: i32 = self.data[pos + 2] as i32;
            let top: i32 = Self::sign_extend_byte(self.data[pos + 3]);
            (marker / 16) as i32 + b1 * 0x10 + b2 * 0x1000 + top * 0x10_0000
        } else {
            match self.read_u32(pos + 1) {
                Ok(raw) => Self::reinterpret_u32(raw),
                Err(e) => {
                    return Err(e);
                },
            }
        };
        *offset = pos + width;
        Ok(value)
    }

    /// The byte as a two's complement number.
    fn sign_extend_byte(b: u8) -> (v: i32)
        ensures
            v == spec_signed_byte(b),
    {
        if b < 0x80 {
            b as i32
        } else {
            b as i32 - 0x100
        }
    }

    /// The 32-bit pattern as a two's complement number.
    fn reinterpret_u32(raw: u32) -> (v: i32)
        ensures
            v == spec_signed_32(raw as int),
    {
        if raw < 0x8000_0000 {
            raw as i32
        } else {
            (raw - 0x8000_0000) as i32 + i32::MIN
        }
    }

    /// The 64-bit pattern as a two's complement number.
    fn reinterpret_u64(raw: u64) -> (v: i64)
        ensures
            v == spec_signed_64(raw as int),
    {
        if raw < 0x8000_0000_0000_0000 {
            raw as i64
        } else {
            (raw - 0x8000_0000_0000_0000) as i64 + i64::MIN
        }
    }

    /// Decodes the unsigned 64-bit integer at `offset` and moves `offset`
    /// behind it. On failure `offset` stays where it was.
    pub fn decode_unsigned_long(&self, offset: &mut usize) -> (r: Result<u64, AotError>)
        ensures
            match spec_decode_unsigned_long(self@, *old(offset) as int) {
                Some((value, next)) => r == Ok::<u64, AotError>(value) && *final(offset) == next,
                None => r == Err::<u64, AotError>(AotError::BadImage)
                    && *final(offset) == *old(offset),
            },
    {
        let pos: usize = *offset;
        let len: usize = self.len();
        if pos >= len {
            return Err(AotError::BadImage);
        }
        let marker: u8 = self.data[pos];
        let width: usize = Self::encoding_width(marker);
        if width == 9 {
            match self.read_u64(pos + 1) {
                Ok(raw) => {
                    *offset = pos + 9;
                    Ok(raw)
                },
                Err(e) => Err(e),
            }
        } else if width == 0 {
            Err(AotError::BadImage)
        } else {
            match self.decode_unsigned(offset) {
                Ok(value) => Ok(value as u64),
                Err(e) => Err(e),
            }
        }
    }

    /// Decodes the signed 64-bit integer at `offset` and moves `offset`
    /// behind it. On failure `offset` stays where it was.
    pub fn decode_signed_long(&self, offset: &mut usize) -> (r: Result<i64, AotError>)
        ensures
            match spec_decode_signed_long(self@, *old(offset) as int) {
                Some((value, next)) => r == Ok::<i64, AotError>(value) && *final(offset) == next,
                None => r == Err::<i64, AotError>(AotError::BadImage)
                    && *final(offset) == *old(offset),
            },
    {
        let pos: usize = *offset;
        let len: usize = self.len();
        if pos >= len {
            return Err(AotError::BadImage);
        }
        let marker: u8 = self.data[pos];
        let width: usize = Self::encoding_width(marker);
        if width == 9 {
            match self.read_u64(pos + 1) {
                Ok(raw) => {
                    *offset = pos + 9;
                    Ok(Self::reinterpret_u64(raw))
                },
                Err(e) => Err(e),
            }
        } else if width == 0 {
            Err(AotError::BadImage)
        } else {
            match self.decode_signed(offset) {
                Ok(value) => Ok(value as i64),
                Err(e) => Err(e),
            }
        }
    }

    /// Decodes the length-prefixed string at `offset` and moves `offset`
    /// behind it. On failure `offset` stays where it was.
    pub fn decode_string(&self, offset: &mut usize) -> (r: Result<String, AotError>)
        ensures
            match spec_decode_string(self@, *old(offset) as int) {
                Some((text, next)) => r is Ok && r->Ok_0@ == text && *final(offset) == next,
                None => r == Err::<String, AotError>(AotError::BadImage)
                    && *final(offset) == *old(offset),
            },
    {
        let start_of_field: usize = *offset;
        let mut cursor: usize = start_of_field;
        let length: u32 = match self.decode_unsigned(&mut cursor) {
            Ok(length) => length,
            Err(e) => {
                return Err(e);
            },
        };
        if length == 0 {
            *offset = cursor;
            return Ok(String::new());
        }
        let len: usize = self.len();
        if length as usize > len - cursor {
            return Err(AotError::BadImage);
        }
        let end: usize = cursor + length as usize;
        let text = string_from_utf8_lossy(slice_subrange(self.data, cursor, end));
        *offset = end;
        Ok(text)
    }

    /// Moves `offset` behind the integer encoding that starts at it, going by
    /// the marker alone.
    pub fn skip_integer(&self, offset: &mut usize) -> (r: Result<(), AotError>)
        ensures
            match spec_skip_integer(self@, *old(offset) as int) {
                Some(next) => r == Ok::<(), AotError>(()) && *final(offset) == next,
                None => r == Err::<(), AotError>(AotError::BadImage)
                    && *final(offset) == *old(offset),
            },
    {
        let pos: usize = *offset;
        if pos >= self.len() {
            return Err(AotError::BadImage);
        }
        let width: usize = Self::encoding_width(self.data[pos]);
        if width == 0 {
            return Err(AotError::BadImage);
        }
        *offset = pos + width;
        Ok(())
    }

    /// The number of bytes that the unsigned encoding of `value` takes.
    pub fn get_unsigned_encoding_size(value: u32) -> (size: u32)
        ensures
            size == spec_unsigned_encoding_size(value),
    {
        if value < 128 {
            1
        } else if value < 128 * 128 {
            2
        } else if value < 128 * 128 * 128 {
            3
        } else if value < 128 * 128 * 128 * 128 {
            4
        } else {
            5
        }
    }
}

} // verus!
