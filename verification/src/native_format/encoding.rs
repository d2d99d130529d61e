use vstd::prelude::*;

use crate::native_format::reader::{
    spec_decode_signed, spec_decode_signed_long, spec_decode_string, spec_decode_unsigned,
    spec_decode_unsigned_long, spec_encode_pattern, spec_encode_signed, spec_encode_unsigned,
    spec_encode_unsigned_long, spec_encoding_width, spec_le_bytes_32, spec_le_u32, spec_le_u64,
    spec_signed_32, spec_signed_encoding_size, spec_signed_pattern, spec_signed_value,
    spec_unsigned_encoding_size, spec_unsigned_value,
};

verus! {

/// Appends to `bytes` the encoding in `width` bytes of `pattern`.
fn push_pattern(bytes: &mut Vec<u8>, pattern: u32, width: u32)
    requires
        1 <= width <= 5,
        width == 1 ==> pattern < 0x80,
        width == 2 ==> pattern < 0x4000,
        width == 3 ==> pattern < 0x20_0000,
        width == 4 ==> pattern < 0x1000_0000,
    ensures
        final(bytes)@ == old(bytes)@ + spec_encode_pattern(pattern as int, width as int),
{
    let ghost before = bytes@;
    if width == 1 {
        bytes.push((pattern * 2) as u8);
    } else if width == 2 {
        bytes.push(((pattern % 0x40) * 4 + 1) as u8);
        bytes.push((pattern / 0x40) as u8);
    } else if width == 3 {
        bytes.push(((pattern % 0x20) * 8 + 3) as u8);
        bytes.push(((pattern / 0x20) % 0x100) as u8);
        bytes.push((pattern / 0x2000) as u8);
    } else if width == 4 {
        bytes.push(((pattern % 0x10) * 16 + 7) as u8);
        bytes.push(((pattern / 0x10) % 0x100) as u8);
        bytes.push(((pattern / 0x1000) % 0x100) as u8);
        bytes.push((pattern / 0x10_0000) as u8);
    } else {
        bytes.push(15u8);
        push_le_bytes_32(bytes, pattern);
    }
    assert(bytes@ =~= before + spec_encode_pattern(pattern as int, width as int));
}

/// Appends to `bytes` the four little-endian bytes of `pattern`.
fn push_le_bytes_32(bytes: &mut Vec<u8>, pattern: u32)
    ensures
        final(bytes)@ == old(bytes)@ + spec_le_bytes_32(pattern as int),
{
    let ghost before = bytes@;
    bytes.push((pattern % 0x100) as u8);
    bytes.push(((pattern / 0x100) % 0x100) as u8);
    bytes.push(((pattern / 0x1_0000) % 0x100) as u8);
    bytes.push((pattern / 0x100_0000) as u8);
    assert(bytes@ =~= before + spec_le_bytes_32(pattern as int));
}

/// The shortest encoding of the unsigned `value`.
pub fn encode_unsigned(value: u32) -> (bytes: Vec<u8>)
    ensures
        bytes@ == spec_encode_unsigned(value),
{
    let width: u32 = if value < 0x80 {
        1
    } else if value < 0x4000 {
        2
    } else if value < 0x20_0000 {
        3
    } else if value < 0x1000_0000 {
        4
    } else {
        5
    };
    let mut bytes: Vec<u8> = Vec::new();
    push_pattern(&mut bytes, value, width);
    assert(bytes@ =~= spec_encode_unsigned(value));
    bytes
}

/// The shortest encoding of the signed `value`.
pub fn encode_signed(value: i32) -> (bytes: Vec<u8>)
    ensures
        bytes@ == spec_encode_signed(value),
{
    let mut bytes: Vec<u8> = Vec::new();
    if -0x40 <= value && value < 0x40 {
        let pattern: u32 = if value < 0 {
            (value + 0x80) as u32
        } else {
            value as u32
        };
        push_pattern(&mut bytes, pattern, 1);
    } else if -0x2000 <= value && value < 0x2000 {
        let pattern: u32 = if value < 0 {
            (value + 0x4000) as u32
        } else {
            value as u32
        };
        push_pattern(&mut bytes, pattern, 2);
    } else if -0x10_0000 <= value && value < 0x10_0000 {
        let pattern: u32 = if value < 0 {
            (value + 0x20_0000) as u32
        } else {
            value as u32
        };
        push_pattern(&mut bytes, pattern, 3);
    } else if -0x800_0000 <= value && value < 0x800_0000 {
        let pattern: u32 = if value < 0 {
            (value + 0x1000_0000) as u32
        } else {
            value as u32
        };
        push_pattern(&mut bytes, pattern, 4);
    } else {
        let pattern: u32 = if value < 0 {
            ((value - i32::MIN) as u32) + 0x8000_0000
        } else {
            value as u32
        };
        push_pattern(&mut bytes, pattern, 5);
    }
    assert(bytes@ =~= spec_encode_signed(value));
    bytes
}

/// The encoding of the unsigned 64-bit `value`: that of a 32-bit value where
/// it fits, else the nine-byte escape.
pub fn encode_unsigned_long(value: u64) -> (bytes: Vec<u8>)
    ensures
        bytes@ == spec_encode_unsigned_long(value),
{
    if value <= 0xFFFF_FFFF {
        encode_unsigned(value as u32)
    } else {
        let mut bytes: Vec<u8> = Vec::new();
        bytes.push(0x1fu8);
        push_le_bytes_32(&mut bytes, (value % 0x1_0000_0000) as u32);
        push_le_bytes_32(&mut bytes, (value / 0x1_0000_0000) as u32);
        assert(bytes@ =~= spec_encode_unsigned_long(value));
        bytes
    }
}

/// What the bytes of an encoded pattern hold: the marker gives the width
/// back, the unsigned reading gives the pattern, and the signed reading gives
/// the pattern as a two's complement number of as many bits as the width
/// carries.
proof fn lemma_pattern_decodes(pattern: int, width: int)
    requires
        1 <= width <= 5,
        0 <= pattern,
        width == 1 ==> pattern < 0x80,
        width == 2 ==> pattern < 0x4000,
        width == 3 ==> pattern < 0x20_0000,
        width == 4 ==> pattern < 0x1000_0000,
        width == 5 ==> pattern < 0x1_0000_0000,
    ensures
        spec_encode_pattern(pattern, width).len() == width,
        spec_encoding_width(spec_encode_pattern(pattern, width)[0]) == width,
        spec_unsigned_value(spec_encode_pattern(pattern, width), 0, width) == pattern,
        spec_signed_value(spec_encode_pattern(pattern, width), 0, width) == if width == 1 {
            if pattern < 0x40 {
                pattern
            } else {
                pattern - 0x80
            }
        } else if width == 2 {
            if pattern < 0x2000 {
                pattern
            } else {
                pattern - 0x4000
            }
        } else if width == 3 {
            if pattern < 0x10_0000 {
                pattern
            } else {
                pattern - 0x20_0000
            }
        } else if width == 4 {
            if pattern < 0x800_0000 {
                pattern
            } else {
                pattern - 0x1000_0000
            }
        } else {
            spec_signed_32(pattern)
        },
{
    reveal(spec_unsigned_value);
    reveal(spec_signed_value);
    let bytes = spec_encode_pattern(pattern, width);
    if width == 1 {
        let b0 = pattern * 2;
        assert(bytes[0] == b0 as u8);
        assert(b0 % 2 == 0);
        assert(b0 / 2 == pattern);
        assert((b0 - 0x100) / 2 == pattern - 0x80);
    } else if width == 2 {
        let low = pattern % 0x40;
        let high = pattern / 0x40;
        assert(pattern == high * 0x40 + low);
        let b0 = low * 4 + 1;
        assert(bytes[0] == b0 as u8);
        assert(bytes[1] == high as u8);
        assert(b0 % 2 == 1 && b0 % 4 == 1);
        assert(b0 / 4 == low);
    } else if width == 3 {
        let low = pattern % 0x20;
        let rest = pattern / 0x20;
        assert(pattern == rest * 0x20 + low);
        let mid = rest % 0x100;
        let high = rest / 0x100;
        assert(rest == high * 0x100 + mid);
        assert(high == pattern / 0x2000);
        let b0 = low * 8 + 3;
        assert(bytes[0] == b0 as u8);
        assert(bytes[1] == mid as u8);
        assert(bytes[2] == high as u8);
        assert(b0 % 2 == 1 && b0 % 4 == 3 && b0 % 8 == 3);
        assert(b0 / 8 == low);
    } else if width == 4 {
        let low = pattern % 0x10;
        let rest = pattern / 0x10;
        assert(pattern == rest * 0x10 + low);
        let b1 = rest % 0x100;
        let rest2 = rest / 0x100;
        assert(rest == rest2 * 0x100 + b1);
        assert(rest2 == pattern / 0x1000);
        let b2 = rest2 % 0x100;
        let high = rest2 / 0x100;
        assert(rest2 == high * 0x100 + b2);
        assert(high == pattern / 0x10_0000);
        let b0 = low * 16 + 7;
        assert(bytes[0] == b0 as u8);
        assert(bytes[1] == b1 as u8);
        assert(bytes[2] == b2 as u8);
        assert(bytes[3] == high as u8);
        assert(b0 % 2 == 1 && b0 % 4 == 3 && b0 % 8 == 7 && b0 % 16 == 7);
        assert(b0 / 16 == low);
    } else {
        lemma_le_bytes_32(pattern);
        let tail = spec_le_bytes_32(pattern);
        assert(bytes[0] == 15u8);
        assert(bytes[1] == tail[0] && bytes[2] == tail[1] && bytes[3] == tail[2] && bytes[4]
            == tail[3]);
        assert(spec_le_u32(bytes, 1) == spec_le_u32(tail, 0));
    }
}

/// The four little-endian bytes of a pattern spell the pattern.
proof fn lemma_le_bytes_32(pattern: int)
    requires
        0 <= pattern < 0x1_0000_0000,
    ensures
        spec_le_bytes_32(pattern).len() == 4,
        spec_le_u32(spec_le_bytes_32(pattern), 0) == pattern,
{
    let b0 = pattern % 0x100;
    let r1 = pattern / 0x100;
    assert(pattern == r1 * 0x100 + b0);
    let b1 = r1 % 0x100;
    let r2 = r1 / 0x100;
    assert(r1 == r2 * 0x100 + b1);
    assert(r2 == pattern / 0x1_0000);
    let b2 = r2 % 0x100;
    let b3 = r2 / 0x100;
    assert(r2 == b3 * 0x100 + b2);
    assert(b3 == pattern / 0x100_0000);
    let bytes = spec_le_bytes_32(pattern);
    assert(bytes[0] == b0 as u8);
    assert(bytes[1] == b1 as u8);
    assert(bytes[2] == b2 as u8);
    assert(bytes[3] == b3 as u8);
}

/// Decoding the encoding of an unsigned value gives the value back and
/// consumes the whole encoding, whose length is the encoding size of the
/// value.
pub proof fn lemma_unsigned_round_trip(value: u32)
    ensures
        spec_encode_unsigned(value).len() == spec_unsigned_encoding_size(value),
        spec_decode_unsigned(spec_encode_unsigned(value), 0) == Some(
            (value, spec_unsigned_encoding_size(value)),
        ),
{
    lemma_pattern_decodes(value as int, spec_unsigned_encoding_size(value));
}

/// Decoding the encoding of a signed value gives the value back and consumes
/// the whole encoding.
pub proof fn lemma_signed_round_trip(value: i32)
    ensures
        spec_encode_signed(value).len() == spec_signed_encoding_size(value),
        spec_decode_signed(spec_encode_signed(value), 0) == Some(
            (value, spec_signed_encoding_size(value)),
        ),
{
    let width = spec_signed_encoding_size(value);
    lemma_pattern_decodes(spec_signed_pattern(value, width), width);
}

/// Decoding the encoding of an unsigned 64-bit value gives the value back and
/// consumes the whole encoding, in the short forms and in the nine-byte
/// escape alike.
pub proof fn lemma_unsigned_long_round_trip(value: u64)
    ensures
        spec_decode_unsigned_long(spec_encode_unsigned_long(value), 0) == Some(
            (value, spec_encode_unsigned_long(value).len() as int),
        ),
        value > 0xFFFF_FFFF ==> spec_encode_unsigned_long(value).len() == 9,
{
    let bytes = spec_encode_unsigned_long(value);
    if value <= 0xFFFF_FFFF {
        lemma_unsigned_round_trip(value as u32);
        lemma_pattern_decodes(value as int, spec_unsigned_encoding_size(value as u32));
    } else {
        let low = value as int % 0x1_0000_0000;
        let high = value as int / 0x1_0000_0000;
        lemma_le_bytes_32(low);
        lemma_le_bytes_32(high);
        let low_bytes = spec_le_bytes_32(low);
        let high_bytes = spec_le_bytes_32(high);
        assert(bytes.len() == 9);
        assert(bytes[0] == 0x1fu8);
        assert(bytes[1] == low_bytes[0] && bytes[2] == low_bytes[1] && bytes[3] == low_bytes[2]
            && bytes[4] == low_bytes[3]);
        assert(bytes[5] == high_bytes[0] && bytes[6] == high_bytes[1] && bytes[7] == high_bytes[2]
            && bytes[8] == high_bytes[3]);
        assert(spec_le_u32(bytes, 1) == spec_le_u32(low_bytes, 0));
        assert(spec_le_u32(bytes, 5) == spec_le_u32(high_bytes, 0));
        assert(spec_le_u64(bytes, 1) == value);
    }
}

/// No decoder reads behind the end of the data: what it consumes lies inside.
pub proof fn lemma_decoders_stay_in_bounds(data: Seq<u8>, offset: int)
    ensures
        spec_decode_unsigned(data, offset) matches Some((_, next)) ==> offset < next <= data.len(),
        spec_decode_signed(data, offset) matches Some((_, next)) ==> offset < next <= data.len(),
        spec_decode_unsigned_long(data, offset) matches Some((_, next)) ==> offset < next
            <= data.len(),
        spec_decode_signed_long(data, offset) matches Some((_, next)) ==> offset < next
            <= data.len(),
        spec_decode_string(data, offset) matches Some((_, next)) ==> offset < next <= data.len(),
{
}

/// An input cut off inside an encoding is rejected: where a decoder accepts
/// `data` at `offset`, it rejects every prefix of `data` that ends before the
/// end of what it consumed.
pub proof fn lemma_truncated_input_is_rejected(data: Seq<u8>, offset: int, cut: int)
    requires
        0 <= cut <= data.len(),
    ensures
        spec_decode_unsigned(data, offset) matches Some((_, next)) && cut < next
            ==> spec_decode_unsigned(data.subrange(0, cut), offset) is None,
        spec_decode_signed(data, offset) matches Some((_, next)) && cut < next
            ==> spec_decode_signed(data.subrange(0, cut), offset) is None,
        spec_decode_unsigned_long(data, offset) matches Some((_, next)) && cut < next
            ==> spec_decode_unsigned_long(data.subrange(0, cut), offset) is None,
        spec_decode_signed_long(data, offset) matches Some((_, next)) && cut < next
            ==> spec_decode_signed_long(data.subrange(0, cut), offset) is None,
        spec_decode_string(data, offset) matches Some((_, next)) && cut < next
            ==> spec_decode_string(data.subrange(0, cut), offset) is None,
{
    reveal(spec_unsigned_value);
}

} // verus!
