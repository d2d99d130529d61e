use aot_experiments::error::AotError;
use aot_experiments::native_format::encoding::{encode_signed, encode_unsigned, encode_unsigned_long};
use aot_experiments::native_format::parser::NativeParser;
use aot_experiments::native_format::reader::NativeReader;

fn decode_u(bytes: &[u8]) -> Result<(u32, usize), AotError> {
    let reader = NativeReader::new(bytes).unwrap();
    let mut offset = 0usize;
    reader.decode_unsigned(&mut offset).map(|v| (v, offset))
}

fn decode_s(bytes: &[u8]) -> Result<(i32, usize), AotError> {
    let reader = NativeReader::new(bytes).unwrap();
    let mut offset = 0usize;
    reader.decode_signed(&mut offset).map(|v| (v, offset))
}

fn decode_ul(bytes: &[u8]) -> Result<(u64, usize), AotError> {
    let reader = NativeReader::new(bytes).unwrap();
    let mut offset = 0usize;
    reader.decode_unsigned_long(&mut offset).map(|v| (v, offset))
}

#[test]
fn unsigned_encoding_has_the_documented_bytes() {
    assert_eq!(encode_unsigned(0), vec![0x00]);
    assert_eq!(encode_unsigned(1), vec![0x02]);
    assert_eq!(encode_unsigned(127), vec![0xfe]);
    assert_eq!(encode_unsigned(128), vec![0x01, 0x02]);
    assert_eq!(encode_unsigned(0x3fff), vec![0xfd, 0xff]);
    assert_eq!(encode_unsigned(0x4000), vec![0x03, 0x00, 0x02]);
    assert_eq!(encode_unsigned(0x1f_ffff), vec![0xfb, 0xff, 0xff]);
    assert_eq!(encode_unsigned(0x20_0000), vec![0x07, 0x00, 0x00, 0x02]);
    assert_eq!(encode_unsigned(0x0fff_ffff), vec![0xf7, 0xff, 0xff, 0xff]);
    assert_eq!(encode_unsigned(0x1000_0000), vec![0x0f, 0x00, 0x00, 0x00, 0x10]);
    assert_eq!(encode_unsigned(0xdead_beef), vec![0x0f, 0xef, 0xbe, 0xad, 0xde]);
}

#[test]
fn unsigned_round_trip_on_boundaries() {
    let values: [u32; 14] = [
        0, 1, 127, 128, 0x3fff, 0x4000, 0x1f_ffff, 0x20_0000, 0x0fff_ffff, 0x1000_0000,
        0x7fff_ffff, 0x8000_0000, 0xdead_beef, u32::MAX,
    ];
    for v in values {
        let bytes = encode_unsigned(v);
        assert_eq!(bytes.len() as u32, NativeReader::get_unsigned_encoding_size(v));
        assert_eq!(decode_u(&bytes), Ok((v, bytes.len())));
    }
}

#[test]
fn unsigned_round_trip_sweep() {
    let mut v: u64 = 0;
    while v <= u32::MAX as u64 {
        let bytes = encode_unsigned(v as u32);
        assert_eq!(decode_u(&bytes), Ok((v as u32, bytes.len())));
        v = v * 3 + 1;
    }
}

#[test]
fn encoding_size_thresholds() {
    assert_eq!(NativeReader::get_unsigned_encoding_size(0), 1);
    assert_eq!(NativeReader::get_unsigned_encoding_size(127), 1);
    assert_eq!(NativeReader::get_unsigned_encoding_size(128), 2);
    assert_eq!(NativeReader::get_unsigned_encoding_size(16383), 2);
    assert_eq!(NativeReader::get_unsigned_encoding_size(16384), 3);
    assert_eq!(NativeReader::get_unsigned_encoding_size(2097151), 3);
    assert_eq!(NativeReader::get_unsigned_encoding_size(2097152), 4);
    assert_eq!(NativeReader::get_unsigned_encoding_size(268435455), 4);
    assert_eq!(NativeReader::get_unsigned_encoding_size(268435456), 5);
    assert_eq!(NativeReader::get_unsigned_encoding_size(u32::MAX), 5);
}

#[test]
fn signed_encoding_has_the_documented_bytes() {
    assert_eq!(encode_signed(0), vec![0x00]);
    assert_eq!(encode_signed(-1), vec![0xfe]);
    assert_eq!(encode_signed(63), vec![0x7e]);
    assert_eq!(encode_signed(-64), vec![0x80]);
    assert_eq!(encode_signed(64), vec![0x01, 0x01]);
    assert_eq!(encode_signed(-65), vec![0xfd, 0xfe]);
    assert_eq!(encode_signed(i32::MIN), vec![0x0f, 0x00, 0x00, 0x00, 0x80]);
    assert_eq!(encode_signed(i32::MAX), vec![0x0f, 0xff, 0xff, 0xff, 0x7f]);
}

#[test]
fn signed_round_trip_on_boundaries() {
    let values: [i32; 20] = [
        0, 1, -1, 63, 64, -64, -65, 0x1fff, 0x2000, -0x2000, -0x2001, 0xf_ffff, 0x10_0000,
        -0x10_0000, -0x10_0001, 0x7ff_ffff, 0x800_0000, -0x800_0000, i32::MAX, i32::MIN,
    ];
    for v in values {
        let bytes = encode_signed(v);
        assert_eq!(decode_s(&bytes), Ok((v, bytes.len())), "value {v}");
    }
}

#[test]
fn signed_round_trip_sweep() {
    let mut v: i64 = 1;
    while v <= i32::MAX as i64 {
        for w in [v as i32, -(v as i32)] {
            let bytes = encode_signed(w);
            assert_eq!(decode_s(&bytes), Ok((w, bytes.len())));
        }
        v = v * 3 + 2;
    }
}

#[test]
fn signed_decoding_extends_the_sign_of_the_top_fragment() {
    // two bytes: marker 01, six bits of the first byte and the second byte
    assert_eq!(decode_s(&[0xfd, 0xff]), Ok((-1, 2)));
    assert_eq!(decode_s(&[0x01, 0x80]), Ok((-0x2000, 2)));
    assert_eq!(decode_s(&[0xfb, 0xff, 0xff]), Ok((-1, 3)));
    assert_eq!(decode_s(&[0xf7, 0xff, 0xff, 0xff]), Ok((-1, 4)));
    assert_eq!(decode_s(&[0x0f, 0xff, 0xff, 0xff, 0xff]), Ok((-1, 5)));
    // the same bytes read unsigned
    assert_eq!(decode_u(&[0xfd, 0xff]), Ok((0x3fff, 2)));
}

#[test]
fn long_round_trip_includes_the_escape_form() {
    let values: [u64; 8] = [
        0, 127, 0x1000_0000, u32::MAX as u64, u32::MAX as u64 + 1, 0x0123_4567_89ab_cdef,
        i64::MAX as u64, u64::MAX,
    ];
    for v in values {
        let bytes = encode_unsigned_long(v);
        if v > u32::MAX as u64 {
            assert_eq!(bytes.len(), 9);
            assert_eq!(bytes[0], 0x1f);
        }
        assert_eq!(decode_ul(&bytes), Ok((v, bytes.len())));
    }
    assert_eq!(
        encode_unsigned_long(0x0123_4567_89ab_cdef),
        vec![0x1f, 0xef, 0xcd, 0xab, 0x89, 0x67, 0x45, 0x23, 0x01]
    );
}

#[test]
fn signed_long_reads_the_escape_as_twos_complement() {
    let reader_bytes = [0x1f, 0xff, 0xff, 0xff, 0xff, 0xff, 0xff, 0xff, 0xff];
    let reader = NativeReader::new(&reader_bytes).unwrap();
    let mut offset = 0usize;
    assert_eq!(reader.decode_signed_long(&mut offset), Ok(-1));
    assert_eq!(offset, 9);
    let short = [0xfe];
    let reader = NativeReader::new(&short).unwrap();
    let mut offset = 0usize;
    assert_eq!(reader.decode_signed_long(&mut offset), Ok(-1));
    assert_eq!(offset, 1);
}

#[test]
fn invalid_markers_are_bad_images() {
    // 0b0011_1111: neither a 32-bit form nor the escape
    assert_eq!(decode_u(&[0x3f, 0, 0, 0, 0, 0, 0, 0, 0]), Err(AotError::BadImage));
    assert_eq!(decode_s(&[0x3f, 0, 0, 0, 0, 0, 0, 0, 0]), Err(AotError::BadImage));
    assert_eq!(decode_ul(&[0x3f, 0, 0, 0, 0, 0, 0, 0, 0]), Err(AotError::BadImage));
    // the escape marker is no 32-bit form
    assert_eq!(decode_u(&[0x1f, 0, 0, 0, 0, 0, 0, 0, 0]), Err(AotError::BadImage));
}

#[test]
fn truncated_input_is_a_bad_image() {
    for v in [0u32, 200, 0x4000, 0x20_0000, 0x1000_0000, u32::MAX] {
        let bytes = encode_unsigned(v);
        for cut in 0..bytes.len() {
            assert_eq!(decode_u(&bytes[..cut]), Err(AotError::BadImage));
            assert_eq!(decode_ul(&bytes[..cut]), Err(AotError::BadImage));
        }
    }
    for v in [0i32, -200, 0x4000, -0x20_0000, i32::MIN] {
        let bytes = encode_signed(v);
        for cut in 0..bytes.len() {
            assert_eq!(decode_s(&bytes[..cut]), Err(AotError::BadImage));
        }
    }
    let long = encode_unsigned_long(u64::MAX);
    for cut in 0..long.len() {
        assert_eq!(decode_ul(&long[..cut]), Err(AotError::BadImage));
    }
}

#[test]
fn a_failed_decode_leaves_the_offset() {
    let bytes = [0x00, 0x0f, 0x01];
    let reader = NativeReader::new(&bytes).unwrap();
    let mut offset = 1usize;
    assert_eq!(reader.decode_unsigned(&mut offset), Err(AotError::BadImage));
    assert_eq!(offset, 1);
    let mut offset = 3usize;
    assert_eq!(reader.decode_unsigned(&mut offset), Err(AotError::BadImage));
    assert_eq!(offset, 3);
}

#[test]
fn decoding_at_an_offset_moves_it_behind_the_encoding() {
    let mut bytes = vec![0xaa, 0xbb];
    bytes.extend(encode_unsigned(0x1000_0000));
    bytes.extend(encode_unsigned(5));
    let reader = NativeReader::new(&bytes).unwrap();
    let mut offset = 2usize;
    assert_eq!(reader.decode_unsigned(&mut offset), Ok(0x1000_0000));
    assert_eq!(offset, 7);
    assert_eq!(reader.decode_unsigned(&mut offset), Ok(5));
    assert_eq!(offset, 8);
}

#[test]
fn skip_integer_goes_by_the_marker() {
    let bytes = [0x00, 0x01, 0x03, 0x07, 0x0f, 0x1f, 0x3f];
    let reader = NativeReader::new(&bytes).unwrap();
    let widths = [1usize, 2, 3, 4, 5, 9];
    for (i, w) in widths.iter().enumerate() {
        let mut offset = i;
        assert_eq!(reader.skip_integer(&mut offset), Ok(()));
        assert_eq!(offset, i + w);
    }
    let mut offset = 6usize;
    assert_eq!(reader.skip_integer(&mut offset), Err(AotError::BadImage));
    assert_eq!(offset, 6);
    let mut offset = 7usize;
    assert_eq!(reader.skip_integer(&mut offset), Err(AotError::BadImage));
}

#[test]
fn strings_are_length_prefixed_utf8() {
    let mut bytes = encode_unsigned(5);
    bytes.extend_from_slice("héllo".as_bytes()[..5].as_ref());
    bytes.extend_from_slice(&[0x00]);
    let reader = NativeReader::new(&bytes).unwrap();
    let mut offset = 0usize;
    let text = reader.decode_string(&mut offset).unwrap();
    assert_eq!(text, "héll");
    assert_eq!(offset, 6);
    // the empty string
    assert_eq!(reader.decode_string(&mut offset), Ok(String::new()));
    assert_eq!(offset, 7);
}

#[test]
fn strings_with_invalid_utf8_are_decoded_lossily() {
    let bytes = [0x06, b'a', 0xff, b'b'];
    let reader = NativeReader::new(&bytes).unwrap();
    let mut offset = 0usize;
    assert_eq!(reader.decode_string(&mut offset), Ok("a\u{fffd}b".to_string()));
    assert_eq!(offset, 4);
}

#[test]
fn strings_that_run_past_the_end_are_bad_images() {
    let bytes = [0x08, b'a', b'b', b'c'];
    let reader = NativeReader::new(&bytes).unwrap();
    let mut offset = 0usize;
    assert_eq!(reader.decode_string(&mut offset), Err(AotError::BadImage));
    assert_eq!(offset, 0);
}

#[test]
fn raw_reads_are_little_endian_and_checked() {
    let bytes = [0x01, 0x02, 0x03, 0x04, 0x05, 0x06, 0x07, 0x08, 0x09];
    let reader = NativeReader::new(&bytes).unwrap();
    assert_eq!(reader.read_u8(8), Ok(0x09));
    assert_eq!(reader.read_u8(9), Err(AotError::BadImage));
    assert_eq!(reader.read_u16(0), Ok(0x0201));
    assert_eq!(reader.read_u16(8), Err(AotError::BadImage));
    assert_eq!(reader.read_u32(1), Ok(0x05040302));
    assert_eq!(reader.read_u32(6), Err(AotError::BadImage));
    assert_eq!(reader.read_u64(1), Ok(0x0908070605040302));
    assert_eq!(reader.read_u64(2), Err(AotError::BadImage));
    assert_eq!(reader.read_u64(usize::MAX), Err(AotError::BadImage));
}

#[test]
fn ensure_offset_in_range_checks_the_look_ahead() {
    let bytes = [0u8; 4];
    let reader = NativeReader::new(&bytes).unwrap();
    assert_eq!(reader.ensure_offset_in_range(0, 0), Ok(0));
    assert_eq!(reader.ensure_offset_in_range(3, 0), Ok(3));
    assert_eq!(reader.ensure_offset_in_range(4, 0), Err(AotError::BadImage));
    assert_eq!(reader.ensure_offset_in_range(2, 1), Ok(2));
    assert_eq!(reader.ensure_offset_in_range(2, 2), Err(AotError::BadImage));
    assert_eq!(reader.ensure_offset_in_range(usize::MAX, 1), Err(AotError::BadImage));
}

#[test]
fn parser_advances_over_what_it_reads() {
    let mut bytes = vec![0x7f];
    bytes.extend(encode_unsigned(300));
    bytes.extend(encode_signed(-300));
    bytes.extend(encode_unsigned_long(1 << 40));
    let reader = NativeReader::new(&bytes).unwrap();
    let mut parser = NativeParser::new(reader, 0);
    assert_eq!(parser.get_u8(), Ok(0x7f));
    assert_eq!(parser.get_unsigned(), Ok(300));
    assert_eq!(parser.get_signed(), Ok(-300));
    assert_eq!(parser.get_unsigned_long(), Ok(1 << 40));
    assert_eq!(parser.offset, bytes.len());
    assert_eq!(parser.get_u8(), Err(AotError::BadImage));
    assert_eq!(parser.offset, bytes.len());
}

#[test]
fn relative_offsets_count_from_where_they_are_encoded() {
    let mut bytes = vec![0u8; 10];
    bytes.extend(encode_signed(-7));
    bytes.extend(encode_signed(20));
    let reader = NativeReader::new(&bytes).unwrap();
    let mut parser = NativeParser::new(reader, 10);
    assert_eq!(parser.get_relative_offset(), Ok(3));
    let mut second = NativeParser::new(reader, 11);
    let target = second.get_parser_from_rel_offset().unwrap();
    assert_eq!(target.offset, 31);
    assert_eq!(second.offset, 12);
}

#[test]
fn relative_offsets_below_zero_wrap_in_32_bits() {
    let bytes = encode_signed(-1);
    let reader = NativeReader::new(&bytes).unwrap();
    let mut parser = NativeParser::new(reader, 0);
    assert_eq!(parser.get_relative_offset(), Ok(u32::MAX));
}

#[test]
fn error_messages() {
    assert_eq!(AotError::BadImage.message(), "This image/blob is corrupt or malformed");
    assert_eq!(
        AotError::InvalidMetaHandle.message(),
        "The value for the metadata handle is invalid"
    );
}

#[test]
fn a_reader_takes_fewer_than_two_to_the_thirty_bytes() {
    let mut bytes = vec![0u8; (1 << 30) - 1];
    assert_eq!(NativeReader::new(&bytes).unwrap().len(), (1 << 30) - 1);
    bytes.push(0);
    assert!(matches!(NativeReader::new(&bytes), Err(AotError::BadImage)));
}
