use aot_experiments::error::AotError;
use aot_experiments::native_format::hashtable::NativeHashtable;
use aot_experiments::native_format::parser::NativeParser;
use aot_experiments::native_format::reader::NativeReader;

/// The two-byte form of a signed number between -0x2000 and 0x1fff.
fn rel2(delta: i64) -> [u8; 2] {
    assert!((-0x2000..0x2000).contains(&delta));
    let pattern = if delta < 0 { delta + 0x4000 } else { delta } as u32;
    [((pattern % 64) * 4 + 1) as u8, (pattern / 64) as u8]
}

/// A table with `buckets.len()` buckets, which must be 2^shift, whose
/// entries are the given low hash bytes with the given payloads.
fn build_table(shift: u8, index_size: u8, buckets: &[Vec<(u8, Vec<u8>)>]) -> Vec<u8> {
    assert_eq!(buckets.len(), 1usize << shift);
    let width = [1usize, 2, 4][index_size as usize];
    let entries: usize = buckets.iter().map(|b| b.len()).sum();
    let entries_start = (buckets.len() + 1) * width;
    let payloads_start = entries_start + 3 * entries;
    let mut offsets = Vec::new();
    let mut entry_bytes = Vec::new();
    let mut payload_bytes: Vec<u8> = Vec::new();
    for bucket in buckets {
        offsets.push(entries_start + entry_bytes.len());
        for (low, payload) in bucket {
            let rel_at = entries_start + entry_bytes.len() + 1;
            let payload_at = payloads_start + payload_bytes.len();
            entry_bytes.push(*low);
            entry_bytes.extend_from_slice(&rel2(payload_at as i64 - rel_at as i64));
            payload_bytes.extend_from_slice(payload);
        }
    }
    offsets.push(entries_start + entry_bytes.len());
    let mut blob = vec![(shift << 2) | index_size];
    for offset in offsets {
        match index_size {
            0 => blob.push(offset as u8),
            1 => blob.extend_from_slice(&(offset as u16).to_le_bytes()),
            _ => blob.extend_from_slice(&(offset as u32).to_le_bytes()),
        }
    }
    blob.extend(entry_bytes);
    blob.extend(payload_bytes);
    blob
}

fn open(blob: &[u8]) -> NativeHashtable<'_> {
    NativeHashtable::new(NativeParser::new(NativeReader::new(blob).unwrap(), 0)).unwrap()
}

fn payloads_of(blob: &[u8], parsers: Vec<NativeParser<'_>>) -> Vec<u8> {
    parsers.iter().map(|p| blob[p.offset]).collect()
}

fn sample() -> Vec<u8> {
    build_table(
        1,
        0,
        &[
            vec![(0x10, vec![0xa0]), (0x20, vec![0xa1]), (0x20, vec![0xa2]), (0x30, vec![0xa3])],
            vec![(0x05, vec![0xb0]), (0x78, vec![0xb1])],
        ],
    )
}

#[test]
fn header_byte_gives_mask_and_index_size() {
    let blob = sample();
    let table = open(&blob);
    assert_eq!(table.bucket_mask(), 1);
    let big = [(31u8 << 2) | 2, 0, 0, 0, 0, 0, 0, 0, 0];
    assert_eq!(open(&big).bucket_mask(), 0x7fff_ffff);
    let single = build_table(0, 1, &[vec![]]);
    assert_eq!(open(&single).bucket_mask(), 0);
}

#[test]
fn bad_headers_are_refused() {
    let reader = NativeReader::new(&[]).unwrap();
    assert!(matches!(NativeHashtable::new(NativeParser::new(reader, 0)), Err(AotError::BadImage)));
    let index_three = [0x03u8, 0, 0];
    let reader = NativeReader::new(&index_three).unwrap();
    assert!(matches!(NativeHashtable::new(NativeParser::new(reader, 0)), Err(AotError::BadImage)));
    let shift_32 = [32u8 << 2, 0, 0];
    let reader = NativeReader::new(&shift_32).unwrap();
    assert!(matches!(NativeHashtable::new(NativeParser::new(reader, 0)), Err(AotError::BadImage)));
    let reader = NativeReader::new(&index_three).unwrap();
    assert!(matches!(NativeHashtable::new(NativeParser::new(reader, 5)), Err(AotError::BadImage)));
}

#[test]
fn lookup_yields_every_matching_payload_in_file_order() {
    let blob = sample();
    let table = open(&blob);
    // bucket 0 holds the hashcodes whose bit 8 is clear
    assert_eq!(payloads_of(&blob, table.lookup(0x0020).unwrap().collect()), vec![0xa1, 0xa2]);
    assert_eq!(payloads_of(&blob, table.lookup(0x0010).unwrap().collect()), vec![0xa0]);
    assert_eq!(payloads_of(&blob, table.lookup(0x0030).unwrap().collect()), vec![0xa3]);
    assert_eq!(payloads_of(&blob, table.lookup(0x0220).unwrap().collect()), vec![0xa1, 0xa2]);
    // bucket 1
    assert_eq!(payloads_of(&blob, table.lookup(0x0178).unwrap().collect()), vec![0xb1]);
    assert_eq!(payloads_of(&blob, table.lookup(0x12345778).unwrap().collect()), vec![0xb1]);
    // no match
    assert!(table.lookup(0x0011).unwrap().collect().is_empty());
    assert!(table.lookup(0x0120).unwrap().collect().is_empty());
}

#[test]
fn lookup_takes_the_hashcode_as_a_bit_pattern() {
    let blob = sample();
    let table = open(&blob);
    // -1 is 0xffffffff: bucket 1, low byte 0xff
    assert!(table.lookup(-1).unwrap().collect().is_empty());
    // 0x80000178 as a signed number
    let negative = 0x8000_0178u32 as i32;
    assert!(negative < 0);
    assert_eq!(payloads_of(&blob, table.lookup(negative).unwrap().collect()), vec![0xb1]);
}

#[test]
fn lookup_next_walks_one_match_at_a_time() {
    let blob = sample();
    let table = open(&blob);
    let mut it = table.lookup(0x0020).unwrap();
    let first = it.next().unwrap();
    assert_eq!(blob[first.offset], 0xa1);
    let second = it.next().unwrap();
    assert_eq!(blob[second.offset], 0xa2);
    assert!(it.next().is_none());
}

#[test]
fn lookup_stops_at_the_first_greater_low_hash() {
    // entries: low 1, low 5, then three bytes that are no entry
    let mut blob = build_table(0, 0, &[vec![(0x01, vec![0xc0]), (0x05, vec![0xc1]), (0x09, vec![0xc2])]]);
    let entries_start = 1 + 2;
    // spoil the relative offset of the third entry with an invalid marker
    blob[entries_start + 7] = 0x3f;
    let table = open(&blob);
    let mut it = table.lookup(0x03).unwrap();
    assert!(it.next().is_none());
    // the cursor stands right behind the low hash byte of the second entry
    assert_eq!(it.parser.offset, entries_start + 4);
    // a lookup for a greater byte has to go through the spoiled entry and ends there
    assert!(table.lookup(0x0a).unwrap().collect().is_empty());
    // the entries before it are still found
    assert_eq!(payloads_of(&blob, table.lookup(0x05).unwrap().collect()), vec![0xc1]);
    assert_eq!(payloads_of(&blob, table.lookup(0x01).unwrap().collect()), vec![0xc0]);
}

#[test]
fn enumerate_all_yields_every_payload_bucket_after_bucket() {
    let blob = sample();
    let table = open(&blob);
    let all = payloads_of(&blob, table.enumerate_all().unwrap().collect());
    assert_eq!(all, vec![0xa0, 0xa1, 0xa2, 0xa3, 0xb0, 0xb1]);
}

#[test]
fn enumerate_all_steps_over_empty_buckets() {
    let blob = build_table(
        2,
        1,
        &[vec![], vec![(0x01, vec![0xd0])], vec![], vec![(0x02, vec![0xd1]), (0x03, vec![0xd2])]],
    );
    let table = open(&blob);
    assert_eq!(table.bucket_mask(), 3);
    let all = payloads_of(&blob, table.enumerate_all().unwrap().collect());
    assert_eq!(all, vec![0xd0, 0xd1, 0xd2]);
    let mut it = table.enumerate_all().unwrap();
    assert_eq!(blob[it.next().unwrap().offset], 0xd0);
    assert_eq!(it.current_bucket, 1);
    assert_eq!(blob[it.next().unwrap().offset], 0xd1);
    assert_eq!(it.current_bucket, 3);
    assert_eq!(blob[it.next().unwrap().offset], 0xd2);
    assert!(it.next().is_none());
}

#[test]
fn wide_bucket_offsets_are_read_little_endian() {
    for index_size in [0u8, 1, 2] {
        let blob = build_table(
            1,
            index_size,
            &[vec![(0x44, vec![0xe0])], vec![(0x44, vec![0xe1]), (0x45, vec![0xe2])]],
        );
        let table = open(&blob);
        assert_eq!(payloads_of(&blob, table.lookup(0x0044).unwrap().collect()), vec![0xe0]);
        assert_eq!(payloads_of(&blob, table.lookup(0x0144).unwrap().collect()), vec![0xe1]);
        assert_eq!(payloads_of(&blob, table.lookup(0x0145).unwrap().collect()), vec![0xe2]);
        let all = payloads_of(&blob, table.enumerate_all().unwrap().collect());
        assert_eq!(all, vec![0xe0, 0xe1, 0xe2]);
    }
}

#[test]
fn bucket_bounds_outside_the_blob_are_bad_images() {
    // four buckets are announced, but the blob ends behind the header
    let blob = [2u8 << 2];
    let table = open(&blob);
    assert!(matches!(table.lookup(0), Err(AotError::BadImage)));
    assert!(matches!(table.enumerate_all(), Err(AotError::BadImage)));
    let mut end = 7usize;
    assert!(matches!(table.get_parser_for_bucket(1, &mut end), Err(AotError::BadImage)));
    assert_eq!(end, 7);
}

#[test]
fn get_parser_for_bucket_gives_start_and_end() {
    let blob = sample();
    let table = open(&blob);
    let mut end = 0usize;
    let parser = table.get_parser_for_bucket(0, &mut end).unwrap();
    // base is 1; three offsets of one byte; four entries of three bytes in bucket 0
    assert_eq!(parser.offset, 1 + 3);
    assert_eq!(end, 1 + 3 + 12);
    let parser = table.get_parser_for_bucket(1, &mut end).unwrap();
    assert_eq!(parser.offset, 1 + 3 + 12);
    assert_eq!(end, 1 + 3 + 18);
}
