use vstd::arithmetic::power2::{lemma2_to64, lemma_pow2_strictly_increases, lemma_pow2_unfold, pow2};
use vstd::prelude::*;

use crate::error::AotError;
use crate::native_format::parser::{spec_relative_target, NativeParser};
use crate::native_format::reader::{
    spec_read_u16, spec_read_u32, spec_read_u8, spec_skip_integer, NativeReader,
};

verus! {

// ---------------------------------------------------------------------------
// The model of a table
// ---------------------------------------------------------------------------

/// What the header byte at `offset` says of a table: the offset behind it,
/// from which all bucket offsets count; the bucket mask, one less than the
/// number of buckets; and the code of the width of a bucket offset.
pub open spec fn spec_table_header(data: Seq<u8>, offset: int) -> Option<(int, int, int)> {
    match spec_read_u8(data, offset) {
        None => None,
        Some(header) => if header / 4 > 31 || header % 4 > 2 {
            None
        } else {
            Some((offset + 1, pow2((header / 4) as nat) - 1, (header % 4) as int))
        },
    }
}

/// The number of bytes of one bucket offset.
pub open spec fn spec_index_width(index_size: int) -> int {
    if index_size == 0 {
        1
    } else if index_size == 1 {
        2
    } else {
        4
    }
}

/// The bucket offset stored at `offset`.
pub open spec fn spec_read_index(data: Seq<u8>, offset: int, index_size: int) -> Option<int> {
    if index_size == 0 {
        match spec_read_u8(data, offset) {
            Some(v) => Some(v as int),
            None => None,
        }
    } else if index_size == 1 {
        match spec_read_u16(data, offset) {
            Some(v) => Some(v as int),
            None => None,
        }
    } else {
        match spec_read_u32(data, offset) {
            Some(v) => Some(v as int),
            None => None,
        }
    }
}

/// Where the entries of `bucket` start and end: the bucket's own offset and
/// the one stored behind it, both counted from `base`. `None` where either
/// cannot be read or does not fit a machine word.
pub open spec fn spec_bucket_bounds(data: Seq<u8>, base: int, index_size: int, bucket: int)
    -> Option<(int, int)> {
    let step = spec_index_width(index_size);
    let at = base + bucket * step;
    match (spec_read_index(data, at, index_size), spec_read_index(data, at + step, index_size)) {
        (Some(start), Some(end)) => if base + start <= usize::MAX && base + end <= usize::MAX {
            Some((base + start, base + end))
        } else {
            None
        },
        _ => None,
    }
}

/// The bit pattern of a hashcode.
pub open spec fn spec_hash_pattern(hashcode: i32) -> int {
    if hashcode < 0 {
        hashcode + 0x1_0000_0000
    } else {
        hashcode as int
    }
}

/// The bucket that holds the entries of `hashcode`: the bits above the
/// lowest eight, cut to the number of buckets.
#[verifier::opaque]
pub open spec fn spec_bucket_of(hashcode: i32, mask: int) -> int {
    (spec_hash_pattern(hashcode) / 0x100) % (mask + 1)
}

/// The low byte of a hashcode, which each entry stores.
pub open spec fn spec_low_hash(hashcode: i32) -> u8 {
    (spec_hash_pattern(hashcode) % 0x100) as u8
}

/// The entry at `offset`: its low hash byte and the offset of its payload,
/// and the offset behind the entry.
pub open spec fn spec_entry_at(data: Seq<u8>, offset: int) -> Option<((u8, int), int)> {
    match spec_read_u8(data, offset) {
        None => None,
        Some(low) => match spec_relative_target(data, offset + 1) {
            Some((payload, next)) => Some(((low, payload), next)),
            None => None,
        },
    }
}

/// The distance from `offset` to `end`, zero where `offset` is behind it.
pub open spec fn spec_left(offset: int, end: int) -> int {
    if offset < end {
        end - offset
    } else {
        0
    }
}

/// Whether every entry from `offset` up to `end` can be decoded.
pub open spec fn spec_bucket_parses(data: Seq<u8>, offset: int, end: int) -> bool
    decreases spec_left(offset, end),
{
    if offset >= end {
        true
    } else {
        match spec_entry_at(data, offset) {
            None => false,
            Some((_, next)) => offset < next && spec_bucket_parses(data, next, end),
        }
    }
}

/// The entries from `offset` up to `end` in file order, as far as they can be
/// decoded.
pub open spec fn spec_bucket_entries(data: Seq<u8>, offset: int, end: int) -> Seq<(u8, int)>
    decreases spec_left(offset, end),
{
    if offset >= end {
        Seq::empty()
    } else {
        match spec_entry_at(data, offset) {
            None => Seq::empty(),
            Some((entry, next)) => if offset < next {
                seq![entry] + spec_bucket_entries(data, next, end)
            } else {
                seq![entry]
            },
        }
    }
}

/// Whether the low hash bytes of `entries` ascend.
pub open spec fn spec_sorted(entries: Seq<(u8, int)>) -> bool {
    forall|i: int, j: int| 0 <= i <= j < entries.len() ==> entries[i].0 <= entries[j].0
}

/// The payloads of the entries whose low hash byte is `target`, in order.
pub open spec fn spec_matching(entries: Seq<(u8, int)>, target: u8) -> Seq<int>
    decreases entries.len(),
{
    if entries.len() == 0 {
        Seq::empty()
    } else if entries[0].0 == target {
        seq![entries[0].1] + spec_matching(entries.drop_first(), target)
    } else {
        spec_matching(entries.drop_first(), target)
    }
}

/// The payloads of all `entries`, in order.
pub open spec fn spec_payloads(entries: Seq<(u8, int)>) -> Seq<int> {
    Seq::new(entries.len(), |i: int| entries[i].1)
}

/// One step of a lookup that stands at `offset`: the payload of the next
/// entry whose low hash byte is `target` and the offset behind that entry.
/// The search ends, with `None`, at `end`, at an entry with a greater low
/// hash byte, and at anything that cannot be decoded.
pub open spec fn spec_lookup_step(data: Seq<u8>, offset: int, end: int, target: u8) -> Option<
    (int, int),
>
    decreases spec_left(offset, end),
{
    if offset >= end {
        None
    } else {
        match spec_read_u8(data, offset) {
            None => None,
            Some(low) => if low == target {
                spec_relative_target(data, offset + 1)
            } else if low > target {
                None
            } else {
                match spec_skip_integer(data, offset + 1) {
                    Some(next) => if offset < next {
                        spec_lookup_step(data, next, end, target)
                    } else {
                        None
                    },
                    None => None,
                }
            },
        }
    }
}

/// Where a lookup that stands at `offset` and has nothing more to yield
/// stops reading: at `end`, right behind the low hash byte of the first entry
/// with a greater low hash byte, or right behind the low hash byte of an
/// entry whose relative offset cannot be decoded.
pub open spec fn spec_lookup_stop(data: Seq<u8>, offset: int, end: int, target: u8) -> int
    decreases spec_left(offset, end),
{
    if offset >= end {
        offset
    } else {
        match spec_read_u8(data, offset) {
            None => offset,
            Some(low) => if low >= target {
                offset + 1
            } else {
                match spec_skip_integer(data, offset + 1) {
                    Some(next) => if offset < next {
                        spec_lookup_stop(data, next, end, target)
                    } else {
                        offset + 1
                    },
                    None => offset + 1,
                }
            },
        }
    }
}

/// Everything that a lookup standing at `offset` yields, in order.
#[verifier::opaque]
pub open spec fn spec_lookup_seq(data: Seq<u8>, offset: int, end: int, target: u8) -> Seq<int>
    decreases spec_left(offset, end),
{
    if offset >= end {
        Seq::empty()
    } else {
        match spec_read_u8(data, offset) {
            None => Seq::empty(),
            Some(low) => if low == target {
                match spec_relative_target(data, offset + 1) {
                    Some((payload, next)) => if offset < next {
                        seq![payload] + spec_lookup_seq(data, next, end, target)
                    } else {
                        seq![payload]
                    },
                    None => Seq::empty(),
                }
            } else if low > target {
                Seq::empty()
            } else {
                match spec_skip_integer(data, offset + 1) {
                    Some(next) => if offset < next {
                        spec_lookup_seq(data, next, end, target)
                    } else {
                        Seq::empty()
                    },
                    None => Seq::empty(),
                }
            },
        }
    }
}

/// One step of a full enumeration that stands in `bucket` at `offset`: the
/// payload of the next entry, and the bucket, offset and end at which the
/// enumeration then stands. Buckets without entries are stepped over. The
/// enumeration ends, with `None`, behind the last bucket and at anything
/// that cannot be decoded.
pub open spec fn spec_all_step(
    data: Seq<u8>,
    base: int,
    index_size: int,
    mask: int,
    bucket: int,
    offset: int,
    end: int,
) -> Option<(int, int, int, int)>
    decreases mask - bucket,
{
    if offset < end {
        match spec_entry_at(data, offset) {
            Some(((_, payload), next)) => Some((payload, bucket, next, end)),
            None => None,
        }
    } else if bucket >= mask {
        None
    } else {
        match spec_bucket_bounds(data, base, index_size, bucket + 1) {
            Some((start, new_end)) => spec_all_step(
                data,
                base,
                index_size,
                mask,
                bucket + 1,
                start,
                new_end,
            ),
            None => None,
        }
    }
}

/// Everything that a full enumeration standing in `bucket` at `offset`
/// yields: bucket after bucket, each in file order.
#[verifier::opaque]
pub open spec fn spec_all_seq(
    data: Seq<u8>,
    base: int,
    index_size: int,
    mask: int,
    bucket: int,
    offset: int,
    end: int,
) -> Seq<int>
    decreases mask - bucket, spec_left(offset, end),
{
    if offset < end {
        match spec_entry_at(data, offset) {
            Some(((_, payload), next)) => if offset < next {
                seq![payload] + spec_all_seq(data, base, index_size, mask, bucket, next, end)
            } else {
                seq![payload]
            },
            None => Seq::empty(),
        }
    } else if bucket >= mask {
        Seq::empty()
    } else {
        match spec_bucket_bounds(data, base, index_size, bucket + 1) {
            Some((start, new_end)) => spec_all_seq(
                data,
                base,
                index_size,
                mask,
                bucket + 1,
                start,
                new_end,
            ),
            None => Seq::empty(),
        }
    }
}

/// Whether the buckets from `bucket` to the last one can all be located and
/// decoded.
pub open spec fn spec_table_parses(
    data: Seq<u8>,
    base: int,
    index_size: int,
    mask: int,
    bucket: int,
) -> bool
    decreases mask - bucket + 1,
{
    if bucket > mask {
        true
    } else {
        match spec_bucket_bounds(data, base, index_size, bucket) {
            Some((start, end)) => spec_bucket_parses(data, start, end) && spec_table_parses(
                data,
                base,
                index_size,
                mask,
                bucket + 1,
            ),
            None => false,
        }
    }
}

/// The entries of the buckets from `bucket` to the last one, bucket after
/// bucket.
pub open spec fn spec_table_entries(
    data: Seq<u8>,
    base: int,
    index_size: int,
    mask: int,
    bucket: int,
) -> Seq<(u8, int)>
    decreases mask - bucket + 1,
{
    if bucket > mask {
        Seq::empty()
    } else {
        match spec_bucket_bounds(data, base, index_size, bucket) {
            Some((start, end)) => spec_bucket_entries(data, start, end) + spec_table_entries(
                data,
                base,
                index_size,
                mask,
                bucket + 1,
            ),
            None => Seq::empty(),
        }
    }
}

/// The offsets at which the parsers of `parsers` stand.
pub open spec fn spec_offsets(parsers: Seq<NativeParser<'_>>) -> Seq<int> {
    Seq::new(parsers.len(), |i: int| parsers[i].offset as int)
}

// ---------------------------------------------------------------------------
// The table
// ---------------------------------------------------------------------------

/// A bucketed hashtable inside a blob. An entry holds the low byte of a
/// hashcode and the relative offset of its payload; which bucket it lies in
/// follows from the bits above the low byte.
#[derive(Clone, Copy)]
pub struct NativeHashtable<'a> {
    reader: NativeReader<'a>,
    base_offset: usize,
    bucket_mask: u32,
    entry_index_size: u8,
}

impl<'a> NativeHashtable<'a> {
    #[verifier::type_invariant]
    spec fn well_formed(&self) -> bool {
        &&& self.entry_index_size <= 2
        &&& self.bucket_mask <= 0x7FFF_FFFF
        &&& self.base_offset <= 0x3FFF_FFFF
    }

    /// The reader of the blob.
    pub closed spec fn spec_reader(&self) -> NativeReader<'a> {
        self.reader
    }

    /// The bytes of the blob.
    pub open spec fn data(&self) -> Seq<u8> {
        self.spec_reader()@
    }

    /// The offset from which the bucket offsets count.
    pub closed spec fn base(&self) -> int {
        self.base_offset as int
    }

    /// One less than the number of buckets.
    pub closed spec fn mask(&self) -> int {
        self.bucket_mask as int
    }

    /// The code of the width of a bucket offset: 0, 1 or 2.
    pub closed spec fn index_size(&self) -> int {
        self.entry_index_size as int
    }

    /// Where the entries of `bucket` start and end.
    pub open spec fn bounds(&self, bucket: int) -> Option<(int, int)> {
        spec_bucket_bounds(self.data(), self.base(), self.index_size(), bucket)
    }

    /// Reads the header byte at which `parser` stands. A bucket count above
    /// 2^31 and an offset width code above 2 are refused.
    pub fn new(parser: NativeParser<'a>) -> (r: Result<Self, AotError>)
        ensures
            match spec_table_header(parser.reader@, parser.offset as int) {
                Some((base, mask, index_size)) => r is Ok && r->Ok_0.spec_reader() == parser.reader
                    && r->Ok_0.data() == parser.reader@ && r->Ok_0.base() == base
                    && r->Ok_0.mask() == mask && r->Ok_0.index_size() == index_size,
                None => r == Err::<Self, AotError>(AotError::BadImage),
            },
    {
        let mut parser = parser;
        let header: u8 = match parser.get_u8() {
            Ok(header) => header,
            Err(e) => {
                return Err(e);
            },
        };
        let _ = parser.reader.len();
        let base_offset: usize = parser.offset;
        let shift: u8 = header / 4;
        if shift > 31 {
            return Err(AotError::BadImage);
        }
        let entry_index_size: u8 = header % 4;
        if entry_index_size > 2 {
            return Err(AotError::BadImage);
        }
        let mut bucket_mask: u32 = 0;
        let mut i: u8 = 0;
        proof {
            lemma2_to64();
        }
        while i < shift
            invariant
                i <= shift <= 31,
                bucket_mask == pow2(i as nat) - 1,
            decreases shift - i,
        {
            proof {
                lemma2_to64();
                lemma_pow2_unfold((i + 1) as nat);
                lemma_pow2_strictly_increases(i as nat, 31);
            }
            bucket_mask = bucket_mask * 2 + 1;
            i = i + 1;
        }
        proof {
            lemma2_to64();
            if shift < 31 {
                lemma_pow2_strictly_increases(shift as nat, 31);
            }
        }
        Ok(Self { reader: parser.reader, base_offset, bucket_mask, entry_index_size })
    }

    /// The reader of the blob.
    pub fn reader(&self) -> (reader: NativeReader<'a>)
        ensures
            reader == self.spec_reader(),
    {
        self.reader
    }

    /// One less than the number of buckets.
    pub fn bucket_mask(&self) -> (mask: u32)
        ensures
            mask == self.mask(),
    {
        self.bucket_mask
    }

    /// The bucket offset stored at `at`.
    fn read_index(&self, at: usize) -> (r: Result<u32, AotError>)
        ensures
            match spec_read_index(self.data(), at as int, self.index_size()) {
                Some(v) => r == Ok::<u32, AotError>(v as u32) && v <= u32::MAX,
                None => r == Err::<u32, AotError>(AotError::BadImage),
            },
    {
        if self.entry_index_size == 0 {
            match self.reader.read_u8(at) {
                Ok(v) => Ok(v as u32),
                Err(e) => Err(e),
            }
        } else if self.entry_index_size == 1 {
            match self.reader.read_u16(at) {
                Ok(v) => Ok(v as u32),
                Err(e) => Err(e),
            }
        } else {
            self.reader.read_u32(at)
        }
    }

    /// A parser at the first entry of `bucket`; `offset` receives the offset
    /// at which the bucket's entries end. On failure `offset` stays as it
    /// was.
    pub fn get_parser_for_bucket(&self, bucket: u32, offset: &mut usize) -> (r: Result<
        NativeParser<'a>,
        AotError,
    >)
        ensures
            match self.bounds(bucket as int) {
                Some((start, end)) => r is Ok && r->Ok_0.reader == self.spec_reader()
                    && r->Ok_0.offset == start && *final(offset) == end,
                None => r == Err::<NativeParser<'a>, AotError>(AotError::BadImage) && *final(offset)
                    == *old(offset),
            },
    {
        proof {
            use_type_invariant(self);
        }
        let len: usize = self.reader.len();
        let step: u64 = if self.entry_index_size == 0 {
            1
        } else if self.entry_index_size == 1 {
            2
        } else {
            4
        };
        let at: u64 = self.base_offset as u64 + bucket as u64 * step;
        if at >= len as u64 {
            return Err(AotError::BadImage);
        }
        let at: usize = at as usize;
        let start: u32 = match self.read_index(at) {
            Ok(start) => start,
            Err(e) => {
                return Err(e);
            },
        };
        let end: u32 = match self.read_index(at + step as usize) {
            Ok(end) => end,
            Err(e) => {
                return Err(e);
            },
        };
        let start_offset: u64 = self.base_offset as u64 + start as u64;
        let end_offset: u64 = self.base_offset as u64 + end as u64;
        if start_offset > usize::MAX as u64 || end_offset > usize::MAX as u64 {
            return Err(AotError::BadImage);
        }
        *offset = end_offset as usize;
        Ok(NativeParser::new(self.reader, start_offset as usize))
    }

    /// The entries of the bucket of `hashcode` whose low hash byte is that
    /// of `hashcode`, as an iterator that stands at the bucket's start.
    pub fn lookup(&self, hashcode: i32) -> (r: Result<NativeHashtableIterator<'a>, AotError>)
        ensures
            match self.bounds(spec_bucket_of(hashcode, self.mask())) {
                Some((start, end)) => r is Ok && r->Ok_0.parser.reader == self.spec_reader()
                    && r->Ok_0.parser.offset == start && r->Ok_0.end_offset == end
                    && r->Ok_0.low_hashcode == spec_low_hash(hashcode),
                None => r is Err && r->Err_0 == AotError::BadImage,
            },
    {
        reveal(spec_bucket_of);
        proof {
            use_type_invariant(self);
        }
        let pattern: u32 = if hashcode < 0 {
            (hashcode as i64 + 0x1_0000_0000) as u32
        } else {
            hashcode as u32
        };
        let bucket: u32 = (pattern / 0x100) % (self.bucket_mask + 1);
        let mut end_offset: usize = 0;
        match self.get_parser_for_bucket(bucket, &mut end_offset) {
            Ok(parser) => Ok(
                NativeHashtableIterator::new(parser, end_offset, (pattern % 0x100) as u8),
            ),
            Err(e) => Err(e),
        }
    }

    /// All entries of the table, as an iterator that stands at the start of
    /// the first bucket.
    pub fn enumerate_all(&self) -> (r: Result<NativeHashtableAllEntries<'a>, AotError>)
        ensures
            match self.bounds(0) {
                Some((start, end)) => r is Ok && r->Ok_0.table == *self && r->Ok_0.parser.reader
                    == self.spec_reader() && r->Ok_0.parser.offset == start
                    && r->Ok_0.current_bucket == 0 && r->Ok_0.end_offset == end,
                None => r is Err && r->Err_0 == AotError::BadImage,
            },
    {
        NativeHashtableAllEntries::new(*self)
    }
}

// ---------------------------------------------------------------------------
// Lookup
// ---------------------------------------------------------------------------

/// The state of a lookup: a cursor inside one bucket, the offset at which
/// the bucket ends, and the low hash byte that is looked for.
pub struct NativeHashtableIterator<'a> {
    pub parser: NativeParser<'a>,
    pub end_offset: usize,
    pub low_hashcode: u8,
}

impl<'a> NativeHashtableIterator<'a> {
    pub fn new(parser: NativeParser<'a>, end_offset: usize, low_hashcode: u8) -> (it: Self)
        ensures
            it.parser == parser,
            it.end_offset == end_offset,
            it.low_hashcode == low_hashcode,
    {
        Self { parser, end_offset, low_hashcode }
    }

    /// What the lookup has yet to yield.
    pub open spec fn remaining(&self) -> Seq<int> {
        spec_lookup_seq(
            self.parser.reader@,
            self.parser.offset as int,
            self.end_offset as int,
            self.low_hashcode,
        )
    }

    /// The next entry whose low hash byte matches, as a parser at its
    /// payload. Entries with a smaller low hash byte are stepped over; at
    /// the first with a greater one the lookup ends without reading on.
    pub fn next(&mut self) -> (r: Option<NativeParser<'a>>)
        ensures
            final(self).parser.reader == old(self).parser.reader,
            final(self).end_offset == old(self).end_offset,
            final(self).low_hashcode == old(self).low_hashcode,
            match spec_lookup_step(
                old(self).parser.reader@,
                old(self).parser.offset as int,
                old(self).end_offset as int,
                old(self).low_hashcode,
            ) {
                Some((payload, next)) => r is Some && r->Some_0.reader == old(self).parser.reader
                    && r->Some_0.offset == payload && final(self).parser.offset == next
                    && old(self).remaining() == seq![payload] + final(self).remaining(),
                None => r is None && old(self).remaining() == Seq::<int>::empty()
                    && final(self).parser.offset == spec_lookup_stop(
                    old(self).parser.reader@,
                    old(self).parser.offset as int,
                    old(self).end_offset as int,
                    old(self).low_hashcode,
                ),
            },
    {
        reveal(spec_lookup_seq);
        let ghost data = self.parser.reader@;
        let ghost start = self.parser.offset as int;
        let ghost end = self.end_offset as int;
        let ghost target = self.low_hashcode;
        while self.parser.offset < self.end_offset
            invariant
                self.parser.reader == old(self).parser.reader,
                self.end_offset == old(self).end_offset,
                self.low_hashcode == old(self).low_hashcode,
                data == self.parser.reader@,
                start == old(self).parser.offset,
                end == self.end_offset,
                target == self.low_hashcode,
                spec_lookup_step(data, self.parser.offset as int, end, target) == spec_lookup_step(
                    data,
                    start,
                    end,
                    target,
                ),
                spec_lookup_stop(data, self.parser.offset as int, end, target) == spec_lookup_stop(
                    data,
                    start,
                    end,
                    target,
                ),
                spec_lookup_seq(data, self.parser.offset as int, end, target) == spec_lookup_seq(
                    data,
                    start,
                    end,
                    target,
                ),
            decreases spec_left(self.parser.offset as int, self.end_offset as int),
        {
            reveal(spec_lookup_seq);
            let ghost here = self.parser.offset as int;
            assert(here < end);
            let low: u8 = match self.parser.get_u8() {
                Ok(low) => low,
                Err(_) => {
                    assert(spec_read_u8(data, here) is None);
                    assert(spec_lookup_step(data, here, end, target) is None);
                    assert(spec_lookup_seq(data, here, end, target) == Seq::<int>::empty());
                    return None;
                },
            };
            assert(spec_read_u8(data, here) == Some(low));
            if low == self.low_hashcode {
                match self.parser.get_parser_from_rel_offset() {
                    Ok(payload) => {
                        proof {
                            lemma_entry_advances(data, here);
                            let found = spec_relative_target(data, here + 1);
                            assert(found is Some);
                            assert(spec_lookup_step(data, here, end, target) == found);
                            assert(spec_lookup_seq(data, here, end, target) == seq![
                                found->Some_0.0,
                            ] + spec_lookup_seq(data, found->Some_0.1, end, target));
                        }
                        return Some(payload);
                    },
                    Err(_) => {
                        assert(spec_relative_target(data, here + 1) is None);
                        assert(spec_lookup_step(data, here, end, target) is None);
                        assert(spec_lookup_seq(data, here, end, target) == Seq::<int>::empty());
                        return None;
                    },
                }
            }
            if low > self.low_hashcode {
                assert(spec_lookup_step(data, here, end, target) is None);
                assert(spec_lookup_seq(data, here, end, target) == Seq::<int>::empty());
                return None;
            }
            match self.parser.skip_integer() {
                Ok(()) => {
                    assert(spec_skip_integer(data, here + 1) == Some(self.parser.offset as int));
                    assert(spec_lookup_step(data, here, end, target) == spec_lookup_step(
                        data,
                        self.parser.offset as int,
                        end,
                        target,
                    ));
                    assert(spec_lookup_seq(data, here, end, target) == spec_lookup_seq(
                        data,
                        self.parser.offset as int,
                        end,
                        target,
                    ));
                },
                Err(_) => {
                    assert(spec_skip_integer(data, here + 1) is None);
                    assert(spec_lookup_step(data, here, end, target) is None);
                    assert(spec_lookup_seq(data, here, end, target) == Seq::<int>::empty());
                    return None;
                },
            }
        }
        assert(spec_lookup_step(data, self.parser.offset as int, end, target) is None);
        assert(spec_lookup_seq(data, self.parser.offset as int, end, target) == Seq::<int>::empty());
        None
    }

    /// Everything that the lookup has yet to yield, in order.
    pub fn collect(self) -> (payloads: Vec<NativeParser<'a>>)
        ensures
            spec_offsets(payloads@) == self.remaining(),
            forall|i: int|
                0 <= i < payloads@.len() ==> (#[trigger] payloads@[i]).reader == self.parser.reader,
    {
        let mut it = self;
        let mut payloads: Vec<NativeParser<'a>> = Vec::new();
        assert(spec_offsets(payloads@) + it.remaining() =~= self.remaining());
        loop
            invariant
                it.parser.reader == self.parser.reader,
                spec_offsets(payloads@) + it.remaining() == self.remaining(),
                forall|i: int|
                    0 <= i < payloads@.len() ==> (#[trigger] payloads@[i]).reader
                        == self.parser.reader,
            decreases it.remaining().len(),
        {
            let ghost before = it.remaining();
            let ghost collected = spec_offsets(payloads@);
            match it.next() {
                Some(payload) => {
                    payloads.push(payload);
                    assert(spec_offsets(payloads@) =~= collected + seq![payload.offset as int]);
                    assert(spec_offsets(payloads@) + it.remaining() =~= collected + before);
                },
                None => {
                    assert(spec_offsets(payloads@) =~= self.remaining());
                    return payloads;
                },
            }
        }
    }
}

/// An entry that can be decoded ends behind where it starts.
pub(crate) proof fn lemma_entry_advances(data: Seq<u8>, offset: int)
    ensures
        spec_entry_at(data, offset) matches Some((_, next)) ==> offset + 2 <= next <= data.len(),
{
}

// ---------------------------------------------------------------------------
// Full enumeration
// ---------------------------------------------------------------------------

/// The state of a full enumeration: the table, a cursor inside the current
/// bucket, the number of that bucket, and the offset at which it ends. Of
/// the cursor only the offset counts: what is read is the blob of the table.
pub struct NativeHashtableAllEntries<'a> {
    pub table: NativeHashtable<'a>,
    pub parser: NativeParser<'a>,
    pub current_bucket: u32,
    pub end_offset: usize,
}

impl<'a> NativeHashtableAllEntries<'a> {
    pub fn new(table: NativeHashtable<'a>) -> (r: Result<Self, AotError>)
        ensures
            match table.bounds(0) {
                Some((start, end)) => r is Ok && r->Ok_0.table == table && r->Ok_0.parser.reader
                    == table.spec_reader() && r->Ok_0.parser.offset == start
                    && r->Ok_0.current_bucket == 0 && r->Ok_0.end_offset == end,
                None => r is Err && r->Err_0 == AotError::BadImage,
            },
    {
        let mut end_offset: usize = 0;
        match table.get_parser_for_bucket(0, &mut end_offset) {
            Ok(parser) => Ok(Self { table, parser, current_bucket: 0, end_offset }),
            Err(e) => Err(e),
        }
    }

    /// What the enumeration has yet to yield.
    pub open spec fn remaining(&self) -> Seq<int> {
        spec_all_seq(
            self.table.data(),
            self.table.base(),
            self.table.index_size(),
            self.table.mask(),
            self.current_bucket as int,
            self.parser.offset as int,
            self.end_offset as int,
        )
    }

    /// The next entry, as a parser at its payload, whatever its low hash
    /// byte. Behind the last entry of a bucket the enumeration goes on in
    /// the next bucket. An enumeration that has yielded nothing once yields
    /// nothing from then on.
    pub fn next(&mut self) -> (r: Option<NativeParser<'a>>)
        ensures
            final(self).table == old(self).table,
            match spec_all_step(
                old(self).table.data(),
                old(self).table.base(),
                old(self).table.index_size(),
                old(self).table.mask(),
                old(self).current_bucket as int,
                old(self).parser.offset as int,
                old(self).end_offset as int,
            ) {
                Some((payload, bucket, next, end)) => r is Some
                    && r->Some_0.reader == old(self).table.spec_reader()
                    && r->Some_0.offset == payload && final(self).current_bucket
                    == bucket && final(self).parser.offset == next && final(self).end_offset == end
                    && old(self).remaining() == seq![payload] + final(self).remaining(),
                None => r is None && old(self).remaining() == Seq::<int>::empty()
                    && final(self).remaining() == Seq::<int>::empty(),
            },
    {
        reveal(spec_all_seq);
        let ghost data = self.table.data();
        let ghost base = self.table.base();
        let ghost index_size = self.table.index_size();
        let ghost mask = self.table.mask();
        let ghost step = spec_all_step(
            data,
            base,
            index_size,
            mask,
            self.current_bucket as int,
            self.parser.offset as int,
            self.end_offset as int,
        );
        let ghost rest = self.remaining();
        loop
            invariant
                self.table == old(self).table,
                data == self.table.data(),
                base == self.table.base(),
                index_size == self.table.index_size(),
                mask == self.table.mask(),
                rest == old(self).remaining(),
                spec_all_step(
                    data,
                    base,
                    index_size,
                    mask,
                    self.current_bucket as int,
                    self.parser.offset as int,
                    self.end_offset as int,
                ) == step,
                step == spec_all_step(
                    data,
                    base,
                    index_size,
                    mask,
                    old(self).current_bucket as int,
                    old(self).parser.offset as int,
                    old(self).end_offset as int,
                ),
                self.remaining() == rest,
            decreases mask - self.current_bucket,
        {
            reveal(spec_all_seq);
            if self.parser.offset < self.end_offset {
                let ghost here = self.parser.offset as int;
                let mut cursor = NativeParser::new(self.table.reader(), self.parser.offset);
                match cursor.get_u8() {
                    Ok(_) => {},
                    Err(_) => {
                        return None;
                    },
                }
                match cursor.get_parser_from_rel_offset() {
                    Ok(payload) => {
                        proof {
                            lemma_entry_advances(data, here);
                        }
                        self.parser = cursor;
                        return Some(payload);
                    },
                    Err(_) => {
                        return None;
                    },
                }
            }
            let mask_value: u32 = self.table.bucket_mask();
            if self.current_bucket >= mask_value {
                return None;
            }
            let mut end_offset: usize = self.end_offset;
            match self.table.get_parser_for_bucket(self.current_bucket + 1, &mut end_offset) {
                Ok(parser) => {
                    self.current_bucket = self.current_bucket + 1;
                    self.parser = parser;
                    self.end_offset = end_offset;
                },
                Err(_) => {
                    return None;
                },
            }
        }
    }

    /// Everything that the enumeration has yet to yield, in order.
    pub fn collect(self) -> (payloads: Vec<NativeParser<'a>>)
        ensures
            spec_offsets(payloads@) == self.remaining(),
            forall|i: int|
                0 <= i < payloads@.len() ==> (#[trigger] payloads@[i]).reader
                    == self.table.spec_reader(),
    {
        let mut it = self;
        let mut payloads: Vec<NativeParser<'a>> = Vec::new();
        assert(spec_offsets(payloads@) + it.remaining() =~= self.remaining());
        loop
            invariant
                it.table == self.table,
                spec_offsets(payloads@) + it.remaining() == self.remaining(),
                forall|i: int|
                    0 <= i < payloads@.len() ==> (#[trigger] payloads@[i]).reader
                        == self.table.spec_reader(),
            decreases it.remaining().len(),
        {
            let ghost before = it.remaining();
            let ghost collected = spec_offsets(payloads@);
            match it.next() {
                Some(payload) => {
                    payloads.push(payload);
                    assert(spec_offsets(payloads@) =~= collected + seq![payload.offset as int]);
                    assert(spec_offsets(payloads@) + it.remaining() =~= collected + before);
                },
                None => {
                    assert(spec_offsets(payloads@) =~= self.remaining());
                    return payloads;
                },
            }
        }
    }
}

// ---------------------------------------------------------------------------
// What holds of lookups and enumerations
// ---------------------------------------------------------------------------

/// What a lookup makes of decoded entries: the payloads of those whose low
/// hash byte is `target`, up to the first entry whose low hash byte is
/// greater.
pub open spec fn spec_select(entries: Seq<(u8, int)>, target: u8) -> Seq<int>
    decreases entries.len(),
{
    if entries.len() == 0 {
        Seq::empty()
    } else if entries[0].0 == target {
        seq![entries[0].1] + spec_select(entries.drop_first(), target)
    } else if entries[0].0 > target {
        Seq::empty()
    } else {
        spec_select(entries.drop_first(), target)
    }
}

/// In a bucket whose entries can all be decoded, a lookup yields what
/// `spec_select` makes of the entries.
pub proof fn lemma_lookup_follows_entries(data: Seq<u8>, offset: int, end: int, target: u8)
    requires
        spec_bucket_parses(data, offset, end),
    ensures
        spec_lookup_seq(data, offset, end, target) == spec_select(
            spec_bucket_entries(data, offset, end),
            target,
        ),
    decreases spec_left(offset, end),
{
    reveal(spec_lookup_seq);
    if offset < end {
        let (entry, next) = spec_entry_at(data, offset)->Some_0;
        let rest = spec_bucket_entries(data, next, end);
        let entries = spec_bucket_entries(data, offset, end);
        assert(entries == seq![entry] + rest);
        assert(entries.drop_first() =~= rest);
        assert(entries[0] == entry);
        lemma_lookup_follows_entries(data, next, end, target);
        assert(spec_skip_integer(data, offset + 1) == Some(next));
    }
}

/// Among entries whose low hash bytes ascend, those behind an entry with a
/// greater low hash byte than `target` hold no match.
proof fn lemma_no_match_behind_greater(entries: Seq<(u8, int)>, target: u8)
    requires
        spec_sorted(entries),
        entries.len() > 0 ==> entries[0].0 > target,
    ensures
        spec_matching(entries, target) == Seq::<int>::empty(),
    decreases entries.len(),
{
    if entries.len() > 0 {
        let rest = entries.drop_first();
        assert forall|i: int, j: int| 0 <= i <= j < rest.len() implies rest[i].0 <= rest[j].0 by {
            assert(rest[i] == entries[i + 1] && rest[j] == entries[j + 1]);
        }
        if rest.len() > 0 {
            assert(rest[0] == entries[1]);
            assert(entries[0].0 <= entries[1].0);
        }
        lemma_no_match_behind_greater(rest, target);
    }
}

/// Among entries whose low hash bytes ascend, a lookup yields the payload of
/// every entry whose low hash byte is `target`, in the order of the entries.
pub proof fn lemma_sorted_select_yields_every_match(entries: Seq<(u8, int)>, target: u8)
    requires
        spec_sorted(entries),
    ensures
        spec_select(entries, target) == spec_matching(entries, target),
    decreases entries.len(),
{
    if entries.len() > 0 {
        let rest = entries.drop_first();
        assert forall|i: int, j: int| 0 <= i <= j < rest.len() implies rest[i].0 <= rest[j].0 by {
            assert(rest[i] == entries[i + 1] && rest[j] == entries[j + 1]);
        }
        if entries[0].0 > target {
            lemma_no_match_behind_greater(entries, target);
        } else {
            lemma_sorted_select_yields_every_match(rest, target);
        }
    }
}

/// In a bucket whose entries can all be decoded and whose low hash bytes
/// ascend, a lookup yields the payload of every entry whose low hash byte is
/// `target`, in file order.
pub proof fn lemma_lookup_yields_every_match(data: Seq<u8>, offset: int, end: int, target: u8)
    requires
        spec_bucket_parses(data, offset, end),
        spec_sorted(spec_bucket_entries(data, offset, end)),
    ensures
        spec_lookup_seq(data, offset, end, target) == spec_matching(
            spec_bucket_entries(data, offset, end),
            target,
        ),
{
    lemma_lookup_follows_entries(data, offset, end, target);
    lemma_sorted_select_yields_every_match(spec_bucket_entries(data, offset, end), target);
}

/// A lookup does not go behind an entry whose low hash byte is greater than
/// `target`: what it yields is what it yields of the entries before that
/// one.
pub proof fn lemma_select_stops_at_greater(entries: Seq<(u8, int)>, target: u8, at: int)
    requires
        0 <= at < entries.len(),
        entries[at].0 > target,
    ensures
        spec_select(entries, target) == spec_select(entries.take(at), target),
    decreases at,
{
    if at == 0 {
        assert(entries.take(0).len() == 0);
    } else {
        let rest = entries.drop_first();
        assert(rest[at - 1] == entries[at]);
        lemma_select_stops_at_greater(rest, target, at - 1);
        assert(entries.take(at).drop_first() =~= rest.take(at - 1));
        assert(entries.take(at)[0] == entries[0]);
    }
}

/// A lookup that stands at a low hash byte greater than `target` ends there:
/// it yields nothing, whatever bytes follow that one.
pub proof fn lemma_lookup_stops_at_greater(
    data: Seq<u8>,
    other: Seq<u8>,
    offset: int,
    end: int,
    target: u8,
)
    requires
        0 <= offset < end,
        offset < data.len(),
        data[offset] > target,
        offset < other.len(),
        other.subrange(0, offset + 1) == data.subrange(0, offset + 1),
    ensures
        spec_lookup_step(data, offset, end, target) is None,
        spec_lookup_seq(data, offset, end, target) == Seq::<int>::empty(),
        spec_lookup_seq(other, offset, end, target) == Seq::<int>::empty(),
{
    reveal(spec_lookup_seq);
    assert(other[offset] == other.subrange(0, offset + 1)[offset]);
    assert(data[offset] == data.subrange(0, offset + 1)[offset]);
}

/// The payloads of entries laid end to end are the payloads of the first
/// followed by those of the second.
proof fn lemma_payloads_concat(first: Seq<(u8, int)>, second: Seq<(u8, int)>)
    ensures
        spec_payloads(first + second) == spec_payloads(first) + spec_payloads(second),
{
    assert(spec_payloads(first + second) =~= spec_payloads(first) + spec_payloads(second));
}

/// Where the current bucket and all behind it can be decoded, a full
/// enumeration yields the payloads of the rest of the current bucket and
/// then those of the buckets behind it.
pub(crate) proof fn lemma_enumeration_follows_entries(
    data: Seq<u8>,
    base: int,
    index_size: int,
    mask: int,
    bucket: int,
    offset: int,
    end: int,
)
    requires
        0 <= bucket <= mask,
        spec_bucket_parses(data, offset, end),
        spec_table_parses(data, base, index_size, mask, bucket + 1),
    ensures
        spec_all_seq(data, base, index_size, mask, bucket, offset, end) == spec_payloads(
            spec_bucket_entries(data, offset, end) + spec_table_entries(
                data,
                base,
                index_size,
                mask,
                bucket + 1,
            ),
        ),
    decreases mask - bucket, spec_left(offset, end),
{
    reveal(spec_all_seq);
    let behind = spec_table_entries(data, base, index_size, mask, bucket + 1);
    if offset < end {
        let (entry, next) = spec_entry_at(data, offset)->Some_0;
        let rest = spec_bucket_entries(data, next, end);
        lemma_enumeration_follows_entries(data, base, index_size, mask, bucket, next, end);
        lemma_payloads_concat(seq![entry], rest + behind);
        assert(seq![entry] + (rest + behind) =~= (seq![entry] + rest) + behind);
        assert(spec_payloads(seq![entry]) =~= seq![entry.1]);
    } else if bucket >= mask {
        assert(spec_bucket_entries(data, offset, end) + behind =~= Seq::<(u8, int)>::empty());
        assert(spec_payloads(Seq::<(u8, int)>::empty()) =~= Seq::<int>::empty());
    } else {
        let (start, new_end) = spec_bucket_bounds(data, base, index_size, bucket + 1)->Some_0;
        lemma_enumeration_follows_entries(data, base, index_size, mask, bucket + 1, start, new_end);
        assert(spec_bucket_entries(data, offset, end) + behind =~= behind);
    }
}

/// In a table whose buckets can all be located and decoded, a full
/// enumeration from the first bucket yields the payload of every entry of
/// the table: bucket after bucket, each in file order, and so, as a
/// multiset, exactly the payloads of the table.
pub proof fn lemma_enumerate_all_yields_every_payload(
    data: Seq<u8>,
    base: int,
    index_size: int,
    mask: int,
)
    requires
        0 <= mask,
        spec_table_parses(data, base, index_size, mask, 0),
    ensures
        spec_bucket_bounds(data, base, index_size, 0) matches Some((start, end)) && {
            let yielded = spec_all_seq(data, base, index_size, mask, 0, start, end);
            let payloads = spec_payloads(spec_table_entries(data, base, index_size, mask, 0));
            yielded == payloads && yielded.to_multiset() == payloads.to_multiset()
        },
{
    let (start, end) = spec_bucket_bounds(data, base, index_size, 0)->Some_0;
    lemma_enumeration_follows_entries(data, base, index_size, mask, 0, start, end);
}

} // verus!
