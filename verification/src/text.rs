use vstd::prelude::*;
use vstd::string::{StrSliceExecFns, StringExecFns};

verus! {

/// The texts of `strings`.
pub open spec fn spec_texts(strings: Seq<String>) -> Seq<Seq<char>> {
    Seq::new(strings.len(), |i: int| strings[i]@)
}

/// `parts` laid end to end with `separator` between each two.
pub open spec fn spec_join(parts: Seq<Seq<char>>, separator: Seq<char>) -> Seq<char>
    decreases parts.len(),
{
    if parts.len() == 0 {
        Seq::empty()
    } else if parts.len() == 1 {
        parts[0]
    } else {
        spec_join(parts.drop_last(), separator) + separator + parts.last()
    }
}

/// `parts` laid end to end from the last to the first with `separator`
/// between each two.
pub open spec fn spec_join_reversed(parts: Seq<Seq<char>>, separator: Seq<char>) -> Seq<char>
    decreases parts.len(),
{
    if parts.len() == 0 {
        Seq::empty()
    } else if parts.len() == 1 {
        parts[0]
    } else {
        spec_join_reversed(parts.drop_first(), separator) + separator + parts[0]
    }
}

/// The pieces of `text` from `start` on that lie between the occurrences of
/// `separator` at `at` and behind; the piece that is being gone through
/// started at `start`.
pub open spec fn spec_split_scan(text: Seq<char>, separator: char, start: int, at: int) -> Seq<
    Seq<char>,
>
    decreases text.len() - at,
{
    if at >= text.len() || at < start || start < 0 {
        seq![text.subrange(start, text.len() as int)]
    } else if text[at] == separator {
        seq![text.subrange(start, at)] + spec_split_scan(text, separator, at + 1, at + 1)
    } else {
        spec_split_scan(text, separator, start, at + 1)
    }
}

/// The pieces of `text` that lie between the occurrences of `separator`:
/// one more than there are occurrences.
pub open spec fn spec_split(text: Seq<char>, separator: char) -> Seq<Seq<char>> {
    spec_split_scan(text, separator, 0, 0)
}

/// `text` with every `from` replaced by `to`.
pub open spec fn spec_replace(text: Seq<char>, from: char, to: char) -> Seq<char> {
    Seq::new(
        text.len(),
        |i: int|
            if text[i] == from {
                to
            } else {
                text[i]
            },
    )
}

/// The digit that stands for `value`, which is below 16.
pub open spec fn spec_digit(value: int) -> char {
    "0123456789abcdef"@[value]
}

/// `value` in lower-case hexadecimal digits, without leading zeros.
pub open spec fn spec_hex(value: nat) -> Seq<char>
    decreases value,
{
    if value < 16 {
        seq![spec_digit(value as int)]
    } else {
        spec_hex(value / 16).push(spec_digit((value % 16) as int))
    }
}

/// `value` in decimal digits, without leading zeros.
pub open spec fn spec_decimal(value: nat) -> Seq<char>
    decreases value,
{
    if value < 10 {
        seq![spec_digit(value as int)]
    } else {
        spec_decimal(value / 10).push(spec_digit((value % 10) as int))
    }
}

/// `parts` laid end to end with `separator` between each two.
pub fn join(parts: &Vec<String>, separator: &str) -> (joined: String)
    ensures
        joined@ == spec_join(spec_texts(parts@), separator@),
{
    let mut joined = String::new();
    let mut i: usize = 0;
    while i < parts.len()
        invariant
            i <= parts@.len(),
            joined@ == spec_join(spec_texts(parts@).take(i as int), separator@),
        decreases parts@.len() - i,
    {
        let ghost before = spec_texts(parts@).take(i as int);
        let ghost after = spec_texts(parts@).take(i + 1);
        if i > 0 {
            joined.append(separator);
        }
        joined.append(parts[i].as_str());
        proof {
            assert(after.drop_last() =~= before);
            assert(after.last() == parts@[i as int]@);
            if i == 0 {
                assert(joined@ =~= parts@[0]@);
            }
        }
        i = i + 1;
    }
    assert(spec_texts(parts@).take(parts@.len() as int) =~= spec_texts(parts@));
    joined
}

/// `parts` laid end to end from the last to the first with `separator`
/// between each two.
pub fn join_reversed(parts: &Vec<String>, separator: &str) -> (joined: String)
    ensures
        joined@ == spec_join_reversed(spec_texts(parts@), separator@),
{
    let mut joined = String::new();
    let mut i: usize = parts.len();
    let ghost texts = spec_texts(parts@);
    assert(texts.skip(i as int) =~= Seq::<Seq<char>>::empty());
    while i > 0
        invariant
            i <= parts@.len(),
            texts == spec_texts(parts@),
            joined@ == spec_join_reversed(texts.skip(i as int), separator@),
        decreases i,
    {
        let ghost before = texts.skip(i as int);
        let ghost after = texts.skip(i - 1);
        if i < parts.len() {
            joined.append(separator);
        }
        joined.append(parts[i - 1].as_str());
        proof {
            assert(after.drop_first() =~= before);
            assert(after[0] == parts@[i - 1]@);
            if i == parts@.len() {
                assert(joined@ =~= parts@[i - 1]@);
            }
        }
        i = i - 1;
    }
    assert(texts.skip(0) =~= texts);
    joined
}

/// The pieces of `text` that lie between the occurrences of `separator`.
pub fn split(text: &str, separator: char) -> (pieces: Vec<String>)
    ensures
        spec_texts(pieces@) == spec_split(text@, separator),
        pieces@.len() >= 1,
{
    let len: usize = text.unicode_len();
    let mut pieces: Vec<String> = Vec::new();
    let mut start: usize = 0;
    let mut at: usize = 0;
    assert(spec_texts(pieces@) + spec_split_scan(text@, separator, 0, 0) =~= spec_split(
        text@,
        separator,
    ));
    while at < len
        invariant
            len == text@.len(),
            start <= at <= len,
            spec_texts(pieces@) + spec_split_scan(text@, separator, start as int, at as int)
                == spec_split(text@, separator),
        decreases len - at,
    {
        let ghost collected = spec_texts(pieces@);
        if text.get_char(at) == separator {
            let piece = String::from_str(text.substring_char(start, at));
            pieces.push(piece);
            assert(spec_texts(pieces@) =~= collected + seq![text@.subrange(start as int, at as int)]);
            assert(spec_texts(pieces@) + spec_split_scan(
                text@,
                separator,
                at as int + 1,
                at as int + 1,
            ) =~= collected + spec_split_scan(text@, separator, start as int, at as int));
            start = at + 1;
        }
        at = at + 1;
    }
    let ghost collected = spec_texts(pieces@);
    let piece = String::from_str(text.substring_char(start, len));
    pieces.push(piece);
    assert(spec_texts(pieces@) =~= collected + seq![text@.subrange(start as int, len as int)]);
    pieces
}

/// `text` with every `from` replaced by an underscore.
pub fn replace_with_underscore(text: &str, from: char) -> (replaced: String)
    ensures
        replaced@ == spec_replace(text@, from, '_'),
{
    let len: usize = text.unicode_len();
    let mut replaced = String::new();
    let mut at: usize = 0;
    proof {
        reveal_strlit("_");
    }
    while at < len
        invariant
            len == text@.len(),
            at <= len,
            "_"@ == seq!['_'],
            replaced@ == spec_replace(text@, from, '_').take(at as int),
        decreases len - at,
    {
        if text.get_char(at) == from {
            replaced.append("_");
        } else {
            replaced.append(text.substring_char(at, at + 1));
        }
        assert(replaced@ =~= spec_replace(text@, from, '_').take(at + 1));
        at = at + 1;
    }
    assert(replaced@ =~= spec_replace(text@, from, '_'));
    replaced
}

/// Appends to `text` the digit that stands for `value`.
fn push_digit(text: &mut String, value: u8)
    requires
        value < 16,
    ensures
        final(text)@ == old(text)@.push(spec_digit(value as int)),
{
    proof {
        reveal_strlit("0123456789abcdef");
    }
    let digits = "0123456789abcdef";
    let ghost before = text@;
    text.append(digits.substring_char(value as usize, value as usize + 1));
    assert(text@ =~= before.push(spec_digit(value as int)));
}

/// `value` in lower-case hexadecimal digits, without leading zeros.
pub fn to_hex(value: u64) -> (text: String)
    ensures
        text@ == spec_hex(value as nat),
    decreases value,
{
    if value < 16 {
        let mut text = String::new();
        push_digit(&mut text, value as u8);
        assert(text@ =~= spec_hex(value as nat));
        text
    } else {
        let mut text = to_hex(value / 16);
        push_digit(&mut text, (value % 16) as u8);
        text
    }
}

/// `value` in decimal digits, without leading zeros.
pub fn to_decimal(value: u64) -> (text: String)
    ensures
        text@ == spec_decimal(value as nat),
    decreases value,
{
    if value < 10 {
        let mut text = String::new();
        push_digit(&mut text, value as u8);
        assert(text@ =~= spec_decimal(value as nat));
        text
    } else {
        let mut text = to_decimal(value / 10);
        push_digit(&mut text, (value % 10) as u8);
        text
    }
}

} // verus!
