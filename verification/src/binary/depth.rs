use vstd::prelude::*;

use crate::binary::headers::mt::{spec_parse_method_table, MethodTableView};
use crate::binary::laws::{
    lemma_attach_sound, lemma_obtain_sound, lemma_root_looks_like_root, lemma_visit_sound,
    spec_keeps_addresses, spec_read_from, spec_sound,
};
use crate::binary::scan::{
    spec_agenda, spec_attach, spec_base_of, spec_crawl, spec_known, spec_linked_table,
    spec_obtain, spec_position, spec_round, spec_scan, spec_visit, spec_window,
};
use crate::binary::spec_find_root;
use crate::pe::PeImage;

verus! {

// ---------------------------------------------------------------------------
// Rounds and chains
// ---------------------------------------------------------------------------

/// The number of productive rounds of a crawl: those that leave fewer
/// candidates waiting than they were given.
pub open spec fn spec_productive_rounds(
    pe: &PeImage,
    min: u32,
    max: u64,
    tables: Seq<MethodTableView>,
    agenda: Seq<u32>,
) -> nat
    decreases agenda.len(),
{
    let (next, unmatched) = spec_round(pe, min, max, tables, Seq::empty(), agenda, 0);
    if unmatched.len() >= agenda.len() {
        0
    } else {
        1 + spec_productive_rounds(pe, min, max, next, unmatched)
    }
}

/// Whether the table at `child` derives from the one at `parent`: its field
/// for the related type points there.
pub open spec fn spec_derives(pe: &PeImage, child: u64, parent: u64) -> bool {
    spec_parse_method_table(pe, child) matches Ok(table) && table.related_type_address == parent
}

/// Whether the table at `table` names the one at `interface` as an
/// interface.
pub open spec fn spec_names(pe: &PeImage, table: u64, interface: u64) -> bool {
    spec_parse_method_table(pe, table) matches Ok(read) && exists|k: int|
        0 <= k < read.iface_addresses.len() && #[trigger] read.iface_addresses[k] == interface
}

/// Whether a step leads from the table at `from` to the one at `to`: both
/// are among `tables`, and the second derives from the first or is an
/// interface that the first names.
pub open spec fn spec_step(pe: &PeImage, tables: Seq<MethodTableView>, from: u64, to: u64) -> bool {
    &&& spec_known(tables, from)
    &&& spec_known(tables, to)
    &&& (spec_derives(pe, to, from) || spec_names(pe, from, to))
}

/// Whether `chain` is a chain of tables of `tables`: from each a step leads
/// to the next.
#[verifier::opaque]
pub open spec fn spec_chain(pe: &PeImage, tables: Seq<MethodTableView>, chain: Seq<u64>) -> bool {
    &&& chain.len() >= 1
    &&& spec_known(tables, chain[0])
    &&& forall|i: int|
        0 <= i < chain.len() - 1 ==> spec_step(pe, tables, #[trigger] chain[i], chain[i + 1])
}

/// Whether a chain of at least `steps` steps leads from a table of `start`
/// to the table at `va`.
#[verifier::opaque]
pub open spec fn spec_reaches(
    pe: &PeImage,
    start: Seq<MethodTableView>,
    tables: Seq<MethodTableView>,
    va: u64,
    steps: nat,
) -> bool {
    exists|chain: Seq<u64>| #[trigger]
        spec_chain(pe, tables, chain) && chain.len() >= steps + 1 && spec_known(start, chain[0])
            && chain.last() == va
}

/// Whether `tables` holds a chain of at least `length` tables that starts
/// with a table of `start`.
#[verifier::opaque]
pub open spec fn spec_deep(
    pe: &PeImage,
    start: Seq<MethodTableView>,
    tables: Seq<MethodTableView>,
    length: nat,
) -> bool {
    exists|chain: Seq<u64>| #[trigger]
        spec_chain(pe, tables, chain) && chain.len() >= length && spec_known(start, chain[0])
}

/// How many steps lie at least between the tables of the start and the
/// table at `va` in the round with the number `round`: as many as the
/// number of the round in which it was found.
pub open spec fn spec_level(
    before_last: Seq<MethodTableView>,
    last: Seq<MethodTableView>,
    va: u64,
    round: nat,
) -> nat {
    if !spec_known(last, va) {
        round
    } else if !spec_known(before_last, va) {
        (round - 1) as nat
    } else {
        0
    }
}

/// Whether every table of `tables` is reached by a chain as long as the
/// round in which it was found: `last` are the tables at the start of the
/// round with the number `round`, `before_last` those at the start of the
/// round before.
#[verifier::opaque]
pub open spec fn spec_ranked(
    pe: &PeImage,
    start: Seq<MethodTableView>,
    before_last: Seq<MethodTableView>,
    last: Seq<MethodTableView>,
    tables: Seq<MethodTableView>,
    round: nat,
) -> bool {
    forall|va: u64| #[trigger]
        spec_known(tables, va) ==> spec_reaches(
            pe,
            start,
            tables,
            va,
            spec_level(before_last, last, va, round),
        )
}

/// Whether the candidate `ptr` waits for a table that `tables` does not
/// hold.
pub open spec fn spec_waits_for_unknown(
    pe: &PeImage,
    min: u32,
    max: u64,
    tables: Seq<MethodTableView>,
    ptr: u32,
) -> bool {
    spec_base_of(pe, min, max, ptr) matches Some((_, base)) && !spec_known(tables, base)
}

/// Whether every one of `candidates` waits for a table that `tables` does
/// not hold.
#[verifier::opaque]
pub open spec fn spec_all_wait(
    pe: &PeImage,
    min: u32,
    max: u64,
    tables: Seq<MethodTableView>,
    candidates: Seq<u32>,
) -> bool {
    forall|j: int|
        0 <= j < candidates.len() ==> spec_waits_for_unknown(
            pe,
            min,
            max,
            tables,
            #[trigger] candidates[j],
        )
}

/// Whether `tables` is sound.
#[verifier::opaque]
pub open spec fn spec_fine(pe: &PeImage, tables: Seq<MethodTableView>) -> bool {
    spec_sound(pe, tables)
}

// ---------------------------------------------------------------------------
// Chains
// ---------------------------------------------------------------------------

pub(crate) proof fn lemma_known_stays(before: Seq<MethodTableView>, after: Seq<MethodTableView>, va: u64)
    requires
        spec_keeps_addresses(before, after),
        spec_known(before, va),
    ensures
        spec_known(after, va),
{
    let i = spec_position(before, va);
    assert(before[i].va == va);
    assert(after[i].va == va);
}

proof fn lemma_keeps_transitive(
    first: Seq<MethodTableView>,
    second: Seq<MethodTableView>,
    third: Seq<MethodTableView>,
)
    requires
        spec_keeps_addresses(first, second),
        spec_keeps_addresses(second, third),
    ensures
        spec_keeps_addresses(first, third),
{
    assert forall|i: int| 0 <= i < first.len() implies (#[trigger] third[i]).va == first[i].va by {
        assert(second[i].va == first[i].va);
    }
}

proof fn lemma_chain_stays(
    pe: &PeImage,
    before: Seq<MethodTableView>,
    after: Seq<MethodTableView>,
    chain: Seq<u64>,
)
    requires
        spec_keeps_addresses(before, after),
        spec_chain(pe, before, chain),
    ensures
        spec_chain(pe, after, chain),
{
    reveal(spec_chain);
    lemma_known_stays(before, after, chain[0]);
    assert forall|i: int| 0 <= i < chain.len() - 1 implies spec_step(
        pe,
        after,
        #[trigger] chain[i],
        chain[i + 1],
    ) by {
        assert(spec_step(pe, before, chain[i], chain[i + 1]));
        lemma_known_stays(before, after, chain[i]);
        lemma_known_stays(before, after, chain[i + 1]);
    }
}

proof fn lemma_reaches_stays(
    pe: &PeImage,
    start: Seq<MethodTableView>,
    before: Seq<MethodTableView>,
    after: Seq<MethodTableView>,
    va: u64,
    steps: nat,
    fewer: nat,
)
    requires
        spec_keeps_addresses(before, after),
        spec_reaches(pe, start, before, va, steps),
        fewer <= steps,
    ensures
        spec_reaches(pe, start, after, va, fewer),
{
    reveal(spec_reaches);
    let chain = choose|chain: Seq<u64>| #[trigger]
        spec_chain(pe, before, chain) && chain.len() >= steps + 1 && spec_known(start, chain[0])
            && chain.last() == va;
    lemma_chain_stays(pe, before, after, chain);
}

proof fn lemma_deep_stays(
    pe: &PeImage,
    start: Seq<MethodTableView>,
    before: Seq<MethodTableView>,
    after: Seq<MethodTableView>,
    length: nat,
)
    requires
        spec_keeps_addresses(before, after),
        spec_deep(pe, start, before, length),
    ensures
        spec_deep(pe, start, after, length),
{
    reveal(spec_deep);
    let chain = choose|chain: Seq<u64>| #[trigger]
        spec_chain(pe, before, chain) && chain.len() >= length && spec_known(start, chain[0]);
    lemma_chain_stays(pe, before, after, chain);
}

proof fn lemma_reaches_is_deep(
    pe: &PeImage,
    start: Seq<MethodTableView>,
    tables: Seq<MethodTableView>,
    va: u64,
    steps: nat,
)
    requires
        spec_reaches(pe, start, tables, va, steps),
    ensures
        spec_deep(pe, start, tables, steps + 1),
{
    reveal(spec_reaches);
    reveal(spec_deep);
    let chain = choose|chain: Seq<u64>| #[trigger]
        spec_chain(pe, tables, chain) && chain.len() >= steps + 1 && spec_known(start, chain[0])
            && chain.last() == va;
    assert(spec_chain(pe, tables, chain));
}

proof fn lemma_reaches_further(
    pe: &PeImage,
    start: Seq<MethodTableView>,
    tables: Seq<MethodTableView>,
    from: u64,
    to: u64,
    steps: nat,
)
    requires
        spec_reaches(pe, start, tables, from, steps),
        spec_step(pe, tables, from, to),
    ensures
        spec_reaches(pe, start, tables, to, steps + 1),
{
    reveal(spec_reaches);
    reveal(spec_chain);
    let chain = choose|chain: Seq<u64>| #[trigger]
        spec_chain(pe, tables, chain) && chain.len() >= steps + 1 && spec_known(start, chain[0])
            && chain.last() == from;
    let longer = chain.push(to);
    assert(longer[0] == chain[0]);
    assert forall|i: int| 0 <= i < longer.len() - 1 implies spec_step(
        pe,
        tables,
        #[trigger] longer[i],
        longer[i + 1],
    ) by {
        if i < chain.len() - 1 {
            assert(longer[i] == chain[i] && longer[i + 1] == chain[i + 1]);
            assert(spec_step(pe, tables, chain[i], chain[i + 1]));
        } else {
            assert(longer[i] == from && longer[i + 1] == to);
        }
    }
    assert(spec_chain(pe, tables, longer));
    assert(longer.last() == to);
}

proof fn lemma_start_reaches_itself(
    pe: &PeImage,
    start: Seq<MethodTableView>,
    tables: Seq<MethodTableView>,
    va: u64,
)
    requires
        spec_known(start, va),
        spec_known(tables, va),
    ensures
        spec_reaches(pe, start, tables, va, 0),
{
    reveal(spec_reaches);
    reveal(spec_chain);
    let chain = seq![va];
    assert(chain[0] == va);
    assert(spec_chain(pe, tables, chain));
    assert(chain.last() == va);
}

// ---------------------------------------------------------------------------
// What a visit adds
// ---------------------------------------------------------------------------

/// What obtaining a table adds is the table at the address asked for.
pub(crate) proof fn lemma_obtain_adds(pe: &PeImage, tables: Seq<MethodTableView>, va: u64, other: u64)
    requires
        spec_known(spec_obtain(pe, tables, va).0, other),
    ensures
        spec_known(tables, other) || (other == va && spec_obtain(pe, tables, va).1),
{
    let after = spec_obtain(pe, tables, va).0;
    if !spec_known(tables, va) && spec_parse_method_table(pe, va) is Ok {
        let i = spec_position(after, other);
        assert(after[i].va == other);
        if i < tables.len() {
            assert(after[i] == tables[i]);
            assert(tables[i].va == other);
        }
    }
}

/// What attaching interface tables adds are tables at the addresses given.
pub(crate) proof fn lemma_attach_adds(
    pe: &PeImage,
    tables: Seq<MethodTableView>,
    addresses: Seq<u64>,
    from: int,
    found: Seq<u64>,
    other: u64,
)
    requires
        spec_known(spec_attach(pe, tables, addresses, from, found).0, other),
    ensures
        spec_known(tables, other) || exists|k: int|
            0 <= k < addresses.len() && #[trigger] addresses[k] == other,
    decreases addresses.len() - from,
{
    if 0 <= from < addresses.len() {
        if addresses[from] == 0 {
            lemma_attach_adds(pe, tables, addresses, from + 1, found, other);
        } else {
            let (next, there) = spec_obtain(pe, tables, addresses[from]);
            let more = if there {
                found.push(addresses[from])
            } else {
                found
            };
            lemma_attach_adds(pe, next, addresses, from + 1, more, other);
            if spec_known(next, other) {
                lemma_obtain_adds(pe, tables, addresses[from], other);
                if !spec_known(tables, other) {
                    assert(addresses[from] == other);
                }
            }
        }
    }
}

/// The candidate whose related table is known is read as a table that
/// derives from it.
proof fn lemma_base_is_derived_from(pe: &PeImage, min: u32, max: u64, ptr: u32)
    ensures
        spec_base_of(pe, min, max, ptr) matches Some((va, base)) ==> (spec_parse_method_table(
            pe,
            va,
        ) is Ok ==> spec_derives(pe, va, base)),
{
}

/// What a visit makes of the tables, told without the tables themselves:
/// which addresses it adds and how they hang on the candidate.
proof fn lemma_visit_shape(pe: &PeImage, min: u32, max: u64, tables: Seq<MethodTableView>, ptr: u32)
    requires
        spec_sound(pe, tables),
    ensures
        spec_keeps_addresses(tables, spec_visit(pe, min, max, tables, ptr).0),
        spec_sound(pe, spec_visit(pe, min, max, tables, ptr).0),
        spec_visit(pe, min, max, tables, ptr).1 == (spec_base_of(pe, min, max, ptr) matches Some(
            (_, base),
        ) && !spec_known(tables, base)),
        match spec_base_of(pe, min, max, ptr) {
            None => true,
            Some((va, base)) => spec_known(tables, base) ==> spec_known(
                spec_visit(pe, min, max, tables, ptr).0,
                base,
            ) && (spec_visit(pe, min, max, tables, ptr).0 == tables || (spec_known(
                spec_visit(pe, min, max, tables, ptr).0,
                va,
            ) && spec_derives(pe, va, base) && forall|other: u64| #[trigger]
                spec_known(spec_visit(pe, min, max, tables, ptr).0, other) ==> spec_known(
                    tables,
                    other,
                ) || other == va || spec_names(pe, va, other))),
        },
{
    let after = spec_visit(pe, min, max, tables, ptr).0;
    lemma_visit_sound(pe, min, max, tables, ptr);
    match spec_base_of(pe, min, max, ptr) {
        None => {},
        Some((va, base)) => {
            if spec_known(tables, base) {
                lemma_known_stays(tables, after, base);
                let (obtained, there) = spec_obtain(pe, tables, va);
                if there {
                    lemma_obtain_sound(pe, tables, va);
                    let at = spec_position(obtained, va);
                    assert(obtained[at].va == va);
                    assert(spec_read_from(pe, obtained[at]));
                    lemma_base_is_derived_from(pe, min, max, ptr);
                    let linked = obtained.update(at, spec_linked_table(obtained[at], base));
                    assert(spec_keeps_addresses(obtained, linked));
                    assert(linked[at].va == va);
                    let addresses = linked[at].iface_addresses;
                    let (attached, found) = spec_attach(pe, linked, addresses, 0, Seq::empty());
                    lemma_known_stays(tables, obtained, base);
                    lemma_known_stays(obtained, linked, va);
                    lemma_linked_stays_sound(pe, obtained, at, base);
                    lemma_attach_sound(pe, linked, addresses, 0, Seq::empty());
                    lemma_known_stays(linked, attached, va);
                    let to = spec_position(attached, base);
                    lemma_known_stays(obtained, linked, base);
                    lemma_known_stays(linked, attached, base);
                    assert(attached[to].va == base);
                    assert(spec_keeps_addresses(attached, after));
                    lemma_known_stays(attached, after, va);
                    assert forall|other: u64| #[trigger] spec_known(after, other) implies spec_known(
                        tables,
                        other,
                    ) || other == va || spec_names(pe, va, other) by {
                        lemma_after_holds_what_attached_holds(attached, after, other);
                        lemma_attach_adds(pe, linked, addresses, 0, Seq::empty(), other);
                        lemma_linked_holds_what_obtained_holds(obtained, linked, other);
                        if spec_known(obtained, other) {
                            lemma_obtain_adds(pe, tables, va, other);
                        } else {
                            let k = choose|k: int|
                                0 <= k < addresses.len() && #[trigger] addresses[k] == other;
                            assert(spec_names(pe, va, other));
                        }
                    }
                } else {
                    assert(after == tables);
                }
            }
        },
    }
}

/// What the ranks say of one table.
proof fn lemma_rank_of(
    pe: &PeImage,
    start: Seq<MethodTableView>,
    before_last: Seq<MethodTableView>,
    last: Seq<MethodTableView>,
    tables: Seq<MethodTableView>,
    round: nat,
    va: u64,
)
    requires
        spec_ranked(pe, start, before_last, last, tables, round),
        spec_known(tables, va),
    ensures
        spec_reaches(pe, start, tables, va, spec_level(before_last, last, va, round)),
{
    reveal(spec_ranked);
}

/// A visit keeps the ranks of the tables, and where it does not leave the
/// candidate waiting in a round behind the first, the tables hold a chain
/// as long as the number of the round.
proof fn lemma_visit_ranked(
    pe: &PeImage,
    min: u32,
    max: u64,
    start: Seq<MethodTableView>,
    before_last: Seq<MethodTableView>,
    last: Seq<MethodTableView>,
    tables: Seq<MethodTableView>,
    ptr: u32,
    round: nat,
)
    requires
        round >= 1,
        spec_sound(pe, tables),
        spec_keeps_addresses(start, before_last),
        spec_keeps_addresses(before_last, last),
        spec_keeps_addresses(last, tables),
        spec_ranked(pe, start, before_last, last, tables, round),
        round >= 2 ==> spec_waits_for_unknown(pe, min, max, before_last, ptr),
    ensures
        spec_ranked(pe, start, before_last, last, spec_visit(pe, min, max, tables, ptr).0, round),
        round >= 2 && !spec_visit(pe, min, max, tables, ptr).1 ==> spec_deep(
            pe,
            start,
            spec_visit(pe, min, max, tables, ptr).0,
            round,
        ),
        spec_visit(pe, min, max, tables, ptr).1 ==> spec_waits_for_unknown(
            pe,
            min,
            max,
            last,
            ptr,
        ),
{
    let after = spec_visit(pe, min, max, tables, ptr).0;
    lemma_visit_shape(pe, min, max, tables, ptr);
    let steps = (round - 1) as nat;
    match spec_base_of(pe, min, max, ptr) {
        None => {
            assert(after == tables);
        },
        Some((va, base)) => {
            if !spec_known(tables, base) {
                assert(after == tables);
                if spec_known(last, base) {
                    lemma_known_stays(last, tables, base);
                }
            } else {
                // the related table is reached by a chain of at least round - 1 steps
                lemma_rank_of(pe, start, before_last, last, tables, round, base);
                if round >= 2 && spec_known(before_last, base) {
                    assert(false);
                }
                lemma_reaches_stays(
                    pe,
                    start,
                    tables,
                    after,
                    base,
                    spec_level(before_last, last, base, round),
                    steps,
                );
                lemma_reaches_is_deep(pe, start, after, base, steps);
                if after != tables {
                    assert(spec_step(pe, after, base, va));
                    lemma_reaches_further(pe, start, after, base, va, steps);
                    assert forall|other: u64| #[trigger] spec_known(after, other) implies spec_reaches(
                        pe,
                        start,
                        after,
                        other,
                        spec_level(before_last, last, other, round),
                    ) by {
                        let level = spec_level(before_last, last, other, round);
                        if spec_known(tables, other) {
                            lemma_rank_of(pe, start, before_last, last, tables, round, other);
                            lemma_reaches_stays(pe, start, tables, after, other, level, level);
                        } else if other == va {
                            lemma_reaches_stays(pe, start, after, after, va, round, level);
                        } else {
                            assert(spec_step(pe, after, va, other));
                            lemma_reaches_further(pe, start, after, va, other, round);
                            lemma_reaches_stays(pe, start, after, after, other, round + 1, level);
                        }
                    }
                    assert(spec_ranked(pe, start, before_last, last, after, round)) by {
                        reveal(spec_ranked);
                    }
                }
            }
        },
    }
}

pub(crate) proof fn lemma_linked_stays_sound(
    pe: &PeImage,
    tables: Seq<MethodTableView>,
    at: int,
    base: u64,
)
    requires
        spec_sound(pe, tables),
        0 <= at < tables.len(),
        spec_known(tables, base),
        spec_parse_method_table(pe, tables[at].va) matches Ok(read) && read.related_type_address
            == base,
    ensures
        spec_sound(pe, tables.update(at, spec_linked_table(tables[at], base))),
{
    let after = tables.update(at, spec_linked_table(tables[at], base));
    assert(spec_keeps_addresses(tables, after));
    assert(spec_read_from(pe, tables[at]));
    assert forall|i: int, j: int| 0 <= i < j < after.len() implies (#[trigger] after[i]).va != (
    #[trigger] after[j]).va by {
        assert(after[i].va == tables[i].va && after[j].va == tables[j].va);
    }
    assert forall|i: int| 0 <= i < after.len() implies spec_read_from(pe, #[trigger] after[i]) by {
        assert(spec_read_from(pe, tables[i]));
    }
    assert forall|i: int| 0 <= i < after.len() implies crate::binary::laws::spec_links_known(
        after,
        #[trigger] after[i],
    ) by {
        assert(crate::binary::laws::spec_links_known(tables, tables[i]));
        if after[i].related_type is Some {
            lemma_known_stays(tables, after, after[i].related_type->Some_0);
        }
        assert forall|k: int| 0 <= k < after[i].interfaces.len() implies spec_known(
            after,
            #[trigger] after[i].interfaces[k],
        ) by {
            assert(after[i].interfaces[k] == tables[i].interfaces[k]);
            lemma_known_stays(tables, after, tables[i].interfaces[k]);
        }
    }
}

proof fn lemma_after_holds_what_attached_holds(
    attached: Seq<MethodTableView>,
    after: Seq<MethodTableView>,
    other: u64,
)
    requires
        after.len() == attached.len(),
        forall|i: int| 0 <= i < attached.len() ==> (#[trigger] after[i]).va == attached[i].va,
        spec_known(after, other),
    ensures
        spec_known(attached, other),
{
    let i = spec_position(after, other);
    assert(after[i].va == other);
    assert(attached[i].va == other);
}

proof fn lemma_linked_holds_what_obtained_holds(
    obtained: Seq<MethodTableView>,
    linked: Seq<MethodTableView>,
    other: u64,
)
    requires
        linked.len() == obtained.len(),
        forall|i: int| 0 <= i < obtained.len() ==> (#[trigger] linked[i]).va == obtained[i].va,
    ensures
        spec_known(linked, other) ==> spec_known(obtained, other),
{
    if spec_known(linked, other) {
        let i = spec_position(linked, other);
        assert(linked[i].va == other);
        assert(obtained[i].va == other);
    }
}

// ---------------------------------------------------------------------------
// Rounds
// ---------------------------------------------------------------------------

/// One more candidate that waits.
proof fn lemma_one_more_waits(
    pe: &PeImage,
    min: u32,
    max: u64,
    tables: Seq<MethodTableView>,
    candidates: Seq<u32>,
    ptr: u32,
)
    requires
        spec_all_wait(pe, min, max, tables, candidates),
        spec_waits_for_unknown(pe, min, max, tables, ptr),
    ensures
        spec_all_wait(pe, min, max, tables, candidates.push(ptr)),
{
    reveal(spec_all_wait);
    let more = candidates.push(ptr);
    assert forall|j: int| 0 <= j < more.len() implies spec_waits_for_unknown(
        pe,
        min,
        max,
        tables,
        #[trigger] more[j],
    ) by {
        if j < candidates.len() {
            assert(more[j] == candidates[j]);
        }
    }
}

/// What a visit in a round keeps and gives, with the tables taken as sound.
proof fn lemma_visit_in_round(
    pe: &PeImage,
    min: u32,
    max: u64,
    start: Seq<MethodTableView>,
    before_last: Seq<MethodTableView>,
    last: Seq<MethodTableView>,
    tables: Seq<MethodTableView>,
    agenda: Seq<u32>,
    from: int,
    round: nat,
)
    requires
        round >= 1,
        0 <= from < agenda.len(),
        spec_fine(pe, tables),
        spec_keeps_addresses(start, before_last),
        spec_keeps_addresses(before_last, last),
        spec_keeps_addresses(last, tables),
        spec_ranked(pe, start, before_last, last, tables, round),
        round >= 2 ==> spec_all_wait(pe, min, max, before_last, agenda),
    ensures
        spec_fine(pe, spec_visit(pe, min, max, tables, agenda[from]).0),
        spec_keeps_addresses(tables, spec_visit(pe, min, max, tables, agenda[from]).0),
        spec_keeps_addresses(last, spec_visit(pe, min, max, tables, agenda[from]).0),
        spec_ranked(
            pe,
            start,
            before_last,
            last,
            spec_visit(pe, min, max, tables, agenda[from]).0,
            round,
        ),
        round >= 2 && !spec_visit(pe, min, max, tables, agenda[from]).1 ==> spec_deep(
            pe,
            start,
            spec_visit(pe, min, max, tables, agenda[from]).0,
            round,
        ),
        spec_visit(pe, min, max, tables, agenda[from]).1 ==> spec_waits_for_unknown(
            pe,
            min,
            max,
            last,
            agenda[from],
        ),
{
    reveal(spec_fine);
    if round >= 2 {
        reveal(spec_all_wait);
    }
    let ptr = agenda[from];
    lemma_visit_sound(pe, min, max, tables, ptr);
    lemma_visit_ranked(pe, min, max, start, before_last, last, tables, ptr, round);
    lemma_keeps_transitive(last, tables, spec_visit(pe, min, max, tables, ptr).0);
}

/// A round keeps the ranks of the tables; the candidates it leaves waiting
/// wait for tables that were not known at its start; and where a round
/// behind the first leaves fewer waiting than it was given, the tables hold
/// a chain as long as the number of the round.
proof fn lemma_round_ranked(
    pe: &PeImage,
    min: u32,
    max: u64,
    start: Seq<MethodTableView>,
    before_last: Seq<MethodTableView>,
    last: Seq<MethodTableView>,
    tables: Seq<MethodTableView>,
    unmatched: Seq<u32>,
    agenda: Seq<u32>,
    from: int,
    round: nat,
)
    requires
        round >= 1,
        0 <= from,
        spec_fine(pe, tables),
        spec_keeps_addresses(start, before_last),
        spec_keeps_addresses(before_last, last),
        spec_keeps_addresses(last, tables),
        spec_ranked(pe, start, before_last, last, tables, round),
        round >= 2 ==> spec_all_wait(pe, min, max, before_last, agenda),
        spec_all_wait(pe, min, max, last, unmatched),
    ensures
        spec_fine(pe, spec_round(pe, min, max, tables, unmatched, agenda, from).0),
        spec_keeps_addresses(tables, spec_round(pe, min, max, tables, unmatched, agenda, from).0),
        spec_ranked(
            pe,
            start,
            before_last,
            last,
            spec_round(pe, min, max, tables, unmatched, agenda, from).0,
            round,
        ),
        unmatched.len() <= spec_round(pe, min, max, tables, unmatched, agenda, from).1.len(),
        from <= agenda.len() ==> spec_round(
            pe,
            min,
            max,
            tables,
            unmatched,
            agenda,
            from,
        ).1.len() - unmatched.len() <= agenda.len() - from,
        spec_all_wait(
            pe,
            min,
            max,
            last,
            spec_round(pe, min, max, tables, unmatched, agenda, from).1,
        ),
        (round >= 2 && from <= agenda.len() && spec_round(
            pe,
            min,
            max,
            tables,
            unmatched,
            agenda,
            from,
        ).1.len() - unmatched.len() < agenda.len() - from) ==> spec_deep(
            pe,
            start,
            spec_round(pe, min, max, tables, unmatched, agenda, from).0,
            round,
        ),
    decreases agenda.len() - from,
{
    if from < agenda.len() {
        let ptr = agenda[from];
        let (visited, waits) = spec_visit(pe, min, max, tables, ptr);
        lemma_visit_in_round(pe, min, max, start, before_last, last, tables, agenda, from, round);
        let kept = if waits {
            unmatched.push(ptr)
        } else {
            unmatched
        };
        if waits {
            lemma_one_more_waits(pe, min, max, last, unmatched, ptr);
        }
        lemma_round_ranked(
            pe,
            min,
            max,
            start,
            before_last,
            last,
            visited,
            kept,
            agenda,
            from + 1,
            round,
        );
        let next = spec_round(pe, min, max, visited, kept, agenda, from + 1).0;
        lemma_keeps_transitive(tables, visited, next);
        if round >= 2 && !waits {
            lemma_deep_stays(pe, start, visited, next, round);
        }
    } else {
        assert(spec_keeps_addresses(tables, tables));
    }
}

/// The ranks of the tables as the next round sees them.
proof fn lemma_ranks_for_the_next_round(
    pe: &PeImage,
    start: Seq<MethodTableView>,
    before_last: Seq<MethodTableView>,
    last: Seq<MethodTableView>,
    tables: Seq<MethodTableView>,
    round: nat,
)
    requires
        round >= 1,
        spec_keeps_addresses(before_last, last),
        spec_keeps_addresses(last, tables),
        spec_ranked(pe, start, before_last, last, tables, round),
    ensures
        spec_ranked(pe, start, last, tables, tables, round + 1),
{
    assert(spec_keeps_addresses(tables, tables));
    assert forall|va: u64| #[trigger] spec_known(tables, va) implies spec_reaches(
        pe,
        start,
        tables,
        va,
        spec_level(last, tables, va, round + 1),
    ) by {
        lemma_rank_of(pe, start, before_last, last, tables, round, va);
        lemma_reaches_stays(
            pe,
            start,
            tables,
            tables,
            va,
            spec_level(before_last, last, va, round),
            spec_level(last, tables, va, round + 1),
        );
    }
    assert(spec_ranked(pe, start, last, tables, tables, round + 1)) by {
        reveal(spec_ranked);
    }
}

/// A chain of one table: the first table of the start.
proof fn lemma_start_is_deep(
    pe: &PeImage,
    start: Seq<MethodTableView>,
    tables: Seq<MethodTableView>,
)
    requires
        start.len() >= 1,
        spec_keeps_addresses(start, tables),
    ensures
        spec_deep(pe, start, tables, 1),
{
    let first = start[0].va;
    assert(spec_known(start, first));
    lemma_known_stays(start, tables, first);
    lemma_start_reaches_itself(pe, start, tables, first);
    lemma_reaches_is_deep(pe, start, tables, first, 0);
}

/// A crawl keeps the addresses of its tables.
proof fn lemma_crawl_keeps(
    pe: &PeImage,
    min: u32,
    max: u64,
    tables: Seq<MethodTableView>,
    agenda: Seq<u32>,
)
    requires
        spec_fine(pe, tables),
    ensures
        spec_keeps_addresses(tables, spec_crawl(pe, min, max, tables, agenda)),
{
    reveal(spec_fine);
    crate::binary::laws::lemma_crawl_sound(pe, min, max, tables, agenda);
}

/// Where a crawl makes productive rounds, its tables hold a chain as long
/// as the number of the last productive round.
proof fn lemma_crawl_ranked(
    pe: &PeImage,
    min: u32,
    max: u64,
    start: Seq<MethodTableView>,
    before_last: Seq<MethodTableView>,
    tables: Seq<MethodTableView>,
    agenda: Seq<u32>,
    round: nat,
)
    requires
        round >= 1,
        start.len() >= 1,
        spec_fine(pe, tables),
        spec_keeps_addresses(start, before_last),
        spec_keeps_addresses(before_last, tables),
        spec_ranked(pe, start, before_last, tables, tables, round),
        round >= 2 ==> spec_all_wait(pe, min, max, before_last, agenda),
    ensures
        spec_productive_rounds(pe, min, max, tables, agenda) >= 1 ==> spec_deep(
            pe,
            start,
            spec_crawl(pe, min, max, tables, agenda),
            (round - 1 + spec_productive_rounds(pe, min, max, tables, agenda)) as nat,
        ),
    decreases agenda.len(),
{
    let next = spec_round(pe, min, max, tables, Seq::empty(), agenda, 0).0;
    let unmatched = spec_round(pe, min, max, tables, Seq::empty(), agenda, 0).1;
    assert(spec_keeps_addresses(tables, tables));
    assert(spec_all_wait(pe, min, max, tables, Seq::<u32>::empty())) by {
        reveal(spec_all_wait);
    }
    lemma_round_ranked(
        pe,
        min,
        max,
        start,
        before_last,
        tables,
        tables,
        Seq::empty(),
        agenda,
        0,
        round,
    );
    if unmatched.len() < agenda.len() {
        lemma_ranks_for_the_next_round(pe, start, before_last, tables, next, round);
        lemma_keeps_transitive(start, before_last, tables);
        lemma_crawl_ranked(pe, min, max, start, tables, next, unmatched, round + 1);
        let rest = spec_productive_rounds(pe, min, max, next, unmatched);
        let last_tables = spec_crawl(pe, min, max, next, unmatched);
        if rest == 0 {
            lemma_crawl_keeps(pe, min, max, next, unmatched);
            if round >= 2 {
                lemma_deep_stays(pe, start, next, last_tables, round);
            } else {
                lemma_keeps_transitive(start, tables, next);
                lemma_keeps_transitive(start, next, last_tables);
                lemma_start_is_deep(pe, start, last_tables);
            }
        }
    }
}

/// Where a crawl that starts with one sound table makes productive rounds,
/// its tables hold a chain as long as the number of those rounds.
proof fn lemma_crawl_from_one(
    pe: &PeImage,
    min: u32,
    max: u64,
    first: MethodTableView,
    agenda: Seq<u32>,
)
    requires
        spec_sound(pe, seq![first]),
    ensures
        spec_productive_rounds(pe, min, max, seq![first], agenda) >= 1 ==> spec_deep(
            pe,
            seq![first],
            spec_crawl(pe, min, max, seq![first], agenda),
            spec_productive_rounds(pe, min, max, seq![first], agenda),
        ),
{
    let start = seq![first];
    assert(spec_fine(pe, start)) by {
        reveal(spec_fine);
    }
    assert(spec_keeps_addresses(start, start));
    assert forall|va: u64| #[trigger] spec_known(start, va) implies spec_reaches(
        pe,
        start,
        start,
        va,
        spec_level(start, start, va, 1),
    ) by {
        lemma_start_reaches_itself(pe, start, start, va);
    }
    assert(spec_ranked(pe, start, start, start, start, 1)) by {
        reveal(spec_ranked);
    }
    lemma_crawl_ranked(pe, min, max, start, start, start, agenda, 1);
}

/// A chain that starts with a table of a start of one table starts with
/// that table.
proof fn lemma_deep_from_one(
    pe: &PeImage,
    first: MethodTableView,
    tables: Seq<MethodTableView>,
    length: nat,
)
    requires
        spec_deep(pe, seq![first], tables, length),
    ensures
        exists|chain: Seq<u64>| #[trigger]
            spec_chain(pe, tables, chain) && chain.len() >= length && chain[0] == first.va,
{
    reveal(spec_deep);
    let start = seq![first];
    let chain = choose|chain: Seq<u64>| #[trigger]
        spec_chain(pe, tables, chain) && chain.len() >= length && spec_known(start, chain[0]);
    let i = spec_position(start, chain[0]);
    assert(start[i].va == chain[0]);
    assert(start[i] == first);
    assert(spec_chain(pe, tables, chain) && chain.len() >= length && chain[0] == first.va);
}

/// A root alone is sound.
pub(crate) proof fn lemma_root_alone_is_sound(pe: &PeImage, root: MethodTableView)
    requires
        spec_parse_method_table(pe, root.va) == Ok::<
            MethodTableView,
            crate::binary::headers::mt::MethodTableError,
        >(root),
    ensures
        spec_sound(pe, seq![root]),
{
    let start = seq![root];
    assert(start[0] == root);
    assert(spec_read_from(pe, start[0]));
    assert forall|i: int| 0 <= i < start.len() implies crate::binary::laws::spec_links_known(
        start,
        #[trigger] start[i],
    ) by {
        assert(start[i] == root);
    }
    assert forall|i: int| 0 <= i < start.len() implies spec_read_from(pe, #[trigger] start[i]) by {
        assert(start[i] == root);
    }
}

/// The number of productive rounds of the scan of `pe`.
pub open spec fn spec_scan_rounds(pe: &PeImage) -> nat {
    match (spec_find_root(pe, 0), spec_window(pe, 0, u32::MAX, 0)) {
        (Ok(root), Some((min, max))) => spec_productive_rounds(
            pe,
            min,
            max,
            seq![root],
            spec_agenda(min, max),
        ),
        _ => 0,
    }
}

/// The productive rounds of a scan are at most one more than the hierarchy
/// under the root is deep: where the scan makes `r` productive rounds, its
/// tables hold a chain of at least `r` tables that starts with the root,
/// in which each table derives from the one before it or is an interface
/// that the one before it names.
pub proof fn lemma_rounds_bounded_by_depth(pe: &PeImage)
    ensures
        spec_scan(pe) matches Ok(tables) ==> (spec_scan_rounds(pe) >= 1 ==> exists|
            chain: Seq<u64>,
        | #[trigger]
            spec_chain(pe, tables, chain) && chain.len() >= spec_scan_rounds(pe) && chain[0]
                == spec_find_root(pe, 0)->Ok_0.va),
{
    if spec_scan(pe) is Ok && spec_scan_rounds(pe) >= 1 {
        let root = spec_find_root(pe, 0)->Ok_0;
        let (min, max) = spec_window(pe, 0, u32::MAX, 0)->Some_0;
        let tables = spec_crawl(pe, min, max, seq![root], spec_agenda(min, max));
        let rounds = spec_productive_rounds(pe, min, max, seq![root], spec_agenda(min, max));
        assert(spec_scan(pe)->Ok_0 == tables);
        assert(spec_scan_rounds(pe) == rounds);
        lemma_root_looks_like_root(pe, 0);
        lemma_root_alone_is_sound(pe, root);
        lemma_crawl_from_one(pe, min, max, root, spec_agenda(min, max));
        lemma_deep_from_one(pe, root, tables, rounds);
        let chain = choose|chain: Seq<u64>| #[trigger]
            spec_chain(pe, tables, chain) && chain.len() >= rounds && chain[0] == root.va;
        assert(spec_chain(pe, spec_scan(pe)->Ok_0, chain) && chain.len() >= spec_scan_rounds(pe)
            && chain[0] == spec_find_root(pe, 0)->Ok_0.va);
    }
}

/// Whether `chain` is a chain of base types among `tables`: each of its
/// tables derives from the one before it.
pub open spec fn spec_base_chain(pe: &PeImage, tables: Seq<MethodTableView>, chain: Seq<u64>)
    -> bool {
    &&& chain.len() >= 1
    &&& spec_known(tables, chain[0])
    &&& forall|i: int|
        0 <= i < chain.len() - 1 ==> spec_known(tables, #[trigger] chain[i]) && spec_known(
            tables,
            chain[i + 1],
        ) && spec_derives(pe, chain[i + 1], chain[i])
}

/// Whether none of `tables` names one of `tables` as an interface.
pub open spec fn spec_names_none(pe: &PeImage, tables: Seq<MethodTableView>) -> bool {
    forall|from: u64, to: u64|
        spec_known(tables, from) && spec_known(tables, to) ==> !#[trigger] spec_names(
            pe,
            from,
            to,
        )
}

/// Where a scan finds no interface table, its productive rounds are at
/// most one more than the chains of base types under the root are long:
/// where the scan makes `r` productive rounds, its tables hold a chain of
/// at least `r` tables that starts with the root, in which each table
/// derives from the one before it.
pub proof fn lemma_rounds_bounded_by_base_depth(pe: &PeImage)
    requires
        spec_scan(pe) is Ok,
        spec_names_none(pe, spec_scan(pe)->Ok_0),
    ensures
        spec_scan_rounds(pe) >= 1 ==> exists|chain: Seq<u64>| #[trigger]
            spec_base_chain(pe, spec_scan(pe)->Ok_0, chain) && chain.len() >= spec_scan_rounds(
                pe,
            ) && chain[0] == spec_find_root(pe, 0)->Ok_0.va,
{
    if spec_scan_rounds(pe) >= 1 {
        let tables = spec_scan(pe)->Ok_0;
        lemma_rounds_bounded_by_depth(pe);
        let chain = choose|chain: Seq<u64>| #[trigger]
            spec_chain(pe, tables, chain) && chain.len() >= spec_scan_rounds(pe) && chain[0]
                == spec_find_root(pe, 0)->Ok_0.va;
        reveal(spec_chain);
        assert forall|i: int| 0 <= i < chain.len() - 1 implies spec_known(
            tables,
            #[trigger] chain[i],
        ) && spec_known(tables, chain[i + 1]) && spec_derives(pe, chain[i + 1], chain[i]) by {
            assert(spec_step(pe, tables, chain[i], chain[i + 1]));
            assert(!spec_names(pe, chain[i], chain[i + 1]));
        }
        assert(spec_base_chain(pe, tables, chain));
    }
}

/// A crawl makes at most as many productive rounds as it was given
/// candidates.
proof fn lemma_rounds_within_agenda(
    pe: &PeImage,
    min: u32,
    max: u64,
    tables: Seq<MethodTableView>,
    agenda: Seq<u32>,
)
    ensures
        spec_productive_rounds(pe, min, max, tables, agenda) <= agenda.len(),
    decreases agenda.len(),
{
    let (next, unmatched) = spec_round(pe, min, max, tables, Seq::empty(), agenda, 0);
    if unmatched.len() < agenda.len() {
        lemma_rounds_within_agenda(pe, min, max, next, unmatched);
    }
}

/// A scan makes at most as many productive rounds as its window has
/// candidates: every round but the last leaves fewer candidates waiting
/// than it was given.
pub proof fn lemma_rounds_bounded_by_agenda(pe: &PeImage)
    ensures
        spec_window(pe, 0, u32::MAX, 0) matches Some((min, max)) ==> spec_scan_rounds(pe)
            <= spec_agenda(min, max).len(),
{
    match (spec_find_root(pe, 0), spec_window(pe, 0, u32::MAX, 0)) {
        (Ok(root), Some((min, max))) => {
            lemma_rounds_within_agenda(pe, min, max, seq![root], spec_agenda(min, max));
        },
        _ => {},
    }
}

} // verus!
