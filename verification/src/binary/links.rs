use vstd::prelude::*;

use crate::binary::depth::{lemma_known_stays, lemma_linked_stays_sound, spec_waits_for_unknown};
use crate::binary::headers::mt::{spec_parse_method_table, MethodTableView};
use crate::binary::interfaces::{
    lemma_attach_prefix, lemma_base_field, lemma_position_is_unique, lemma_position_kept,
    lemma_same_interfaces_named,
};
use crate::binary::laws::{
    lemma_obtain_sound, lemma_root_looks_like_root, lemma_visit_sound, spec_keeps_addresses,
    spec_links_known, spec_read_from, spec_sound,
};
use crate::binary::scan::{
    spec_agenda, spec_attach, spec_base_of, spec_crawl, spec_extended_table, spec_known,
    spec_linked_table, spec_obtain, spec_position, spec_round, spec_scan, spec_visit, spec_window,
};
use crate::binary::spec_find_root;
use crate::pe::PeImage;

verus! {

/// Whether `tables` holds the table at `va` with the table at `base` as its
/// related table.
pub open spec fn spec_is_linked(tables: Seq<MethodTableView>, va: u64, base: u64) -> bool {
    spec_known(tables, va) && tables[spec_position(tables, va)].related_type == Some(base)
}

/// Whether the candidate `ptr` is settled in `tables`: where a method table
/// can be read at the candidate and `tables` holds the table that its field
/// for the related type points to, `tables` holds the candidate's table too,
/// linked to that table.
pub open spec fn spec_settled(
    pe: &PeImage,
    min: u32,
    max: u64,
    tables: Seq<MethodTableView>,
    ptr: u32,
) -> bool {
    match spec_base_of(pe, min, max, ptr) {
        None => true,
        Some((va, base)) => spec_known(tables, base) && spec_parse_method_table(pe, va) is Ok
            ==> spec_is_linked(tables, va, base),
    }
}

/// Whether nothing is left to do for the candidate `ptr`: it is none, or no
/// method table can be read at it, or `tables` holds its table, linked to
/// the table that its field for the related type points to.
pub open spec fn spec_done(
    pe: &PeImage,
    min: u32,
    max: u64,
    tables: Seq<MethodTableView>,
    ptr: u32,
) -> bool {
    match spec_base_of(pe, min, max, ptr) {
        None => true,
        Some((va, base)) => spec_parse_method_table(pe, va) is Err || spec_is_linked(
            tables,
            va,
            base,
        ),
    }
}

/// Whether `after` holds every table of `before` at its place, and a linked
/// one with the same related table.
pub open spec fn spec_keeps_links(before: Seq<MethodTableView>, after: Seq<MethodTableView>)
    -> bool {
    &&& spec_keeps_addresses(before, after)
    &&& forall|i: int|
        0 <= i < before.len() && (#[trigger] before[i]).related_type is Some
            ==> after[i].related_type == before[i].related_type
}

/// Whether `ptr` is among the candidates of `agenda` from the `from`-th on.
pub open spec fn spec_pending(agenda: Seq<u32>, from: int, ptr: u32) -> bool {
    exists|j: int| from <= j < agenda.len() && 0 <= j && #[trigger] agenda[j] == ptr
}

proof fn lemma_keeps_links_transitive(
    first: Seq<MethodTableView>,
    second: Seq<MethodTableView>,
    third: Seq<MethodTableView>,
)
    requires
        spec_keeps_links(first, second),
        spec_keeps_links(second, third),
    ensures
        spec_keeps_links(first, third),
{
    assert forall|i: int| 0 <= i < first.len() implies (#[trigger] third[i]).va == first[i].va by {
        assert(second[i].va == first[i].va);
    }
    assert forall|i: int|
        0 <= i < first.len() && (#[trigger] first[i]).related_type is Some implies third[i].related_type
        == first[i].related_type by {
        assert(second[i].related_type == first[i].related_type);
    }
}

/// A linked table stays linked where links are kept.
proof fn lemma_linked_stays(
    pe: &PeImage,
    before: Seq<MethodTableView>,
    after: Seq<MethodTableView>,
    va: u64,
    base: u64,
)
    requires
        spec_sound(pe, after),
        spec_keeps_links(before, after),
        spec_is_linked(before, va, base),
    ensures
        spec_is_linked(after, va, base),
{
    lemma_position_kept(pe, before, after, va);
    let at = spec_position(before, va);
    assert(before[at].related_type is Some);
}

/// A candidate that is done stays done where links are kept.
proof fn lemma_done_stays(
    pe: &PeImage,
    min: u32,
    max: u64,
    before: Seq<MethodTableView>,
    after: Seq<MethodTableView>,
    ptr: u32,
)
    requires
        spec_sound(pe, after),
        spec_keeps_links(before, after),
        spec_done(pe, min, max, before, ptr),
    ensures
        spec_done(pe, min, max, after, ptr),
{
    match spec_base_of(pe, min, max, ptr) {
        None => {},
        Some((va, base)) => {
            if spec_parse_method_table(pe, va) is Ok {
                lemma_linked_stays(pe, before, after, va, base);
            }
        },
    }
}

/// A visit keeps the links of the tables. A candidate that it leaves
/// waiting waits for a table that is not held, and nothing changes; for
/// any other candidate nothing is left to do.
proof fn lemma_visit_links(
    pe: &PeImage,
    min: u32,
    max: u64,
    tables: Seq<MethodTableView>,
    ptr: u32,
)
    requires
        spec_sound(pe, tables),
    ensures
        spec_sound(pe, spec_visit(pe, min, max, tables, ptr).0),
        spec_keeps_links(tables, spec_visit(pe, min, max, tables, ptr).0),
        spec_visit(pe, min, max, tables, ptr).1 ==> spec_visit(pe, min, max, tables, ptr).0
            == tables && spec_waits_for_unknown(pe, min, max, tables, ptr),
        !spec_visit(pe, min, max, tables, ptr).1 ==> spec_done(
            pe,
            min,
            max,
            spec_visit(pe, min, max, tables, ptr).0,
            ptr,
        ),
{
    let after = spec_visit(pe, min, max, tables, ptr).0;
    lemma_visit_sound(pe, min, max, tables, ptr);
    match spec_base_of(pe, min, max, ptr) {
        None => {},
        Some((va, base)) => {
            if spec_known(tables, base) {
                let (obtained, there) = spec_obtain(pe, tables, va);
                lemma_obtain_sound(pe, tables, va);
                if there {
                    let at = spec_position(obtained, va);
                    assert(obtained[at].va == va);
                    assert(spec_read_from(pe, obtained[at]));
                    lemma_base_field(pe, min, max, ptr);
                    lemma_known_stays(tables, obtained, base);
                    let linked = obtained.update(at, spec_linked_table(obtained[at], base));
                    lemma_linked_stays_sound(pe, obtained, at, base);
                    assert(spec_keeps_links(obtained, linked)) by {
                        assert forall|i: int|
                            0 <= i < obtained.len() && (
                            #[trigger] obtained[i]).related_type is Some implies linked[i].related_type
                            == obtained[i].related_type by {
                            if i == at {
                                assert(spec_links_known(obtained, obtained[at]));
                            }
                        }
                    }
                    let addresses = linked[at].iface_addresses;
                    let (attached, found) = spec_attach(pe, linked, addresses, 0, Seq::empty());
                    lemma_attach_prefix(pe, linked, addresses, 0, Seq::empty());
                    assert(spec_keeps_links(linked, attached)) by {
                        assert forall|i: int|
                            0 <= i < linked.len() && (
                            #[trigger] linked[i]).related_type is Some implies attached[i].related_type
                            == linked[i].related_type by {
                            assert(attached[i] == linked[i]);
                        }
                    }
                    let to = spec_position(attached, base);
                    assert(after == attached.update(to, spec_extended_table(attached[to], found)));
                    lemma_known_stays(obtained, linked, base);
                    lemma_known_stays(linked, attached, base);
                    assert(attached[to].va == base);
                    assert(spec_keeps_links(attached, after));
                    assert(spec_keeps_links(tables, obtained)) by {
                        assert forall|i: int|
                            0 <= i < tables.len() && (
                            #[trigger] tables[i]).related_type is Some implies obtained[i].related_type
                            == tables[i].related_type by {
                            assert(obtained[i] == tables[i]);
                        }
                    }
                    lemma_keeps_links_transitive(tables, obtained, linked);
                    lemma_keeps_links_transitive(tables, linked, attached);
                    lemma_keeps_links_transitive(tables, attached, after);
                    assert(attached[at] == linked[at]);
                    assert(after[at].va == va);
                    assert(after[at].related_type == Some(base));
                    lemma_position_is_unique(pe, after, at);
                } else {
                    assert(after == tables);
                    assert(spec_parse_method_table(pe, va) is Err);
                }
            }
        },
    }
}

/// A round keeps the links of the tables, and a candidate that it was given
/// waits behind it or has nothing left to do.
proof fn lemma_round_links(
    pe: &PeImage,
    min: u32,
    max: u64,
    tables: Seq<MethodTableView>,
    unmatched: Seq<u32>,
    agenda: Seq<u32>,
    from: int,
    ptr: u32,
)
    requires
        spec_sound(pe, tables),
        0 <= from <= agenda.len(),
        spec_pending(agenda, from, ptr) || unmatched.contains(ptr) || spec_done(
            pe,
            min,
            max,
            tables,
            ptr,
        ),
    ensures
        spec_sound(pe, spec_round(pe, min, max, tables, unmatched, agenda, from).0),
        spec_keeps_links(tables, spec_round(pe, min, max, tables, unmatched, agenda, from).0),
        spec_round(pe, min, max, tables, unmatched, agenda, from).1.contains(ptr) || spec_done(
            pe,
            min,
            max,
            spec_round(pe, min, max, tables, unmatched, agenda, from).0,
            ptr,
        ),
    decreases agenda.len() - from,
{
    if from < agenda.len() {
        let (next, waits) = spec_visit(pe, min, max, tables, agenda[from]);
        lemma_visit_links(pe, min, max, tables, agenda[from]);
        let kept = if waits {
            unmatched.push(agenda[from])
        } else {
            unmatched
        };
        if spec_done(pe, min, max, tables, ptr) {
            lemma_done_stays(pe, min, max, tables, next, ptr);
        } else if unmatched.contains(ptr) {
            let k = choose|k: int| 0 <= k < unmatched.len() && unmatched[k] == ptr;
            assert(kept[k] == ptr);
        } else {
            let j = choose|j: int| from <= j < agenda.len() && 0 <= j && #[trigger] agenda[j] == ptr;
            if j == from {
                if waits {
                    assert(kept[unmatched.len() as int] == ptr);
                }
            } else {
                assert(from + 1 <= j < agenda.len() && agenda[j] == ptr);
            }
        }
        lemma_round_links(pe, min, max, next, kept, agenda, from + 1, ptr);
        lemma_keeps_links_transitive(
            tables,
            next,
            spec_round(pe, min, max, next, kept, agenda, from + 1).0,
        );
    }
}

/// A round leaves at most as many candidates waiting as it was given; where
/// it leaves them all waiting, each waits for a table that is not held, and
/// the tables are as they were.
proof fn lemma_idle_round(
    pe: &PeImage,
    min: u32,
    max: u64,
    tables: Seq<MethodTableView>,
    unmatched: Seq<u32>,
    agenda: Seq<u32>,
    from: int,
)
    requires
        0 <= from <= agenda.len(),
    ensures
        spec_round(pe, min, max, tables, unmatched, agenda, from).1.len() <= unmatched.len()
            + agenda.len() - from,
        spec_round(pe, min, max, tables, unmatched, agenda, from).1.len() == unmatched.len()
            + agenda.len() - from ==> spec_round(pe, min, max, tables, unmatched, agenda, from).0
            == tables && forall|j: int|
            from <= j < agenda.len() ==> spec_waits_for_unknown(
                pe,
                min,
                max,
                tables,
                #[trigger] agenda[j],
            ),
    decreases agenda.len() - from,
{
    if from < agenda.len() {
        let (next, waits) = spec_visit(pe, min, max, tables, agenda[from]);
        let kept = if waits {
            unmatched.push(agenda[from])
        } else {
            unmatched
        };
        lemma_idle_round(pe, min, max, next, kept, agenda, from + 1);
    }
}

/// After a crawl every candidate that it was given is settled.
proof fn lemma_crawl_links(
    pe: &PeImage,
    min: u32,
    max: u64,
    tables: Seq<MethodTableView>,
    agenda: Seq<u32>,
    ptr: u32,
)
    requires
        spec_sound(pe, tables),
        agenda.contains(ptr) || spec_done(pe, min, max, tables, ptr),
    ensures
        spec_settled(pe, min, max, spec_crawl(pe, min, max, tables, agenda), ptr),
    decreases agenda.len(),
{
    let (next, unmatched) = spec_round(pe, min, max, tables, Seq::empty(), agenda, 0);
    if agenda.contains(ptr) {
        let j = choose|j: int| 0 <= j < agenda.len() && agenda[j] == ptr;
        assert(spec_pending(agenda, 0, ptr));
    }
    lemma_round_links(pe, min, max, tables, Seq::empty(), agenda, 0, ptr);
    if unmatched.len() >= agenda.len() {
        lemma_idle_round(pe, min, max, tables, Seq::empty(), agenda, 0);
        if !spec_done(pe, min, max, next, ptr) {
            assert(!spec_done(pe, min, max, tables, ptr));
            let j = choose|j: int| 0 <= j < agenda.len() && agenda[j] == ptr;
            assert(spec_waits_for_unknown(pe, min, max, tables, agenda[j]));
        }
    } else {
        lemma_crawl_links(pe, min, max, next, unmatched, ptr);
    }
}

// ---------------------------------------------------------------------------
// Where the tables of a scan come from
// ---------------------------------------------------------------------------

/// Whether `table` was found through one of the candidates `all`: the
/// candidate lies at the address of the table, and its field for the
/// related type points into the window.
pub open spec fn spec_from_candidate(
    pe: &PeImage,
    min: u32,
    max: u64,
    all: Seq<u32>,
    table: MethodTableView,
) -> bool {
    exists|j: int|
        0 <= j < all.len() && spec_base_of(pe, min, max, #[trigger] all[j]) == Some(
            (table.va, table.related_type_address),
        )
}

/// Whether a linked table of `tables` names `va` as an interface.
pub open spec fn spec_named_by_linked(tables: Seq<MethodTableView>, va: u64) -> bool {
    exists|k: int|
        0 <= k < tables.len() && (#[trigger] tables[k]).related_type is Some
            && tables[k].iface_addresses.contains(va)
}

/// Whether `tables` accounts for `table`: a linked table was found through
/// one of the candidates `all`; one that is not linked is the root at
/// `root` or lies at an address other than zero that a linked table names
/// as an interface.
pub open spec fn spec_accounted(
    pe: &PeImage,
    min: u32,
    max: u64,
    all: Seq<u32>,
    root: u64,
    tables: Seq<MethodTableView>,
    table: MethodTableView,
) -> bool {
    if table.related_type is Some {
        spec_from_candidate(pe, min, max, all, table)
    } else {
        table.va == root || (table.va != 0 && spec_named_by_linked(tables, table.va))
    }
}

/// Whether `tables` accounts for each of its tables.
pub open spec fn spec_all_accounted(
    pe: &PeImage,
    min: u32,
    max: u64,
    all: Seq<u32>,
    root: u64,
    tables: Seq<MethodTableView>,
) -> bool {
    forall|i: int|
        0 <= i < tables.len() ==> spec_accounted(pe, min, max, all, root, tables, #[trigger] tables[i])
}

/// Whether each of `candidates` is one of `all`.
pub open spec fn spec_among(candidates: Seq<u32>, all: Seq<u32>) -> bool {
    forall|j: int| 0 <= j < candidates.len() ==> all.contains(#[trigger] candidates[j])
}

/// What attaching interface tables adds: tables without a related table,
/// at addresses other than zero that are among those given.
proof fn lemma_attach_news(
    pe: &PeImage,
    tables: Seq<MethodTableView>,
    addresses: Seq<u64>,
    from: int,
    found: Seq<u64>,
)
    requires
        spec_sound(pe, tables),
    ensures
        forall|i: int|
            tables.len() <= i < spec_attach(pe, tables, addresses, from, found).0.len() ==> (
            #[trigger] spec_attach(pe, tables, addresses, from, found).0[i]).related_type is None
                && spec_attach(pe, tables, addresses, from, found).0[i].va != 0
                && addresses.contains(spec_attach(pe, tables, addresses, from, found).0[i].va),
    decreases addresses.len() - from,
{
    if 0 <= from < addresses.len() {
        if addresses[from] == 0 {
            lemma_attach_news(pe, tables, addresses, from + 1, found);
        } else {
            let (next, there) = spec_obtain(pe, tables, addresses[from]);
            lemma_obtain_sound(pe, tables, addresses[from]);
            let more = if there {
                found.push(addresses[from])
            } else {
                found
            };
            lemma_attach_news(pe, next, addresses, from + 1, more);
            lemma_attach_prefix(pe, next, addresses, from + 1, more);
            let last = spec_attach(pe, next, addresses, from + 1, more).0;
            assert forall|i: int| tables.len() <= i < last.len() implies (
            #[trigger] last[i]).related_type is None && last[i].va != 0 && addresses.contains(
                last[i].va,
            ) by {
                if i < next.len() {
                    assert(last[i] == next[i]);
                    assert(next[i] == spec_parse_method_table(pe, addresses[from])->Ok_0);
                    assert(next[i].va == addresses[from]);
                }
            }
        }
    }
}

/// A visit of one of the candidates `all` keeps all tables accounted for.
proof fn lemma_visit_accounted(
    pe: &PeImage,
    min: u32,
    max: u64,
    all: Seq<u32>,
    root: u64,
    tables: Seq<MethodTableView>,
    ptr: u32,
)
    requires
        spec_sound(pe, tables),
        spec_all_accounted(pe, min, max, all, root, tables),
        all.contains(ptr),
    ensures
        spec_all_accounted(pe, min, max, all, root, spec_visit(pe, min, max, tables, ptr).0),
{
    let after = spec_visit(pe, min, max, tables, ptr).0;
    lemma_visit_sound(pe, min, max, tables, ptr);
    lemma_visit_links(pe, min, max, tables, ptr);
    match spec_base_of(pe, min, max, ptr) {
        None => {},
        Some((va, base)) => {
            if spec_known(tables, base) {
                let (obtained, there) = spec_obtain(pe, tables, va);
                lemma_obtain_sound(pe, tables, va);
                if there {
                    let at = spec_position(obtained, va);
                    assert(obtained[at].va == va);
                    assert(spec_read_from(pe, obtained[at]));
                    lemma_base_field(pe, min, max, ptr);
                    lemma_known_stays(tables, obtained, base);
                    let linked = obtained.update(at, spec_linked_table(obtained[at], base));
                    lemma_linked_stays_sound(pe, obtained, at, base);
                    let addresses = linked[at].iface_addresses;
                    let (attached, found) = spec_attach(pe, linked, addresses, 0, Seq::empty());
                    lemma_attach_prefix(pe, linked, addresses, 0, Seq::empty());
                    lemma_attach_news(pe, linked, addresses, 0, Seq::empty());
                    let to = spec_position(attached, base);
                    assert(after == attached.update(to, spec_extended_table(attached[to], found)));
                    lemma_known_stays(obtained, linked, base);
                    lemma_known_stays(linked, attached, base);
                    assert(attached[to].va == base);
                    assert(attached[at] == linked[at]);
                    assert(after[at].va == va);
                    assert(after[at].related_type == Some(base));
                    assert(after[at].iface_addresses == addresses);
                    assert(after[at].related_type_address == base);
                    let j = choose|j: int| 0 <= j < all.len() && all[j] == ptr;
                    assert(spec_from_candidate(pe, min, max, all, after[at]));
                    assert forall|i: int| 0 <= i < after.len() implies spec_accounted(
                        pe,
                        min,
                        max,
                        all,
                        root,
                        after,
                        #[trigger] after[i],
                    ) by {
                        assert(after[i].related_type == attached[i].related_type);
                        assert(after[i].va == attached[i].va);
                        if i == at {
                        } else if i < tables.len() {
                            assert(attached[i] == linked[i]);
                            assert(linked[i] == obtained[i]);
                            assert(obtained[i] == tables[i]);
                            assert(spec_accounted(pe, min, max, all, root, tables, tables[i]));
                            assert(spec_read_from(pe, tables[i]));
                            assert(spec_read_from(pe, after[i]));
                            lemma_same_interfaces_named(pe, tables[i], after[i]);
                            if tables[i].related_type is None && tables[i].va != root {
                                let k = choose|k: int|
                                    0 <= k < tables.len() && (
                                    #[trigger] tables[k]).related_type is Some
                                        && tables[k].iface_addresses.contains(tables[i].va);
                                assert(spec_read_from(pe, tables[k]));
                                assert(spec_read_from(pe, after[k]));
                                assert(after[k].va == tables[k].va);
                                lemma_same_interfaces_named(pe, tables[k], after[k]);
                                assert(after[k].related_type is Some);
                                assert(spec_named_by_linked(after, after[i].va));
                            }
                        } else if i < linked.len() {
                            assert(obtained == tables.push(spec_parse_method_table(pe, va)->Ok_0));
                            assert(obtained[i].va == va);
                            lemma_position_is_unique(pe, obtained, i);
                        } else {
                            assert(attached[i].related_type is None);
                            assert(addresses.contains(attached[i].va));
                            assert(spec_named_by_linked(after, after[i].va));
                        }
                    }
                } else {
                    assert(after == tables);
                }
            }
        },
    }
}

/// A round over candidates of `all` keeps all tables accounted for, and
/// leaves candidates of `all` waiting.
proof fn lemma_round_accounted(
    pe: &PeImage,
    min: u32,
    max: u64,
    all: Seq<u32>,
    root: u64,
    tables: Seq<MethodTableView>,
    unmatched: Seq<u32>,
    agenda: Seq<u32>,
    from: int,
)
    requires
        spec_sound(pe, tables),
        spec_all_accounted(pe, min, max, all, root, tables),
        spec_among(agenda, all),
        spec_among(unmatched, all),
    ensures
        spec_all_accounted(
            pe,
            min,
            max,
            all,
            root,
            spec_round(pe, min, max, tables, unmatched, agenda, from).0,
        ),
        spec_among(spec_round(pe, min, max, tables, unmatched, agenda, from).1, all),
        spec_sound(pe, spec_round(pe, min, max, tables, unmatched, agenda, from).0),
    decreases agenda.len() - from,
{
    if 0 <= from < agenda.len() {
        let (next, waits) = spec_visit(pe, min, max, tables, agenda[from]);
        lemma_visit_sound(pe, min, max, tables, agenda[from]);
        lemma_visit_accounted(pe, min, max, all, root, tables, agenda[from]);
        let kept = if waits {
            unmatched.push(agenda[from])
        } else {
            unmatched
        };
        assert forall|j: int| 0 <= j < kept.len() implies all.contains(#[trigger] kept[j]) by {
            if j < unmatched.len() {
                assert(kept[j] == unmatched[j]);
            }
        }
        lemma_round_accounted(pe, min, max, all, root, next, kept, agenda, from + 1);
    }
}

/// A crawl over candidates of `all` keeps all tables accounted for.
proof fn lemma_crawl_accounted(
    pe: &PeImage,
    min: u32,
    max: u64,
    all: Seq<u32>,
    root: u64,
    tables: Seq<MethodTableView>,
    agenda: Seq<u32>,
)
    requires
        spec_sound(pe, tables),
        spec_all_accounted(pe, min, max, all, root, tables),
        spec_among(agenda, all),
    ensures
        spec_all_accounted(pe, min, max, all, root, spec_crawl(pe, min, max, tables, agenda)),
    decreases agenda.len(),
{
    let (next, unmatched) = spec_round(pe, min, max, tables, Seq::empty(), agenda, 0);
    lemma_round_accounted(pe, min, max, all, root, tables, Seq::empty(), agenda, 0);
    if unmatched.len() < agenda.len() {
        lemma_crawl_accounted(pe, min, max, all, root, next, unmatched);
    }
}

// ---------------------------------------------------------------------------
// Sets of addresses that a scan does not leave
// ---------------------------------------------------------------------------

/// Whether every table of `tables` lies at an address of `expected`.
pub open spec fn spec_within(tables: Seq<MethodTableView>, expected: Set<u64>) -> bool {
    forall|i: int| 0 <= i < tables.len() ==> expected.contains((#[trigger] tables[i]).va)
}

/// Whether `expected` holds every address other than zero among
/// `addresses` at which a method table can be read.
pub open spec fn spec_holds_interfaces(pe: &PeImage, addresses: Seq<u64>, expected: Set<u64>)
    -> bool {
    forall|k: int|
        0 <= k < addresses.len() && #[trigger] addresses[k] != 0 && spec_parse_method_table(
            pe,
            addresses[k],
        ) is Ok ==> expected.contains(addresses[k])
}

/// Whether the candidate `ptr` leads nowhere outside `expected`: where its
/// field for the related type points to an address of `expected` and a
/// method table can be read at the candidate, `expected` holds the address
/// of the candidate and the addresses of the interface tables that the
/// table names.
pub open spec fn spec_closed_at(pe: &PeImage, min: u32, max: u64, expected: Set<u64>, ptr: u32)
    -> bool {
    match spec_base_of(pe, min, max, ptr) {
        None => true,
        Some((va, base)) => expected.contains(base) ==> match spec_parse_method_table(pe, va) {
            Err(_) => true,
            Ok(table) => expected.contains(va) && spec_holds_interfaces(
                pe,
                table.iface_addresses,
                expected,
            ),
        },
    }
}

/// Whether none of the candidates `all` leads outside `expected`.
pub open spec fn spec_closed(pe: &PeImage, min: u32, max: u64, all: Seq<u32>, expected: Set<u64>)
    -> bool {
    forall|j: int| 0 <= j < all.len() ==> spec_closed_at(pe, min, max, expected, #[trigger] all[j])
}

proof fn lemma_obtain_within(
    pe: &PeImage,
    tables: Seq<MethodTableView>,
    va: u64,
    expected: Set<u64>,
)
    requires
        spec_sound(pe, tables),
        spec_within(tables, expected),
        spec_parse_method_table(pe, va) is Ok ==> expected.contains(va),
    ensures
        spec_within(spec_obtain(pe, tables, va).0, expected),
{
    let after = spec_obtain(pe, tables, va).0;
    lemma_obtain_sound(pe, tables, va);
    if !spec_known(tables, va) && spec_parse_method_table(pe, va) is Ok {
        assert forall|i: int| 0 <= i < after.len() implies expected.contains(
            (#[trigger] after[i]).va,
        ) by {
            if i < tables.len() {
                assert(after[i] == tables[i]);
            } else {
                assert(spec_known(after, va));
                assert(after[i] == spec_parse_method_table(pe, va)->Ok_0);
                assert(spec_read_from(pe, after[i]));
                let at = spec_position(after, va);
                assert(after[at].va == va);
                if at < tables.len() {
                    assert(after[at] == tables[at]);
                    assert(tables[at].va == va);
                }
            }
        }
    }
}

proof fn lemma_attach_within(
    pe: &PeImage,
    tables: Seq<MethodTableView>,
    addresses: Seq<u64>,
    from: int,
    found: Seq<u64>,
    expected: Set<u64>,
)
    requires
        spec_sound(pe, tables),
        spec_within(tables, expected),
        spec_holds_interfaces(pe, addresses, expected),
    ensures
        spec_within(spec_attach(pe, tables, addresses, from, found).0, expected),
    decreases addresses.len() - from,
{
    if 0 <= from < addresses.len() {
        if addresses[from] == 0 {
            lemma_attach_within(pe, tables, addresses, from + 1, found, expected);
        } else {
            let (next, there) = spec_obtain(pe, tables, addresses[from]);
            lemma_obtain_sound(pe, tables, addresses[from]);
            lemma_obtain_within(pe, tables, addresses[from], expected);
            let more = if there {
                found.push(addresses[from])
            } else {
                found
            };
            lemma_attach_within(pe, next, addresses, from + 1, more, expected);
        }
    }
}

/// A visit of a candidate that leads nowhere outside `expected` leaves the
/// tables within `expected`.
proof fn lemma_visit_within(
    pe: &PeImage,
    min: u32,
    max: u64,
    tables: Seq<MethodTableView>,
    ptr: u32,
    expected: Set<u64>,
)
    requires
        spec_sound(pe, tables),
        spec_within(tables, expected),
        spec_closed_at(pe, min, max, expected, ptr),
    ensures
        spec_within(spec_visit(pe, min, max, tables, ptr).0, expected),
{
    let after = spec_visit(pe, min, max, tables, ptr).0;
    match spec_base_of(pe, min, max, ptr) {
        None => {},
        Some((va, base)) => {
            if spec_known(tables, base) {
                let b = spec_position(tables, base);
                assert(tables[b].va == base);
                let (obtained, there) = spec_obtain(pe, tables, va);
                lemma_obtain_sound(pe, tables, va);
                lemma_obtain_within(pe, tables, va, expected);
                if there {
                    let at = spec_position(obtained, va);
                    assert(obtained[at].va == va);
                    assert(spec_read_from(pe, obtained[at]));
                    lemma_base_field(pe, min, max, ptr);
                    lemma_known_stays(tables, obtained, base);
                    let linked = obtained.update(at, spec_linked_table(obtained[at], base));
                    lemma_linked_stays_sound(pe, obtained, at, base);
                    assert(spec_within(linked, expected)) by {
                        assert forall|i: int| 0 <= i < linked.len() implies expected.contains(
                            (#[trigger] linked[i]).va,
                        ) by {
                            assert(linked[i].va == obtained[i].va);
                        }
                    }
                    let addresses = linked[at].iface_addresses;
                    assert(addresses == spec_parse_method_table(pe, va)->Ok_0.iface_addresses);
                    let (attached, found) = spec_attach(pe, linked, addresses, 0, Seq::empty());
                    lemma_attach_within(pe, linked, addresses, 0, Seq::empty(), expected);
                    let to = spec_position(attached, base);
                    assert(after == attached.update(to, spec_extended_table(attached[to], found)));
                    lemma_attach_prefix(pe, linked, addresses, 0, Seq::empty());
                    lemma_known_stays(obtained, linked, base);
                    lemma_known_stays(linked, attached, base);
                    assert(attached[to].va == base);
                    assert forall|i: int| 0 <= i < after.len() implies expected.contains(
                        (#[trigger] after[i]).va,
                    ) by {
                        assert(after[i].va == attached[i].va);
                    }
                } else {
                    assert(after == tables);
                }
            }
        },
    }
}

proof fn lemma_round_within(
    pe: &PeImage,
    min: u32,
    max: u64,
    all: Seq<u32>,
    tables: Seq<MethodTableView>,
    unmatched: Seq<u32>,
    agenda: Seq<u32>,
    from: int,
    expected: Set<u64>,
)
    requires
        spec_sound(pe, tables),
        spec_within(tables, expected),
        spec_closed(pe, min, max, all, expected),
        spec_among(agenda, all),
        spec_among(unmatched, all),
    ensures
        spec_within(spec_round(pe, min, max, tables, unmatched, agenda, from).0, expected),
        spec_among(spec_round(pe, min, max, tables, unmatched, agenda, from).1, all),
        spec_sound(pe, spec_round(pe, min, max, tables, unmatched, agenda, from).0),
    decreases agenda.len() - from,
{
    if 0 <= from < agenda.len() {
        let (next, waits) = spec_visit(pe, min, max, tables, agenda[from]);
        lemma_visit_sound(pe, min, max, tables, agenda[from]);
        let j = choose|j: int| 0 <= j < all.len() && all[j] == agenda[from];
        assert(spec_closed_at(pe, min, max, expected, all[j]));
        lemma_visit_within(pe, min, max, tables, agenda[from], expected);
        let kept = if waits {
            unmatched.push(agenda[from])
        } else {
            unmatched
        };
        assert forall|j: int| 0 <= j < kept.len() implies all.contains(#[trigger] kept[j]) by {
            if j < unmatched.len() {
                assert(kept[j] == unmatched[j]);
            }
        }
        lemma_round_within(pe, min, max, all, next, kept, agenda, from + 1, expected);
    }
}

proof fn lemma_crawl_within(
    pe: &PeImage,
    min: u32,
    max: u64,
    all: Seq<u32>,
    tables: Seq<MethodTableView>,
    agenda: Seq<u32>,
    expected: Set<u64>,
)
    requires
        spec_sound(pe, tables),
        spec_within(tables, expected),
        spec_closed(pe, min, max, all, expected),
        spec_among(agenda, all),
    ensures
        spec_within(spec_crawl(pe, min, max, tables, agenda), expected),
    decreases agenda.len(),
{
    let (next, unmatched) = spec_round(pe, min, max, tables, Seq::empty(), agenda, 0);
    lemma_round_within(pe, min, max, all, tables, Seq::empty(), agenda, 0, expected);
    if unmatched.len() < agenda.len() {
        lemma_crawl_within(pe, min, max, all, next, unmatched, expected);
    }
}

// ---------------------------------------------------------------------------
// The laws of a scan
// ---------------------------------------------------------------------------

/// A scan finds nothing but the root, what derives from what it found, and
/// the interfaces of those: every table of the result that has a related
/// table lies at a candidate of the window whose field for the related
/// type points into the window; every other table is the root or lies at
/// an address other than zero that a table with a related table names as
/// an interface.
pub proof fn lemma_every_table_is_accounted_for(pe: &PeImage)
    ensures
        spec_scan(pe) matches Ok(tables) ==> ({
            let (min, max) = spec_window(pe, 0, u32::MAX, 0)->Some_0;
            spec_all_accounted(
                pe,
                min,
                max,
                spec_agenda(min, max),
                spec_find_root(pe, 0)->Ok_0.va,
                tables,
            )
        }),
{
    if spec_scan(pe) is Ok {
        let root = spec_find_root(pe, 0)->Ok_0;
        let (min, max) = spec_window(pe, 0, u32::MAX, 0)->Some_0;
        let all = spec_agenda(min, max);
        lemma_root_looks_like_root(pe, 0);
        crate::binary::depth::lemma_root_alone_is_sound(pe, root);
        let start = seq![root];
        assert forall|i: int| 0 <= i < start.len() implies spec_accounted(
            pe,
            min,
            max,
            all,
            root.va,
            start,
            #[trigger] start[i],
        ) by {
            assert(start[i] == root);
        }
        assert(spec_among(all, all)) by {
            assert forall|j: int| 0 <= j < all.len() implies all.contains(#[trigger] all[j]) by {
            }
        }
        lemma_crawl_accounted(pe, min, max, all, root.va, start, all);
    }
}

/// A table that is found through its base is linked to it: after a scan,
/// wherever a candidate of the window holds a method table whose field for
/// the related type points to a table of the result, the result holds the
/// candidate's table with that table as its related table.
pub proof fn lemma_found_through_base_is_linked(pe: &PeImage, ptr: u32)
    ensures
        spec_scan(pe) matches Ok(tables) ==> ({
            let (min, max) = spec_window(pe, 0, u32::MAX, 0)->Some_0;
            spec_agenda(min, max).contains(ptr) ==> spec_settled(pe, min, max, tables, ptr)
        }),
{
    if spec_scan(pe) is Ok {
        let root = spec_find_root(pe, 0)->Ok_0;
        let (min, max) = spec_window(pe, 0, u32::MAX, 0)->Some_0;
        lemma_root_looks_like_root(pe, 0);
        crate::binary::depth::lemma_root_alone_is_sound(pe, root);
        if spec_agenda(min, max).contains(ptr) {
            lemma_crawl_links(pe, min, max, seq![root], spec_agenda(min, max), ptr);
        }
    }
}

/// A scan finds no more than what hangs on the root: where a set of
/// addresses holds the address of the root, and with the address that the
/// field for the related type of a candidate points to also the address of
/// the candidate and of the interface tables that its table names, every
/// table of the result lies at an address of the set.
pub proof fn lemma_scan_stays_within(pe: &PeImage, expected: Set<u64>)
    requires
        spec_scan(pe) is Ok,
        expected.contains(spec_find_root(pe, 0)->Ok_0.va),
        ({
            let (min, max) = spec_window(pe, 0, u32::MAX, 0)->Some_0;
            spec_closed(pe, min, max, spec_agenda(min, max), expected)
        }),
    ensures
        spec_within(spec_scan(pe)->Ok_0, expected),
{
    let root = spec_find_root(pe, 0)->Ok_0;
    let (min, max) = spec_window(pe, 0, u32::MAX, 0)->Some_0;
    let all = spec_agenda(min, max);
    lemma_root_looks_like_root(pe, 0);
    crate::binary::depth::lemma_root_alone_is_sound(pe, root);
    let start = seq![root];
    assert forall|i: int| 0 <= i < start.len() implies expected.contains(
        (#[trigger] start[i]).va,
    ) by {
        assert(start[i] == root);
    }
    assert(spec_among(all, all)) by {
        assert forall|j: int| 0 <= j < all.len() implies all.contains(#[trigger] all[j]) by {
        }
    }
    lemma_crawl_within(pe, min, max, all, start, all, expected);
}

} // verus!
