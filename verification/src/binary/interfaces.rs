use vstd::prelude::*;

use crate::binary::headers::mt::{spec_parse_method_table, MethodTableView};
use crate::binary::laws::{
    lemma_attach_sound, lemma_obtain_sound, lemma_root_looks_like_root, lemma_round_sound,
    lemma_visit_sound, spec_keeps_addresses, spec_read_from, spec_sound,
};
use crate::binary::scan::{
    spec_agenda, spec_attach, spec_base_of, spec_crawl, spec_extended_table, spec_known,
    spec_linked_table, spec_obtain, spec_position, spec_round, spec_scan, spec_visit, spec_window,
};
use crate::binary::spec_find_root;
use crate::pe::PeImage;

verus! {

/// Whether the interfaces that `table` names are attached to the table that
/// it derives from: where `table` has a related table, the interfaces
/// attached to that one hold every address that `table` names as an
/// interface and at which a method table can be read.
pub open spec fn spec_attached(pe: &PeImage, tables: Seq<MethodTableView>, table: MethodTableView)
    -> bool {
    table.related_type matches Some(base) ==> spec_known(tables, base) && forall|k: int|
        0 <= k < table.iface_addresses.len() && #[trigger] table.iface_addresses[k] != 0
            && spec_parse_method_table(pe, table.iface_addresses[k]) is Ok
            ==> tables[spec_position(tables, base)].interfaces.contains(table.iface_addresses[k])
}

/// Whether the interfaces of every table of `tables` are attached to the
/// table that it derives from.
pub open spec fn spec_all_attached(pe: &PeImage, tables: Seq<MethodTableView>) -> bool {
    forall|i: int| 0 <= i < tables.len() ==> spec_attached(pe, tables, #[trigger] tables[i])
}

/// Whether `after` holds every table of `before` at its place, with the
/// interfaces that were attached to it.
pub open spec fn spec_keeps_interfaces(before: Seq<MethodTableView>, after: Seq<MethodTableView>)
    -> bool {
    &&& spec_keeps_addresses(before, after)
    &&& forall|i: int, a: u64|
        0 <= i < before.len() && (#[trigger] before[i].interfaces.contains(a))
            ==> after[i].interfaces.contains(a)
}

/// Among tables of which no two lie at one address, a table lies where its
/// address is found.
pub(crate) proof fn lemma_position_is_unique(pe: &PeImage, tables: Seq<MethodTableView>, i: int)
    requires
        spec_sound(pe, tables),
        0 <= i < tables.len(),
    ensures
        spec_known(tables, tables[i].va),
        spec_position(tables, tables[i].va) == i,
{
    let at = spec_position(tables, tables[i].va);
    assert(tables[at].va == tables[i].va);
    if at < i {
        assert(tables[at].va != tables[i].va);
    } else if i < at {
        assert(tables[i].va != tables[at].va);
    }
}

/// A table keeps its place when tables are kept.
pub(crate) proof fn lemma_position_kept(
    pe: &PeImage,
    before: Seq<MethodTableView>,
    after: Seq<MethodTableView>,
    va: u64,
)
    requires
        spec_sound(pe, after),
        spec_keeps_addresses(before, after),
        spec_known(before, va),
    ensures
        spec_known(after, va),
        spec_position(after, va) == spec_position(before, va),
        0 <= spec_position(before, va) < before.len(),
{
    let i = spec_position(before, va);
    assert(before[i].va == va);
    assert(after[i].va == va);
    lemma_position_is_unique(pe, after, i);
}

/// Two sound tables at one address name the same interfaces.
pub(crate) proof fn lemma_same_interfaces_named(pe: &PeImage, first: MethodTableView, second: MethodTableView)
    requires
        spec_read_from(pe, first),
        spec_read_from(pe, second),
        first.va == second.va,
    ensures
        first.iface_addresses == second.iface_addresses,
        first.related_type_address == second.related_type_address,
{
}

/// What is attached stays attached where tables are kept with their
/// interfaces and a table keeps its related table.
proof fn lemma_attached_kept(
    pe: &PeImage,
    before: Seq<MethodTableView>,
    after: Seq<MethodTableView>,
    i: int,
)
    requires
        spec_sound(pe, before),
        spec_sound(pe, after),
        spec_keeps_interfaces(before, after),
        0 <= i < before.len(),
        after[i].related_type == before[i].related_type,
        spec_attached(pe, before, before[i]),
    ensures
        spec_attached(pe, after, after[i]),
{
    assert(after[i].va == before[i].va);
    assert(spec_read_from(pe, before[i]));
    assert(spec_read_from(pe, after[i]));
    lemma_same_interfaces_named(pe, before[i], after[i]);
    if after[i].related_type is Some {
        let base = after[i].related_type->Some_0;
        lemma_position_kept(pe, before, after, base);
        let to = spec_position(before, base);
        assert forall|k: int|
            0 <= k < after[i].iface_addresses.len() && #[trigger] after[i].iface_addresses[k] != 0
                && spec_parse_method_table(
                pe,
                after[i].iface_addresses[k],
            ) is Ok implies after[spec_position(after, base)].interfaces.contains(
            after[i].iface_addresses[k],
        ) by {
            assert(before[i].iface_addresses[k] == after[i].iface_addresses[k]);
            assert(before[to].interfaces.contains(before[i].iface_addresses[k]));
        }
    }
}

/// Obtaining a table keeps what is attached.
proof fn lemma_obtain_attached(pe: &PeImage, tables: Seq<MethodTableView>, va: u64)
    requires
        spec_sound(pe, tables),
        spec_all_attached(pe, tables),
    ensures
        spec_all_attached(pe, spec_obtain(pe, tables, va).0),
        spec_keeps_interfaces(tables, spec_obtain(pe, tables, va).0),
{
    let after = spec_obtain(pe, tables, va).0;
    lemma_obtain_sound(pe, tables, va);
    assert(spec_keeps_interfaces(tables, after)) by {
        assert forall|i: int, a: u64|
            0 <= i < tables.len() && (#[trigger] tables[i].interfaces.contains(
                a,
            )) implies after[i].interfaces.contains(a) by {
            assert(after[i] == tables[i]);
        }
    }
    assert forall|i: int| 0 <= i < after.len() implies spec_attached(
        pe,
        after,
        #[trigger] after[i],
    ) by {
        if i < tables.len() {
            assert(after[i] == tables[i]);
            lemma_attached_kept(pe, tables, after, i);
        } else {
            assert(after[i] == spec_parse_method_table(pe, va)->Ok_0);
        }
    }
}

/// Attaching interface tables keeps the tables sound and keeps every table
/// as it was.
pub(crate) proof fn lemma_attach_prefix(
    pe: &PeImage,
    tables: Seq<MethodTableView>,
    addresses: Seq<u64>,
    from: int,
    found: Seq<u64>,
)
    requires
        spec_sound(pe, tables),
    ensures
        spec_sound(pe, spec_attach(pe, tables, addresses, from, found).0),
        spec_keeps_addresses(tables, spec_attach(pe, tables, addresses, from, found).0),
        forall|i: int|
            0 <= i < tables.len() ==> (#[trigger] spec_attach(
                pe,
                tables,
                addresses,
                from,
                found,
            ).0[i]) == tables[i],
    decreases addresses.len() - from,
{
    if 0 <= from < addresses.len() {
        if addresses[from] == 0 {
            lemma_attach_prefix(pe, tables, addresses, from + 1, found);
        } else {
            let (next, there) = spec_obtain(pe, tables, addresses[from]);
            lemma_obtain_sound(pe, tables, addresses[from]);
            let more = if there {
                found.push(addresses[from])
            } else {
                found
            };
            lemma_attach_prefix(pe, next, addresses, from + 1, more);
            let last = spec_attach(pe, next, addresses, from + 1, more).0;
            assert forall|i: int| 0 <= i < tables.len() implies (#[trigger] last[i])
                == tables[i] by {
                assert(next[i] == tables[i]);
            }
        }
    }
}

/// A visit keeps what is attached.
proof fn lemma_visit_attached(
    pe: &PeImage,
    min: u32,
    max: u64,
    tables: Seq<MethodTableView>,
    ptr: u32,
)
    requires
        spec_sound(pe, tables),
        spec_all_attached(pe, tables),
    ensures
        spec_all_attached(pe, spec_visit(pe, min, max, tables, ptr).0),
{
    let after = spec_visit(pe, min, max, tables, ptr).0;
    lemma_visit_sound(pe, min, max, tables, ptr);
    match spec_base_of(pe, min, max, ptr) {
        None => {},
        Some((va, base)) => {
            if spec_known(tables, base) {
                let (obtained, there) = spec_obtain(pe, tables, va);
                if there {
                    lemma_obtain_sound(pe, tables, va);
                    lemma_obtain_attached(pe, tables, va);
                    let at = spec_position(obtained, va);
                    assert(obtained[at].va == va);
                    assert(spec_read_from(pe, obtained[at]));
                    lemma_position_is_unique(pe, obtained, at);
                    let linked = obtained.update(at, spec_linked_table(obtained[at], base));
                    let addresses = linked[at].iface_addresses;
                    lemma_base_field(pe, min, max, ptr);
                    lemma_known_in(tables, obtained, base);
                    crate::binary::depth::lemma_linked_stays_sound(pe, obtained, at, base);
                    assert(spec_sound(pe, linked));
                    // every table but the visited one is as it was
                    assert(spec_all_but_attached(pe, linked, at)) by {
                        assert(spec_keeps_interfaces(obtained, linked)) by {
                            assert forall|i: int, b: u64|
                                0 <= i < obtained.len() && (
                                #[trigger] obtained[i].interfaces.contains(
                                    b,
                                )) implies linked[i].interfaces.contains(b) by {
                                assert(linked[i].interfaces == obtained[i].interfaces);
                            }
                        }
                        assert forall|i: int| 0 <= i < linked.len()
                            && i != at implies spec_attached(
                            pe,
                            linked,
                            #[trigger] linked[i],
                        ) by {
                            assert(linked[i] == obtained[i]);
                            lemma_attached_kept(pe, obtained, linked, i);
                        }
                    }
                    lemma_attach_but(pe, linked, addresses, 0, Seq::empty(), at);
                    let (attached, found) = spec_attach(pe, linked, addresses, 0, Seq::empty());
                    lemma_attach_sound(pe, linked, addresses, 0, Seq::empty());
                    lemma_known_in(obtained, linked, base);
                    lemma_position_kept(pe, linked, attached, base);
                    let to = spec_position(attached, base);
                    assert(attached[to].va == base);
                    assert(attached[at] == linked[at]);
                    let extended = spec_extended_table(attached[to], found);
                    assert(after == attached.update(to, extended));
                    assert(spec_keeps_interfaces(attached, after)) by {
                        assert forall|i: int, b: u64|
                            0 <= i < attached.len() && (#[trigger] attached[i].interfaces.contains(
                                b,
                            )) implies after[i].interfaces.contains(b) by {
                            if i == to {
                                let j = choose|j: int|
                                    0 <= j < attached[i].interfaces.len()
                                        && attached[i].interfaces[j] == b;
                                assert(extended.interfaces[j] == b);
                            }
                        }
                    }
                    lemma_position_is_unique(pe, after, to);
                    assert forall|i: int| 0 <= i < after.len() implies spec_attached(
                        pe,
                        after,
                        #[trigger] after[i],
                    ) by {
                        if i != at {
                            assert(spec_attached(pe, attached, attached[i]));
                            lemma_attached_kept(pe, attached, after, i);
                        } else {
                            // the visited table: what it names was found and is attached now
                            assert(after[at].related_type == Some(base));
                            assert(after[at].iface_addresses == addresses);
                            assert(spec_known(after, base));
                            assert(spec_position(after, base) == to);
                            assert forall|k: int|
                                0 <= k < addresses.len() && #[trigger] addresses[k] != 0
                                    && spec_parse_method_table(
                                    pe,
                                    addresses[k],
                                ) is Ok implies after[to].interfaces.contains(addresses[k]) by {
                                assert(found.contains(addresses[k]));
                                let j = choose|j: int|
                                    0 <= j < found.len() && found[j] == addresses[k];
                                assert(after[to].interfaces[attached[to].interfaces.len() + j]
                                    == addresses[k]);
                            }
                        }
                    }
                }
            }
        },
    }
}

/// Whether the interfaces of every table of `tables` but the one at the
/// place `but` are attached.
pub open spec fn spec_all_but_attached(pe: &PeImage, tables: Seq<MethodTableView>, but: int)
    -> bool {
    forall|i: int|
        0 <= i < tables.len() && i != but ==> spec_attached(pe, tables, #[trigger] tables[i])
}

/// The field for the related type of a candidate is what is read as the
/// related type of its table.
pub(crate) proof fn lemma_base_field(pe: &PeImage, min: u32, max: u64, ptr: u32)
    ensures
        spec_base_of(pe, min, max, ptr) matches Some((va, base)) ==> (spec_parse_method_table(
            pe,
            va,
        ) matches Ok(read) ==> read.related_type_address == base),
{
}

proof fn lemma_known_in(before: Seq<MethodTableView>, after: Seq<MethodTableView>, va: u64)
    requires
        spec_keeps_addresses(before, after),
        spec_known(before, va),
    ensures
        spec_known(after, va),
{
    let i = spec_position(before, va);
    assert(before[i].va == va);
    assert(after[i].va == va);
}

/// Obtaining a table keeps what is attached to all tables but one.
proof fn lemma_obtain_but(pe: &PeImage, tables: Seq<MethodTableView>, va: u64, but: int)
    requires
        spec_sound(pe, tables),
        0 <= but < tables.len(),
        spec_all_but_attached(pe, tables, but),
    ensures
        spec_all_but_attached(pe, spec_obtain(pe, tables, va).0, but),
        spec_keeps_interfaces(tables, spec_obtain(pe, tables, va).0),
{
    let after = spec_obtain(pe, tables, va).0;
    lemma_obtain_sound(pe, tables, va);
    assert(spec_keeps_interfaces(tables, after)) by {
        assert forall|i: int, a: u64|
            0 <= i < tables.len() && (#[trigger] tables[i].interfaces.contains(
                a,
            )) implies after[i].interfaces.contains(a) by {
            assert(after[i] == tables[i]);
        }
    }
    assert forall|i: int| 0 <= i < after.len() && i != but implies spec_attached(
        pe,
        after,
        #[trigger] after[i],
    ) by {
        if i < tables.len() {
            assert(after[i] == tables[i]);
            lemma_attached_kept(pe, tables, after, i);
        } else {
            assert(after[i] == spec_parse_method_table(pe, va)->Ok_0);
        }
    }
}

/// Attaching interface tables keeps what is attached to all tables but one,
/// and finds every address given at which a method table can be read.
proof fn lemma_attach_but(
    pe: &PeImage,
    tables: Seq<MethodTableView>,
    addresses: Seq<u64>,
    from: int,
    found: Seq<u64>,
    but: int,
)
    requires
        0 <= from,
        0 <= but < tables.len(),
        spec_sound(pe, tables),
        spec_all_but_attached(pe, tables, but),
    ensures
        spec_all_but_attached(pe, spec_attach(pe, tables, addresses, from, found).0, but),
        spec_keeps_interfaces(tables, spec_attach(pe, tables, addresses, from, found).0),
        forall|a: u64| #[trigger]
            found.contains(a) ==> spec_attach(pe, tables, addresses, from, found).1.contains(a),
        forall|k: int|
            from <= k < addresses.len() && #[trigger] addresses[k] != 0
                && spec_parse_method_table(pe, addresses[k]) is Ok ==> spec_attach(
                pe,
                tables,
                addresses,
                from,
                found,
            ).1.contains(addresses[k]),
    decreases addresses.len() - from,
{
    if from < addresses.len() {
        if addresses[from] == 0 {
            lemma_attach_but(pe, tables, addresses, from + 1, found, but);
        } else {
            let a = addresses[from];
            let (next, there) = spec_obtain(pe, tables, a);
            lemma_obtain_sound(pe, tables, a);
            lemma_obtain_but(pe, tables, a, but);
            let more = if there {
                found.push(a)
            } else {
                found
            };
            lemma_attach_but(pe, next, addresses, from + 1, more, but);
            let (last, all) = spec_attach(pe, next, addresses, from + 1, more);
            lemma_attach_prefix(pe, next, addresses, from + 1, more);
            assert(spec_keeps_interfaces(tables, last)) by {
                assert forall|i: int| 0 <= i < tables.len() implies (#[trigger] last[i]).va
                    == tables[i].va by {
                    assert(next[i].va == tables[i].va);
                }
                assert forall|i: int, b: u64|
                    0 <= i < tables.len() && (#[trigger] tables[i].interfaces.contains(
                        b,
                    )) implies last[i].interfaces.contains(b) by {
                    assert(next[i].interfaces.contains(b));
                }
            }
            assert forall|b: u64| #[trigger] found.contains(b) implies all.contains(b) by {
                let j = choose|j: int| 0 <= j < found.len() && found[j] == b;
                assert(more[j] == b);
                assert(more.contains(b));
            }
            if spec_parse_method_table(pe, a) is Ok {
                if !spec_known(tables, a) {
                    assert(there);
                }
                assert(more[more.len() - 1] == a);
                assert(more.contains(a));
            }
        }
    }
}

/// A round keeps what is attached.
proof fn lemma_round_attached(
    pe: &PeImage,
    min: u32,
    max: u64,
    tables: Seq<MethodTableView>,
    unmatched: Seq<u32>,
    agenda: Seq<u32>,
    from: int,
)
    requires
        spec_sound(pe, tables),
        spec_all_attached(pe, tables),
    ensures
        spec_all_attached(pe, spec_round(pe, min, max, tables, unmatched, agenda, from).0),
    decreases agenda.len() - from,
{
    if 0 <= from < agenda.len() {
        let (next, waits) = spec_visit(pe, min, max, tables, agenda[from]);
        lemma_visit_sound(pe, min, max, tables, agenda[from]);
        lemma_visit_attached(pe, min, max, tables, agenda[from]);
        let kept = if waits {
            unmatched.push(agenda[from])
        } else {
            unmatched
        };
        lemma_round_attached(pe, min, max, next, kept, agenda, from + 1);
    }
}

/// A crawl keeps what is attached.
proof fn lemma_crawl_attached(
    pe: &PeImage,
    min: u32,
    max: u64,
    tables: Seq<MethodTableView>,
    agenda: Seq<u32>,
)
    requires
        spec_sound(pe, tables),
        spec_all_attached(pe, tables),
    ensures
        spec_all_attached(pe, spec_crawl(pe, min, max, tables, agenda)),
    decreases agenda.len(),
{
    let (next, unmatched) = spec_round(pe, min, max, tables, Seq::empty(), agenda, 0);
    lemma_round_sound(pe, min, max, tables, Seq::empty(), agenda, 0);
    lemma_round_attached(pe, min, max, tables, Seq::empty(), agenda, 0);
    if unmatched.len() < agenda.len() {
        lemma_crawl_attached(pe, min, max, next, unmatched);
    }
}

/// The interfaces that a table of a scan names are attached to the table
/// that it derives from: where a table has a related table, the interfaces
/// attached to that one hold every address that the table names as an
/// interface and at which a method table can be read.
pub proof fn lemma_interfaces_are_attached_to_the_base(pe: &PeImage)
    ensures
        spec_scan(pe) matches Ok(tables) ==> spec_all_attached(pe, tables),
{
    if spec_scan(pe) is Ok {
        let root = spec_find_root(pe, 0)->Ok_0;
        let (min, max) = spec_window(pe, 0, u32::MAX, 0)->Some_0;
        let start = seq![root];
        lemma_root_looks_like_root(pe, 0);
        crate::binary::depth::lemma_root_alone_is_sound(pe, root);
        assert forall|i: int| 0 <= i < start.len() implies spec_attached(
            pe,
            start,
            #[trigger] start[i],
        ) by {
            assert(start[i] == root);
        }
        lemma_crawl_attached(pe, min, max, start, spec_agenda(min, max));
    }
}

} // verus!
