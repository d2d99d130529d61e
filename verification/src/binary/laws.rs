use vstd::prelude::*;

use crate::binary::headers::mt::{spec_parse_method_table, MethodTableError, MethodTableView};
use crate::binary::scan::{
    spec_agenda, spec_attach, spec_base_of, spec_crawl, spec_extended_table, spec_known,
    spec_linked_table, spec_obtain, spec_position, spec_round, spec_scan, spec_visit, spec_window,
};
use crate::binary::{spec_find_root, spec_is_root, spec_root_at_offset, spec_root_in_range};
use crate::native_format::hashtable::spec_left;
use crate::pe::PeImage;

verus! {

/// Whether `table` holds what `read` holds of the image: everything but the
/// relations that a scan adds.
pub open spec fn spec_same_record(table: MethodTableView, read: MethodTableView) -> bool {
    &&& table.va == read.va
    &&& table.flags == read.flags
    &&& table.base_size == read.base_size
    &&& table.related_type_address == read.related_type_address
    &&& table.hashcode == read.hashcode
    &&& table.element_type == read.element_type
    &&& table.vtable_addresses == read.vtable_addresses
    &&& table.iface_addresses == read.iface_addresses
}

/// Whether `table` is what the image holds at its address.
pub open spec fn spec_read_from(pe: &PeImage, table: MethodTableView) -> bool {
    match spec_parse_method_table(pe, table.va) {
        Ok(read) => spec_same_record(table, read),
        Err(_) => false,
    }
}

/// Whether the relations of `table` lead to tables that `tables` holds: its
/// related table, which is the one that its field for the related type
/// points to, and the interface tables attached to it.
pub open spec fn spec_links_known(tables: Seq<MethodTableView>, table: MethodTableView) -> bool {
    &&& table.related_type matches Some(base) ==> base == table.related_type_address
        && spec_known(tables, base)
    &&& forall|k: int|
        0 <= k < table.interfaces.len() ==> spec_known(tables, #[trigger] table.interfaces[k])
}

/// Whether no two of `tables` lie at one address.
pub open spec fn spec_distinct(tables: Seq<MethodTableView>) -> bool {
    forall|i: int, j: int|
        0 <= i < j < tables.len() ==> (#[trigger] tables[i]).va != (#[trigger] tables[j]).va
}

/// What holds of the tables of a scan at every moment: no two lie at one
/// address, each is what the image holds at its address, and the relations
/// of each lead to tables of the scan.
pub open spec fn spec_sound(pe: &PeImage, tables: Seq<MethodTableView>) -> bool {
    &&& spec_distinct(tables)
    &&& forall|i: int| 0 <= i < tables.len() ==> spec_read_from(pe, #[trigger] tables[i])
    &&& forall|i: int| 0 <= i < tables.len() ==> spec_links_known(tables, #[trigger] tables[i])
}

/// Whether `after` holds a table wherever `before` holds one, at the same
/// address.
pub open spec fn spec_keeps_addresses(
    before: Seq<MethodTableView>,
    after: Seq<MethodTableView>,
) -> bool {
    &&& before.len() <= after.len()
    &&& forall|i: int| 0 <= i < before.len() ==> (#[trigger] after[i]).va == before[i].va
}

proof fn lemma_known_kept(before: Seq<MethodTableView>, after: Seq<MethodTableView>, va: u64)
    requires
        spec_keeps_addresses(before, after),
        spec_known(before, va),
    ensures
        spec_known(after, va),
{
    let i = spec_position(before, va);
    assert(before[i].va == va);
    assert(after[i].va == va);
}

proof fn lemma_links_kept(
    before: Seq<MethodTableView>,
    after: Seq<MethodTableView>,
    table: MethodTableView,
)
    requires
        spec_keeps_addresses(before, after),
        spec_links_known(before, table),
    ensures
        spec_links_known(after, table),
{
    if table.related_type is Some {
        lemma_known_kept(before, after, table.related_type->Some_0);
    }
    assert forall|k: int| 0 <= k < table.interfaces.len() implies spec_known(
        after,
        #[trigger] table.interfaces[k],
    ) by {
        lemma_known_kept(before, after, table.interfaces[k]);
    }
}

/// Obtaining a table keeps the tables sound, and keeps every table where it
/// was.
pub(crate) proof fn lemma_obtain_sound(pe: &PeImage, tables: Seq<MethodTableView>, va: u64)
    requires
        spec_sound(pe, tables),
    ensures
        spec_sound(pe, spec_obtain(pe, tables, va).0),
        spec_keeps_addresses(tables, spec_obtain(pe, tables, va).0),
        forall|i: int|
            0 <= i < tables.len() ==> (#[trigger] spec_obtain(pe, tables, va).0[i]) == tables[i],
        spec_obtain(pe, tables, va).1 ==> spec_known(spec_obtain(pe, tables, va).0, va),
{
    let after = spec_obtain(pe, tables, va).0;
    if !spec_known(tables, va) && spec_parse_method_table(pe, va) is Ok {
        let table = spec_parse_method_table(pe, va)->Ok_0;
        assert(after == tables.push(table));
        assert(after[tables.len() as int] == table);
        assert(table.va == va);
        assert forall|i: int, j: int| 0 <= i < j < after.len() implies (#[trigger] after[i]).va
            != (#[trigger] after[j]).va by {
            if j == tables.len() {
                assert(after[i] == tables[i]);
            } else {
                assert(after[i] == tables[i] && after[j] == tables[j]);
            }
        }
        assert forall|i: int| 0 <= i < after.len() implies spec_read_from(
            pe,
            #[trigger] after[i],
        ) by {
            if i < tables.len() {
                assert(after[i] == tables[i]);
            }
        }
        assert(spec_keeps_addresses(tables, after));
        assert forall|i: int| 0 <= i < after.len() implies spec_links_known(
            after,
            #[trigger] after[i],
        ) by {
            if i < tables.len() {
                assert(after[i] == tables[i]);
                lemma_links_kept(tables, after, tables[i]);
            }
        }
    }
}

/// Attaching interface tables keeps the tables sound and keeps every table
/// where it was; the addresses it returns are those it was given that are
/// known now.
pub(crate) proof fn lemma_attach_sound(
    pe: &PeImage,
    tables: Seq<MethodTableView>,
    addresses: Seq<u64>,
    from: int,
    found: Seq<u64>,
)
    requires
        spec_sound(pe, tables),
        forall|k: int| 0 <= k < found.len() ==> spec_known(tables, #[trigger] found[k]),
    ensures
        spec_sound(pe, spec_attach(pe, tables, addresses, from, found).0),
        spec_keeps_addresses(tables, spec_attach(pe, tables, addresses, from, found).0),
        forall|i: int|
            0 <= i < tables.len() ==> (#[trigger] spec_attach(
                pe,
                tables,
                addresses,
                from,
                found,
            ).0[i]) == tables[i],
        forall|k: int|
            0 <= k < spec_attach(pe, tables, addresses, from, found).1.len() ==> spec_known(
                spec_attach(pe, tables, addresses, from, found).0,
                #[trigger] spec_attach(pe, tables, addresses, from, found).1[k],
            ),
    decreases addresses.len() - from,
{
    if 0 <= from < addresses.len() {
        if addresses[from] == 0 {
            lemma_attach_sound(pe, tables, addresses, from + 1, found);
        } else {
            let (next, there) = spec_obtain(pe, tables, addresses[from]);
            lemma_obtain_sound(pe, tables, addresses[from]);
            let more = if there {
                found.push(addresses[from])
            } else {
                found
            };
            assert forall|k: int| 0 <= k < more.len() implies spec_known(
                next,
                #[trigger] more[k],
            ) by {
                if k < found.len() {
                    assert(more[k] == found[k]);
                    lemma_known_kept(tables, next, found[k]);
                }
            }
            lemma_attach_sound(pe, next, addresses, from + 1, more);
            let last = spec_attach(pe, next, addresses, from + 1, more).0;
            assert forall|i: int| 0 <= i < tables.len() implies (#[trigger] last[i])
                == tables[i] by {
                assert(next[i] == tables[i]);
            }
        }
    }
}

/// Replacing a table by one that holds the same record keeps the tables
/// sound where the relations of the new one lead to known tables.
proof fn lemma_update_sound(
    pe: &PeImage,
    tables: Seq<MethodTableView>,
    at: int,
    table: MethodTableView,
)
    requires
        spec_sound(pe, tables),
        0 <= at < tables.len(),
        spec_same_record(table, tables[at]),
        spec_links_known(tables, table),
    ensures
        spec_sound(pe, tables.update(at, table)),
        spec_keeps_addresses(tables, tables.update(at, table)),
{
    let after = tables.update(at, table);
    assert(spec_keeps_addresses(tables, after));
    assert forall|i: int, j: int| 0 <= i < j < after.len() implies (#[trigger] after[i]).va != (
    #[trigger] after[j]).va by {
        assert(after[i].va == tables[i].va && after[j].va == tables[j].va);
    }
    assert forall|i: int| 0 <= i < after.len() implies spec_read_from(pe, #[trigger] after[i]) by {
        assert(spec_read_from(pe, tables[i]));
    }
    assert forall|i: int| 0 <= i < after.len() implies spec_links_known(
        after,
        #[trigger] after[i],
    ) by {
        if i == at {
            lemma_links_kept(tables, after, table);
        } else {
            lemma_links_kept(tables, after, tables[i]);
        }
    }
}

/// A visit keeps the tables sound and keeps every table at its place.
pub(crate) proof fn lemma_visit_sound(
    pe: &PeImage,
    min: u32,
    max: u64,
    tables: Seq<MethodTableView>,
    ptr: u32,
)
    requires
        spec_sound(pe, tables),
    ensures
        spec_sound(pe, spec_visit(pe, min, max, tables, ptr).0),
        spec_keeps_addresses(tables, spec_visit(pe, min, max, tables, ptr).0),
{
    match spec_base_of(pe, min, max, ptr) {
        None => {},
        Some((va, base)) => {
            if spec_known(tables, base) {
                let (obtained, there) = spec_obtain(pe, tables, va);
                lemma_obtain_sound(pe, tables, va);
                if there {
                    let at = spec_position(obtained, va);
                    assert(obtained[at].va == va);
                    assert(spec_read_from(pe, obtained[at]));
                    let linked_table = spec_linked_table(obtained[at], base);
                    lemma_known_kept(tables, obtained, base);
                    assert(spec_links_known(obtained, obtained[at]));
                    assert(spec_links_known(obtained, linked_table));
                    lemma_update_sound(pe, obtained, at, linked_table);
                    let linked = obtained.update(at, linked_table);
                    lemma_attach_sound(
                        pe,
                        linked,
                        linked[at].iface_addresses,
                        0,
                        Seq::empty(),
                    );
                    let (attached, found) = spec_attach(
                        pe,
                        linked,
                        linked[at].iface_addresses,
                        0,
                        Seq::empty(),
                    );
                    lemma_known_kept(obtained, linked, base);
                    lemma_known_kept(linked, attached, base);
                    let to = spec_position(attached, base);
                    assert(attached[to].va == base);
                    let extended_table = spec_extended_table(attached[to], found);
                    assert(spec_links_known(attached, attached[to]));
                    assert forall|k: int|
                        0 <= k < extended_table.interfaces.len() implies spec_known(
                        attached,
                        #[trigger] extended_table.interfaces[k],
                    ) by {
                        if k < attached[to].interfaces.len() {
                            assert(extended_table.interfaces[k] == attached[to].interfaces[k]);
                        } else {
                            assert(extended_table.interfaces[k] == found[k
                                - attached[to].interfaces.len()]);
                        }
                    }
                    lemma_update_sound(pe, attached, to, extended_table);
                    let last = attached.update(to, extended_table);
                    assert forall|i: int| 0 <= i < tables.len() implies (#[trigger] last[i]).va
                        == tables[i].va by {
                        assert(obtained[i].va == tables[i].va);
                        assert(linked[i].va == obtained[i].va);
                        assert(attached[i].va == linked[i].va);
                    }
                }
            }
        },
    }
}

/// A round keeps the tables sound and keeps every table at its place.
pub(crate) proof fn lemma_round_sound(
    pe: &PeImage,
    min: u32,
    max: u64,
    tables: Seq<MethodTableView>,
    unmatched: Seq<u32>,
    agenda: Seq<u32>,
    from: int,
)
    requires
        spec_sound(pe, tables),
    ensures
        spec_sound(pe, spec_round(pe, min, max, tables, unmatched, agenda, from).0),
        spec_keeps_addresses(
            tables,
            spec_round(pe, min, max, tables, unmatched, agenda, from).0,
        ),
    decreases agenda.len() - from,
{
    if 0 <= from < agenda.len() {
        let (next, waits) = spec_visit(pe, min, max, tables, agenda[from]);
        lemma_visit_sound(pe, min, max, tables, agenda[from]);
        let kept = if waits {
            unmatched.push(agenda[from])
        } else {
            unmatched
        };
        lemma_round_sound(pe, min, max, next, kept, agenda, from + 1);
        let last = spec_round(pe, min, max, next, kept, agenda, from + 1).0;
        assert forall|i: int| 0 <= i < tables.len() implies (#[trigger] last[i]).va
            == tables[i].va by {
            assert(next[i].va == tables[i].va);
        }
    }
}

/// A crawl keeps the tables sound and keeps every table at its place.
pub(crate) proof fn lemma_crawl_sound(
    pe: &PeImage,
    min: u32,
    max: u64,
    tables: Seq<MethodTableView>,
    agenda: Seq<u32>,
)
    requires
        spec_sound(pe, tables),
    ensures
        spec_sound(pe, spec_crawl(pe, min, max, tables, agenda)),
        spec_keeps_addresses(tables, spec_crawl(pe, min, max, tables, agenda)),
    decreases agenda.len(),
{
    let (next, unmatched) = spec_round(pe, min, max, tables, Seq::empty(), agenda, 0);
    lemma_round_sound(pe, min, max, tables, Seq::empty(), agenda, 0);
    if unmatched.len() < agenda.len() {
        lemma_crawl_sound(pe, min, max, next, unmatched);
        let last = spec_crawl(pe, min, max, next, unmatched);
        assert forall|i: int| 0 <= i < tables.len() implies (#[trigger] last[i]).va
            == tables[i].va by {
            assert(next[i].va == tables[i].va);
        }
    }
}

/// What the search in a range of file offsets finds looks like the root and
/// is what the image holds at its address.
proof fn lemma_root_in_range(pe: &PeImage, offset: int, end: int)
    ensures
        spec_root_in_range(pe, offset, end) matches Some(root) ==> spec_is_root(pe, root)
            && spec_parse_method_table(pe, root.va) == Ok::<MethodTableView, MethodTableError>(root),
    decreases spec_left(offset, end),
{
    if offset < end && spec_root_at_offset(pe, offset) is None {
        lemma_root_in_range(pe, offset + 8, end);
    }
}

/// The root that is found is a class of base size 0x18 without related type
/// and without interfaces whose three vtable slots all point into the code
/// section, and it is what the image holds at its address.
pub proof fn lemma_root_looks_like_root(pe: &PeImage, candidate: int)
    ensures
        spec_find_root(pe, candidate) matches Ok(root) ==> spec_is_root(pe, root)
            && spec_parse_method_table(pe, root.va) == Ok::<MethodTableView, MethodTableError>(root),
    decreases 3 - candidate,
{
    if 0 <= candidate < 3 {
        match crate::pe::spec_section_by_name(
            pe.sections@,
            crate::binary::spec_candidate_name(candidate),
            0,
        ) {
            None => {},
            Some(index) => {
                let section = pe.sections@[index];
                lemma_root_in_range(
                    pe,
                    section.pointer_to_raw_data as int,
                    crate::pe::spec_wrapping_sum(
                        section.pointer_to_raw_data,
                        section.size_of_raw_data,
                    ),
                );
                lemma_root_looks_like_root(pe, candidate + 1);
            },
        }
    }
}

/// Of the method tables of a scan: the first one lies where the root lies;
/// no two lie at one address; each is what the image holds at its address;
/// the related table of each is the one that its field for the related type
/// points to, and is among the tables; and every interface table attached to
/// a table is among the tables.
pub proof fn lemma_scan_is_sound(pe: &PeImage)
    ensures
        spec_scan(pe) matches Ok(tables) ==> spec_sound(pe, tables) && tables.len() >= 1
            && spec_find_root(pe, 0) is Ok && tables[0].va == spec_find_root(pe, 0)->Ok_0.va,
{
    if spec_scan(pe) is Ok {
        let root = spec_find_root(pe, 0)->Ok_0;
        lemma_root_looks_like_root(pe, 0);
        let (min, max) = spec_window(pe, 0, u32::MAX, 0)->Some_0;
        let start = seq![root];
        assert(start[0] == root);
        assert(spec_read_from(pe, start[0]));
        assert(spec_sound(pe, start)) by {
            assert forall|i: int| 0 <= i < start.len() implies spec_links_known(
                start,
                #[trigger] start[i],
            ) by {
                assert(start[i] == root);
            }
        }
        lemma_crawl_sound(pe, min, max, start, spec_agenda(min, max));
        let tables = spec_crawl(pe, min, max, start, spec_agenda(min, max));
        assert(tables[0].va == start[0].va);
    }
}

} // verus!
