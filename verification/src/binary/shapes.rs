use vstd::prelude::*;

use crate::binary::headers::mt::{spec_parse_method_table, MethodTableView};
use crate::binary::interfaces::{
    lemma_base_field, lemma_interfaces_are_attached_to_the_base, lemma_position_is_unique,
    spec_attached,
};
use crate::binary::laws::{
    lemma_root_looks_like_root, lemma_scan_is_sound, spec_links_known, spec_read_from, spec_sound,
};
use crate::binary::links::{
    lemma_every_table_is_accounted_for, lemma_found_through_base_is_linked,
    lemma_scan_stays_within, spec_accounted, spec_closed_at, spec_holds_interfaces,
    spec_is_linked, spec_settled, spec_within,
};
use crate::binary::scan::{
    spec_agenda, spec_base_of, spec_known, spec_position, spec_scan, spec_window,
};
use crate::binary::spec_find_root;
use crate::pe::PeImage;

verus! {

/// Whether the candidate `ptr` of `agenda` holds a method table at `va`
/// that derives from the table at `base`, and names no interface table
/// outside `expected`.
pub open spec fn spec_derived_at(
    pe: &PeImage,
    min: u32,
    max: u64,
    agenda: Seq<u32>,
    expected: Set<u64>,
    ptr: u32,
    va: u64,
    base: u64,
) -> bool {
    &&& agenda.contains(ptr)
    &&& spec_base_of(pe, min, max, ptr) == Some((va, base))
    &&& spec_parse_method_table(pe, va) matches Ok(table) && spec_holds_interfaces(
        pe,
        table.iface_addresses,
        expected,
    )
}

/// Whether the candidate `ptr` leads to no table: no method table can be
/// read at it whose field for the related type points to an address of
/// `expected`.
pub open spec fn spec_leads_nowhere(
    pe: &PeImage,
    min: u32,
    max: u64,
    expected: Set<u64>,
    ptr: u32,
) -> bool {
    match spec_base_of(pe, min, max, ptr) {
        None => true,
        Some((va, base)) => expected.contains(base) ==> spec_parse_method_table(pe, va) is Err,
    }
}

/// Whether every candidate of `agenda` but those of `but` leads to no
/// table.
pub open spec fn spec_others_lead_nowhere(
    pe: &PeImage,
    min: u32,
    max: u64,
    agenda: Seq<u32>,
    expected: Set<u64>,
    but: Set<u32>,
) -> bool {
    forall|j: int|
        0 <= j < agenda.len() && !but.contains(#[trigger] agenda[j]) ==> spec_leads_nowhere(
            pe,
            min,
            max,
            expected,
            agenda[j],
        )
}

/// The root is related to no table: the first table of a scan has no
/// related table.
pub proof fn lemma_root_has_no_related_table(pe: &PeImage)
    ensures
        spec_scan(pe) matches Ok(tables) ==> tables.len() >= 1 && tables[0].va == spec_find_root(
            pe,
            0,
        )->Ok_0.va && tables[0].related_type is None,
{
    if spec_scan(pe) is Ok {
        let tables = spec_scan(pe)->Ok_0;
        let (min, max) = spec_window(pe, 0, u32::MAX, 0)->Some_0;
        let agenda = spec_agenda(min, max);
        let root = spec_find_root(pe, 0)->Ok_0;
        lemma_scan_is_sound(pe);
        lemma_root_looks_like_root(pe, 0);
        lemma_every_table_is_accounted_for(pe);
        assert(spec_read_from(pe, tables[0]));
        assert(spec_accounted(pe, min, max, agenda, root.va, tables, tables[0]));
        assert(tables[0].related_type_address == 0);
        if tables[0].related_type is Some {
            let j = choose|j: int|
                0 <= j < agenda.len() && spec_base_of(pe, min, max, #[trigger] agenda[j]) == Some(
                    (tables[0].va, tables[0].related_type_address),
                );
            assert(pe.spec_va_to_rva(0) is None);
        }
    }
}

/// The scan of an image that holds the root and one table that derives
/// from it: where one candidate of the window holds a table that derives
/// from the root and names no interface table, and no other candidate holds
/// a table that derives from one of the two, the result is the root, not
/// linked, and behind it that table, linked to the root.
pub proof fn lemma_scan_of_a_root_and_one_derived_table(pe: &PeImage, ptr: u32, va: u64)
    requires
        spec_scan(pe) is Ok,
        ({
            let root = spec_find_root(pe, 0)->Ok_0.va;
            let (min, max) = spec_window(pe, 0, u32::MAX, 0)->Some_0;
            let agenda = spec_agenda(min, max);
            let expected = set![root, va];
            &&& spec_derived_at(pe, min, max, agenda, expected, ptr, va, root)
            &&& spec_others_lead_nowhere(pe, min, max, agenda, expected, set![ptr])
        }),
    ensures
        ({
            let root = spec_find_root(pe, 0)->Ok_0.va;
            let tables = spec_scan(pe)->Ok_0;
            &&& tables.len() == 2
            &&& tables[0].va == root
            &&& tables[0].related_type is None
            &&& tables[1].va == va
            &&& tables[1].related_type == Some(root)
        }),
{
    let root = spec_find_root(pe, 0)->Ok_0.va;
    let tables = spec_scan(pe)->Ok_0;
    let (min, max) = spec_window(pe, 0, u32::MAX, 0)->Some_0;
    let agenda = spec_agenda(min, max);
    let expected = set![root, va];
    lemma_scan_is_sound(pe);
    lemma_root_looks_like_root(pe, 0);
    lemma_root_has_no_related_table(pe);
    lemma_base_field(pe, min, max, ptr);
    assert(va != root);
    assert forall|j: int| 0 <= j < agenda.len() implies spec_closed_at(
        pe,
        min,
        max,
        expected,
        #[trigger] agenda[j],
    ) by {
        if agenda[j] != ptr {
            assert(!set![ptr].contains(agenda[j]));
            assert(spec_leads_nowhere(pe, min, max, expected, agenda[j]));
        }
    }
    lemma_scan_stays_within(pe, expected);
    lemma_found_through_base_is_linked(pe, ptr);
    assert(spec_known(tables, root));
    assert(spec_settled(pe, min, max, tables, ptr));
    assert(spec_is_linked(tables, va, root));
    let at = spec_position(tables, va);
    assert(tables[at].va == va);
    assert(at != 0);
    if tables.len() >= 3 {
        assert(expected.contains(tables[0].va));
        assert(expected.contains(tables[1].va));
        assert(expected.contains(tables[2].va));
    }
    lemma_position_is_unique(pe, tables, 1);
    assert(expected.contains(tables[1].va));
}

/// Whether `pe` holds a chain of three tables under the root and an
/// interface table that the middle one names: the candidates `first`,
/// `second` and `third` of the window hold the tables at `a`, `b` and `c`,
/// of which the first derives from the root, the second from the first and
/// the third from the second; the second names the table at `interface`;
/// the three name no interface table but those five; and no other candidate
/// holds a table that derives from one of the five.
pub open spec fn spec_holds_chain_with_interface(
    pe: &PeImage,
    first: u32,
    second: u32,
    third: u32,
    a: u64,
    b: u64,
    c: u64,
    interface: u64,
) -> bool {
    let root = spec_find_root(pe, 0)->Ok_0.va;
    let (min, max) = spec_window(pe, 0, u32::MAX, 0)->Some_0;
    let agenda = spec_agenda(min, max);
    let expected = set![root, a, b, c, interface];
    &&& spec_scan(pe) is Ok
    &&& spec_derived_at(pe, min, max, agenda, expected, first, a, root)
    &&& spec_derived_at(pe, min, max, agenda, expected, second, b, a)
    &&& spec_derived_at(pe, min, max, agenda, expected, third, c, b)
    &&& spec_others_lead_nowhere(pe, min, max, agenda, expected, set![first, second, third])
    &&& interface != 0 && interface != root && interface != a && interface != b && interface
        != c
    &&& spec_parse_method_table(pe, interface) is Ok
    &&& spec_parse_method_table(pe, b)->Ok_0.iface_addresses.contains(interface)
}

/// The tables of such a chain lie at addresses of which no two are the
/// same, and the scan does not leave them.
proof fn lemma_chain_stays_within(
    pe: &PeImage,
    first: u32,
    second: u32,
    third: u32,
    a: u64,
    b: u64,
    c: u64,
    interface: u64,
)
    requires
        spec_holds_chain_with_interface(pe, first, second, third, a, b, c, interface),
    ensures
        ({
            let root = spec_find_root(pe, 0)->Ok_0.va;
            &&& a != root && b != root && c != root && a != b && a != c && b != c
            &&& spec_within(spec_scan(pe)->Ok_0, set![root, a, b, c, interface])
        }),
{
    let root = spec_find_root(pe, 0)->Ok_0.va;
    let (min, max) = spec_window(pe, 0, u32::MAX, 0)->Some_0;
    let agenda = spec_agenda(min, max);
    let expected = set![root, a, b, c, interface];
    let but = set![first, second, third];
    lemma_root_looks_like_root(pe, 0);
    lemma_base_field(pe, min, max, first);
    lemma_base_field(pe, min, max, second);
    lemma_base_field(pe, min, max, third);
    assert(pe.spec_va_to_rva(0) is None);
    assert(a != root && b != root && c != root && a != b && a != c && b != c);
    assert forall|j: int| 0 <= j < agenda.len() implies spec_closed_at(
        pe,
        min,
        max,
        expected,
        #[trigger] agenda[j],
    ) by {
        if agenda[j] != first && agenda[j] != second && agenda[j] != third {
            assert(!but.contains(agenda[j]));
            assert(spec_leads_nowhere(pe, min, max, expected, agenda[j]));
        }
    }
    lemma_scan_stays_within(pe, expected);
}

/// The tables of such a chain are found, each linked to the table that it
/// derives from.
proof fn lemma_chain_is_linked(
    pe: &PeImage,
    first: u32,
    second: u32,
    third: u32,
    a: u64,
    b: u64,
    c: u64,
    interface: u64,
)
    requires
        spec_holds_chain_with_interface(pe, first, second, third, a, b, c, interface),
    ensures
        ({
            let root = spec_find_root(pe, 0)->Ok_0.va;
            let tables = spec_scan(pe)->Ok_0;
            &&& spec_is_linked(tables, a, root)
            &&& spec_is_linked(tables, b, a)
            &&& spec_is_linked(tables, c, b)
        }),
{
    let root = spec_find_root(pe, 0)->Ok_0.va;
    let tables = spec_scan(pe)->Ok_0;
    let (min, max) = spec_window(pe, 0, u32::MAX, 0)->Some_0;
    lemma_scan_is_sound(pe);
    lemma_found_through_base_is_linked(pe, first);
    lemma_found_through_base_is_linked(pe, second);
    lemma_found_through_base_is_linked(pe, third);
    assert(spec_known(tables, root));
    assert(spec_settled(pe, min, max, tables, first));
    assert(spec_is_linked(tables, a, root));
    assert(spec_settled(pe, min, max, tables, second));
    assert(spec_is_linked(tables, b, a));
    assert(spec_settled(pe, min, max, tables, third));
}

/// Where a table of a scan is linked and names an interface table, that
/// table is among the tables and attached to the table that the first
/// derives from.
proof fn lemma_named_interface_is_attached(pe: &PeImage, va: u64, base: u64, interface: u64)
    requires
        spec_scan(pe) is Ok,
        spec_is_linked(spec_scan(pe)->Ok_0, va, base),
        interface != 0,
        spec_parse_method_table(pe, interface) is Ok,
        spec_parse_method_table(pe, va) is Ok,
        spec_parse_method_table(pe, va)->Ok_0.iface_addresses.contains(interface),
    ensures
        spec_known(spec_scan(pe)->Ok_0, base),
        spec_known(spec_scan(pe)->Ok_0, interface),
        spec_scan(pe)->Ok_0[spec_position(spec_scan(pe)->Ok_0, base)].interfaces.contains(
            interface,
        ),
{
    let tables = spec_scan(pe)->Ok_0;
    lemma_scan_is_sound(pe);
    lemma_interfaces_are_attached_to_the_base(pe);
    let at = spec_position(tables, va);
    assert(tables[at].va == va);
    assert(spec_attached(pe, tables, tables[at]));
    assert(spec_read_from(pe, tables[at]));
    let k = choose|k: int|
        0 <= k < tables[at].iface_addresses.len() && tables[at].iface_addresses[k] == interface;
    assert(tables[at].iface_addresses[k] != 0);
    let to = spec_position(tables, base);
    assert(tables[to].va == base);
    assert(tables[to].interfaces.contains(interface));
    assert(spec_links_known(tables, tables[to]));
    let m = choose|m: int|
        0 <= m < tables[to].interfaces.len() && tables[to].interfaces[m] == interface;
    assert(spec_known(tables, tables[to].interfaces[m]));
}

/// Five tables at five addresses, and no table at another address, are
/// five tables.
proof fn lemma_five_tables(
    tables: Seq<MethodTableView>,
    v0: u64,
    v1: u64,
    v2: u64,
    v3: u64,
    v4: u64,
)
    requires
        crate::binary::laws::spec_distinct(tables),
        spec_within(tables, set![v0, v1, v2, v3, v4]),
        spec_known(tables, v0),
        spec_known(tables, v1),
        spec_known(tables, v2),
        spec_known(tables, v3),
        spec_known(tables, v4),
        v0 != v1 && v0 != v2 && v0 != v3 && v0 != v4,
        v1 != v2 && v1 != v3 && v1 != v4,
        v2 != v3 && v2 != v4,
        v3 != v4,
    ensures
        tables.len() == 5,
{
    let expected = set![v0, v1, v2, v3, v4];
    let at0 = spec_position(tables, v0);
    let at1 = spec_position(tables, v1);
    let at2 = spec_position(tables, v2);
    let at3 = spec_position(tables, v3);
    let at4 = spec_position(tables, v4);
    assert(tables[at0].va == v0 && tables[at1].va == v1 && tables[at2].va == v2 && tables[at3].va
        == v3 && tables[at4].va == v4);
    assert(at0 != at1 && at0 != at2 && at0 != at3 && at0 != at4 && at1 != at2 && at1 != at3 && at1 != at4
        && at2 != at3 && at2 != at4 && at3 != at4);
    if tables.len() >= 6 {
        assert(expected.contains(tables[0].va));
        assert(expected.contains(tables[1].va));
        assert(expected.contains(tables[2].va));
        assert(expected.contains(tables[3].va));
        assert(expected.contains(tables[4].va));
        assert(expected.contains(tables[5].va));
    }
}

/// The scan of an image that holds a chain of three tables under the root
/// and an interface table that the middle one names: the result holds
/// exactly those five tables, each once; the three are linked to the
/// tables that they derive from, the root is linked to none, and the
/// interface table is attached to the table that the middle one derives
/// from.
pub proof fn lemma_scan_of_a_chain_with_an_interface(
    pe: &PeImage,
    first: u32,
    second: u32,
    third: u32,
    a: u64,
    b: u64,
    c: u64,
    interface: u64,
)
    requires
        spec_holds_chain_with_interface(pe, first, second, third, a, b, c, interface),
    ensures
        ({
            let root = spec_find_root(pe, 0)->Ok_0.va;
            let tables = spec_scan(pe)->Ok_0;
            &&& tables.len() == 5
            &&& spec_sound(pe, tables)
            &&& spec_within(tables, set![root, a, b, c, interface])
            &&& tables[0].va == root && tables[0].related_type is None
            &&& spec_is_linked(tables, a, root)
            &&& spec_is_linked(tables, b, a)
            &&& spec_is_linked(tables, c, b)
            &&& spec_known(tables, interface)
            &&& tables[spec_position(tables, a)].interfaces.contains(interface)
        }),
{
    let root = spec_find_root(pe, 0)->Ok_0.va;
    let tables = spec_scan(pe)->Ok_0;
    lemma_scan_is_sound(pe);
    lemma_root_has_no_related_table(pe);
    lemma_chain_stays_within(pe, first, second, third, a, b, c, interface);
    lemma_chain_is_linked(pe, first, second, third, a, b, c, interface);
    lemma_named_interface_is_attached(pe, b, a, interface);
    assert(spec_known(tables, root));
    lemma_five_tables(tables, root, a, b, c, interface);
}

} // verus!
