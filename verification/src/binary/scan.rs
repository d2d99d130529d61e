use std::collections::HashMap;
use vstd::prelude::*;

use crate::binary::headers::mt::{
    spec_field_u64, spec_parse_method_table, MethodTable, MethodTableView,
};
use crate::binary::{spec_candidate_name, spec_find_root, NativeAotBinary, ScanError};
use crate::native_format::{read_u64_at, ImageView};
use crate::pe::{spec_section_by_name, PeImage};

verus! {

// ---------------------------------------------------------------------------
// The model of a crawl
// ---------------------------------------------------------------------------

/// The method tables of `tables` as the contracts speak of them.
pub open spec fn spec_views(tables: Seq<MethodTable>) -> Seq<MethodTableView> {
    Seq::new(tables.len(), |i: int| tables[i]@)
}

/// Whether `tables` holds the method table at `va`.
pub open spec fn spec_known(tables: Seq<MethodTableView>, va: u64) -> bool {
    exists|i: int| 0 <= i < tables.len() && (#[trigger] tables[i]).va == va
}

/// Where `tables` holds the method table at `va`.
pub open spec fn spec_position(tables: Seq<MethodTableView>, va: u64) -> int {
    choose|i: int| 0 <= i < tables.len() && (#[trigger] tables[i]).va == va
}

/// `tables` with the method table at `va` in it: as it is where it holds
/// that table already, else with what can be read at `va` added at the end.
/// The flag says whether the table is there.
pub open spec fn spec_obtain(pe: &PeImage, tables: Seq<MethodTableView>, va: u64) -> (
    Seq<MethodTableView>,
    bool,
) {
    if spec_known(tables, va) {
        (tables, true)
    } else {
        match spec_parse_method_table(pe, va) {
            Ok(table) => (tables.push(table), true),
            Err(_) => (tables, false),
        }
    }
}

/// `tables` with the interface tables at `addresses`, from the `from`-th
/// address on, in it, and `found` with the addresses of those that are
/// there. A zero address names no interface.
pub open spec fn spec_attach(
    pe: &PeImage,
    tables: Seq<MethodTableView>,
    addresses: Seq<u64>,
    from: int,
    found: Seq<u64>,
) -> (Seq<MethodTableView>, Seq<u64>)
    decreases addresses.len() - from,
{
    if from < 0 || from >= addresses.len() {
        (tables, found)
    } else if addresses[from] == 0 {
        spec_attach(pe, tables, addresses, from + 1, found)
    } else {
        let (next, there) = spec_obtain(pe, tables, addresses[from]);
        spec_attach(
            pe,
            next,
            addresses,
            from + 1,
            if there {
                found.push(addresses[from])
            } else {
                found
            },
        )
    }
}

/// `table` with `base` as its related table.
pub open spec fn spec_linked_table(table: MethodTableView, base: u64) -> MethodTableView {
    MethodTableView { related_type: Some(base), ..table }
}

/// `table` with `more` behind the interfaces attached to it.
pub open spec fn spec_extended_table(table: MethodTableView, more: Seq<u64>) -> MethodTableView {
    MethodTableView { interfaces: table.interfaces + more, ..table }
}

/// The address of the candidate `ptr` and the address that its field for
/// the related type holds: `None` where the candidate is no address of the
/// image, where the field cannot be read, and where it points outside the
/// window from `min` up to `max`.
pub open spec fn spec_base_of(pe: &PeImage, min: u32, max: u64, ptr: u32) -> Option<(u64, u64)> {
    match pe.spec_rva_to_va(ptr) {
        None => None,
        Some(va) => match spec_field_u64(pe, va, 8) {
            None => None,
            Some(base) => match pe.spec_va_to_rva(base) {
                None => None,
                Some(rva) => if rva < min || rva >= max {
                    None
                } else {
                    Some((va, base))
                },
            },
        },
    }
}

/// What a visit of the candidate `ptr` makes of `tables`, and whether the
/// candidate has to be visited again. A candidate whose related table is not
/// known yet waits. One whose related table is known is read, linked to that
/// table, and the interface tables it names are read and attached to the
/// related table. All others are dropped.
pub open spec fn spec_visit(
    pe: &PeImage,
    min: u32,
    max: u64,
    tables: Seq<MethodTableView>,
    ptr: u32,
) -> (Seq<MethodTableView>, bool) {
    match spec_base_of(pe, min, max, ptr) {
        None => (tables, false),
        Some((va, base)) => if !spec_known(tables, base) {
            (tables, true)
        } else {
            let (obtained, there) = spec_obtain(pe, tables, va);
            if !there {
                (tables, false)
            } else {
                let at = spec_position(obtained, va);
                let linked = obtained.update(at, spec_linked_table(obtained[at], base));
                let (attached, found) = spec_attach(
                    pe,
                    linked,
                    linked[at].iface_addresses,
                    0,
                    Seq::empty(),
                );
                let to = spec_position(attached, base);
                (attached.update(to, spec_extended_table(attached[to], found)), false)
            }
        },
    }
}

/// What one round over `agenda`, from its `from`-th candidate on, makes of
/// `tables`, and `unmatched` with the candidates that wait for the next
/// round.
pub open spec fn spec_round(
    pe: &PeImage,
    min: u32,
    max: u64,
    tables: Seq<MethodTableView>,
    unmatched: Seq<u32>,
    agenda: Seq<u32>,
    from: int,
) -> (Seq<MethodTableView>, Seq<u32>)
    decreases agenda.len() - from,
{
    if from < 0 || from >= agenda.len() {
        (tables, unmatched)
    } else {
        let (next, waits) = spec_visit(pe, min, max, tables, agenda[from]);
        spec_round(
            pe,
            min,
            max,
            next,
            if waits {
                unmatched.push(agenda[from])
            } else {
                unmatched
            },
            agenda,
            from + 1,
        )
    }
}

/// What the rounds make of `tables`: round follows round, each over the
/// candidates that the one before left waiting, until a round leaves as many
/// waiting as it was given.
pub open spec fn spec_crawl(
    pe: &PeImage,
    min: u32,
    max: u64,
    tables: Seq<MethodTableView>,
    agenda: Seq<u32>,
) -> Seq<MethodTableView>
    decreases agenda.len(),
{
    let (next, unmatched) = spec_round(pe, min, max, tables, Seq::empty(), agenda, 0);
    if unmatched.len() >= agenda.len() {
        next
    } else {
        spec_crawl(pe, min, max, next, unmatched)
    }
}

/// The window of addresses that covers the data sections from the
/// `candidate`-th on together with the window from `min` up to `max`.
/// `None` where the image lacks one of the sections.
pub open spec fn spec_window(pe: &PeImage, candidate: int, min: u32, max: u64) -> Option<
    (u32, u64),
>
    decreases 3 - candidate,
{
    if candidate < 0 || candidate >= 3 {
        Some((min, max))
    } else {
        match spec_section_by_name(pe.sections@, spec_candidate_name(candidate), 0) {
            None => None,
            Some(index) => {
                let section = pe.sections@[index];
                let end = section.virtual_address + section.virtual_size;
                spec_window(
                    pe,
                    candidate + 1,
                    if section.virtual_address < min {
                        section.virtual_address
                    } else {
                        min
                    },
                    if end > max {
                        end as u64
                    } else {
                        max
                    },
                )
            },
        }
    }
}

/// The number of candidates in the window from `min` up to `max`.
pub open spec fn spec_agenda_len(min: u32, max: u64) -> nat {
    let limit: int = if max > 0x1_0000_0000 {
        0x1_0000_0000
    } else {
        max as int
    };
    if limit <= min {
        0
    } else {
        ((limit - min + 7) / 8) as nat
    }
}

/// The candidates in the window from `min` up to `max`: every eighth
/// address, from `min` on.
pub open spec fn spec_agenda(min: u32, max: u64) -> Seq<u32> {
    Seq::new(spec_agenda_len(min, max), |k: int| (min + 8 * k) as u32)
}

/// The method tables of the image: the root, and what the crawl over the
/// window of the data sections adds to it.
pub open spec fn spec_scan(pe: &PeImage) -> Result<Seq<MethodTableView>, ScanError> {
    match spec_find_root(pe, 0) {
        Err(e) => Err(e),
        Ok(root) => match spec_window(pe, 0, u32::MAX, 0) {
            None => Err(ScanError::MissingSection),
            Some((min, max)) => Ok(spec_crawl(pe, min, max, seq![root], spec_agenda(min, max))),
        },
    }
}

/// Whether `index` says of every address where `tables` holds its table,
/// and of no other address anything.
pub open spec fn spec_indexed(tables: Seq<MethodTableView>, index: Map<u64, usize>) -> bool {
    &&& forall|i: int|
        0 <= i < tables.len() ==> index.contains_key((#[trigger] tables[i]).va)
            && index[tables[i].va] == i
    &&& forall|va: u64| #[trigger]
        index.contains_key(va) ==> index[va] < tables.len() && tables[index[va] as int].va == va
}

/// With an index, a table is known where the index has its address, and it
/// lies where the index says.
pub(crate) proof fn lemma_index_finds(tables: Seq<MethodTableView>, index: Map<u64, usize>, va: u64)
    requires
        spec_indexed(tables, index),
    ensures
        spec_known(tables, va) == index.contains_key(va),
        index.contains_key(va) ==> spec_position(tables, va) == index[va] && 0 <= index[va]
            < tables.len() && tables[index[va] as int].va == va,
{
    if index.contains_key(va) {
        let at = index[va] as int;
        assert(tables[at].va == va);
        let chosen = spec_position(tables, va);
        assert(tables[chosen].va == va);
    }
}

// ---------------------------------------------------------------------------
// The crawl
// ---------------------------------------------------------------------------

/// Makes sure that `tables` holds the method table at `va`, reading it
/// where it is new, and returns where it lies.
fn obtain(
    pe: &PeImage,
    tables: &mut Vec<MethodTable>,
    index: &mut HashMap<u64, usize>,
    va: u64,
) -> (r: Option<usize>)
    requires
        spec_indexed(spec_views(old(tables)@), old(index)@),
    ensures
        spec_indexed(spec_views(final(tables)@), final(index)@),
        spec_obtain(pe, spec_views(old(tables)@), va) == (spec_views(final(tables)@), r is Some),
        r matches Some(at) ==> at < final(tables)@.len() && final(tables)@[at as int].va == va
            && spec_position(spec_views(final(tables)@), va) == at,
{
    broadcast use vstd::std_specs::hash::group_hash_axioms;

    let ghost before = spec_views(tables@);
    proof {
        lemma_index_finds(before, index@, va);
    }
    if let Some(at) = index.get(&va) {
        return Some(*at);
    }
    match MethodTable::parse(ImageView::new(pe, va)) {
        Ok(table) => {
            let at: usize = tables.len();
            let ghost view = table@;
            tables.push(table);
            index.insert(va, at);
            proof {
                let after = spec_views(tables@);
                assert(after =~= before.push(view));
                assert forall|i: int| 0 <= i < after.len() implies index@.contains_key(
                    (#[trigger] after[i]).va,
                ) && index@[after[i].va] == i by {
                    if i < before.len() {
                        assert(after[i] == before[i]);
                        assert(spec_known(before, before[i].va));
                    }
                }
                assert forall|key: u64| #[trigger] index@.contains_key(key) implies index@[key]
                    < after.len() && after[index@[key] as int].va == key by {
                    if key != va {
                        assert(after[index@[key] as int] == before[index@[key] as int]);
                    }
                }
                lemma_index_finds(after, index@, va);
            }
            Some(at)
        },
        Err(_) => None,
    }
}

/// Makes sure that `tables` holds the interface tables at `addresses` and
/// returns the addresses of those that are there.
fn attach(
    pe: &PeImage,
    tables: &mut Vec<MethodTable>,
    index: &mut HashMap<u64, usize>,
    addresses: &Vec<u64>,
) -> (found: Vec<u64>)
    requires
        spec_indexed(spec_views(old(tables)@), old(index)@),
    ensures
        spec_indexed(spec_views(final(tables)@), final(index)@),
        spec_attach(pe, spec_views(old(tables)@), addresses@, 0, Seq::empty()) == (
            spec_views(final(tables)@),
            found@,
        ),
{
    let mut found: Vec<u64> = Vec::new();
    let mut i: usize = 0;
    while i < addresses.len()
        invariant
            i <= addresses@.len(),
            spec_indexed(spec_views(tables@), index@),
            spec_attach(pe, spec_views(tables@), addresses@, i as int, found@) == spec_attach(
                pe,
                spec_views(old(tables)@),
                addresses@,
                0,
                Seq::empty(),
            ),
        decreases addresses@.len() - i,
    {
        let address: u64 = addresses[i];
        if address != 0 {
            if obtain(pe, tables, index, address).is_some() {
                found.push(address);
            }
        }
        i = i + 1;
    }
    found
}

/// The address of the candidate `ptr` and the address that its field for
/// the related type holds.
fn base_of(pe: &PeImage, min: u32, max: u64, ptr: u32) -> (r: Option<(u64, u64)>)
    ensures
        r == spec_base_of(pe, min, max, ptr),
{
    let va = match pe.rva_to_va(ptr) {
        Some(va) => va,
        None => {
            return None;
        },
    };
    let at = match va.checked_add(8) {
        Some(at) => at,
        None => {
            return None;
        },
    };
    let base = match read_u64_at(pe, at) {
        Some(base) => base,
        None => {
            return None;
        },
    };
    match pe.va_to_rva(base) {
        Some(rva) => {
            if rva < min || rva as u64 >= max {
                None
            } else {
                Some((va, base))
            }
        },
        None => None,
    }
}

/// Visits the candidate `ptr` and says whether it has to be visited again.
fn visit(
    pe: &PeImage,
    min: u32,
    max: u64,
    tables: &mut Vec<MethodTable>,
    index: &mut HashMap<u64, usize>,
    ptr: u32,
) -> (waits: bool)
    requires
        spec_indexed(spec_views(old(tables)@), old(index)@),
    ensures
        spec_indexed(spec_views(final(tables)@), final(index)@),
        spec_visit(pe, min, max, spec_views(old(tables)@), ptr) == (
            spec_views(final(tables)@),
            waits,
        ),
{
    broadcast use vstd::std_specs::hash::group_hash_axioms;

    let ghost before = spec_views(tables@);
    let (va, base) = match base_of(pe, min, max, ptr) {
        Some(pair) => pair,
        None => {
            return false;
        },
    };
    proof {
        lemma_index_finds(before, index@, base);
    }
    if !index.contains_key(&base) {
        return true;
    }
    let at = match obtain(pe, tables, index, va) {
        Some(at) => at,
        None => {
            assert(spec_views(tables@) == before);
            return false;
        },
    };
    let ghost obtained = spec_views(tables@);
    tables[at].related_type = Some(base);
    let ghost linked = spec_views(tables@);
    proof {
        assert(linked =~= obtained.update(at as int, spec_linked_table(obtained[at as int], base)));
        lemma_same_addresses_keep_index(obtained, linked, index@);
    }
    let addresses = clone_addresses(&tables[at].iface_addresses);
    let mut found = attach(pe, tables, index, &addresses);
    let ghost attached = spec_views(tables@);
    let ghost more = found@;
    proof {
        assert(spec_known(obtained, base)) by {
            let i = spec_position(before, base);
            assert(before[i].va == base);
            lemma_obtain_keeps_known(pe, before, va, base);
        }
        assert(spec_known(linked, base)) by {
            let i = spec_position(obtained, base);
            assert(obtained[i].va == base);
            assert(linked[i].va == base);
        }
        lemma_attach_keeps_known(pe, linked, addresses@, 0, Seq::empty(), base);
        lemma_index_finds(attached, index@, base);
    }
    let to: usize = match index.get(&base) {
        Some(to) => *to,
        None => {
            return false;
        },
    };
    tables[to].interfaces.append(&mut found);
    proof {
        let extended = spec_views(tables@);
        assert(extended =~= attached.update(
            to as int,
            spec_extended_table(attached[to as int], more),
        ));
        lemma_same_addresses_keep_index(attached, extended, index@);
    }
    false
}

/// A copy of `addresses`.
fn clone_addresses(addresses: &Vec<u64>) -> (copy: Vec<u64>)
    ensures
        copy@ == addresses@,
{
    let mut copy: Vec<u64> = Vec::new();
    let mut i: usize = 0;
    while i < addresses.len()
        invariant
            i <= addresses@.len(),
            copy@ == addresses@.take(i as int),
        decreases addresses@.len() - i,
    {
        copy.push(addresses[i]);
        assert(copy@ =~= addresses@.take(i + 1));
        i = i + 1;
    }
    assert(copy@ =~= addresses@);
    copy
}

/// An index stays one where the tables keep their addresses.
proof fn lemma_same_addresses_keep_index(
    before: Seq<MethodTableView>,
    after: Seq<MethodTableView>,
    index: Map<u64, usize>,
)
    requires
        spec_indexed(before, index),
        after.len() == before.len(),
        forall|i: int| 0 <= i < before.len() ==> (#[trigger] after[i]).va == before[i].va,
    ensures
        spec_indexed(after, index),
{
    assert forall|i: int| 0 <= i < after.len() implies index.contains_key(
        (#[trigger] after[i]).va,
    ) && index[after[i].va] == i by {
        assert(before[i].va == after[i].va);
    }
    assert forall|va: u64| #[trigger] index.contains_key(va) implies index[va] < after.len()
        && after[index[va] as int].va == va by {
        assert(before[index[va] as int].va == va);
    }
}

/// What is known stays known when a table is obtained.
pub(crate) proof fn lemma_obtain_keeps_known(
    pe: &PeImage,
    tables: Seq<MethodTableView>,
    va: u64,
    other: u64,
)
    requires
        spec_known(tables, other),
    ensures
        spec_known(spec_obtain(pe, tables, va).0, other),
{
    let i = spec_position(tables, other);
    assert(tables[i].va == other);
    let after = spec_obtain(pe, tables, va).0;
    assert(after[i].va == other);
}

/// What is known stays known when interface tables are attached.
pub(crate) proof fn lemma_attach_keeps_known(
    pe: &PeImage,
    tables: Seq<MethodTableView>,
    addresses: Seq<u64>,
    from: int,
    found: Seq<u64>,
    other: u64,
)
    requires
        spec_known(tables, other),
    ensures
        spec_known(spec_attach(pe, tables, addresses, from, found).0, other),
    decreases addresses.len() - from,
{
    if 0 <= from < addresses.len() {
        if addresses[from] == 0 {
            lemma_attach_keeps_known(pe, tables, addresses, from + 1, found, other);
        } else {
            let (next, there) = spec_obtain(pe, tables, addresses[from]);
            lemma_obtain_keeps_known(pe, tables, addresses[from], other);
            lemma_attach_keeps_known(
                pe,
                next,
                addresses,
                from + 1,
                if there {
                    found.push(addresses[from])
                } else {
                    found
                },
                other,
            );
        }
    }
}

/// The window of addresses that covers the three data sections.
fn window(pe: &PeImage) -> (r: Option<(u32, u64)>)
    ensures
        r == spec_window(pe, 0, u32::MAX, 0),
{
    let mut min: u32 = u32::MAX;
    let mut max: u64 = 0;
    let mut candidate: usize = 0;
    while candidate < 3
        invariant
            candidate <= 3,
            spec_window(pe, candidate as int, min, max) == spec_window(pe, 0, u32::MAX, 0),
        decreases 3 - candidate,
    {
        let name = crate::binary::candidate_name(candidate);
        match pe.section_by_name(name.as_slice()) {
            None => {
                return None;
            },
            Some(index) => {
                let section = &pe.sections[index];
                let end: u64 = section.virtual_address as u64 + section.virtual_size as u64;
                if section.virtual_address < min {
                    min = section.virtual_address;
                }
                if end > max {
                    max = end;
                }
            },
        }
        candidate = candidate + 1;
    }
    Some((min, max))
}

/// The candidates in the window from `min` up to `max`.
fn agenda(min: u32, max: u64) -> (candidates: Vec<u32>)
    ensures
        candidates@ == spec_agenda(min, max),
{
    let mut candidates: Vec<u32> = Vec::new();
    let mut ptr: u64 = min as u64;
    while ptr < max && ptr <= 0xFFFF_FFFF
        invariant
            ptr == min + 8 * candidates@.len(),
            candidates@.len() <= spec_agenda_len(min, max),
            ptr < max && ptr <= 0xFFFF_FFFF ==> candidates@.len() < spec_agenda_len(min, max),
            !(ptr < max && ptr <= 0xFFFF_FFFF) ==> candidates@.len() == spec_agenda_len(min, max),
            forall|k: int| 0 <= k < candidates@.len() ==> candidates@[k] == (min + 8 * k) as u32,
        decreases 0x1_0000_0008 - ptr,
    {
        candidates.push(ptr as u32);
        ptr = ptr + 8;
    }
    assert(candidates@ =~= spec_agenda(min, max));
    candidates
}

/// One round over `agenda`: every candidate is visited, and those that wait
/// are returned.
fn round(
    pe: &PeImage,
    min: u32,
    max: u64,
    tables: &mut Vec<MethodTable>,
    index: &mut HashMap<u64, usize>,
    agenda: &Vec<u32>,
) -> (unmatched: Vec<u32>)
    requires
        spec_indexed(spec_views(old(tables)@), old(index)@),
    ensures
        spec_indexed(spec_views(final(tables)@), final(index)@),
        spec_round(pe, min, max, spec_views(old(tables)@), Seq::empty(), agenda@, 0) == (
            spec_views(final(tables)@),
            unmatched@,
        ),
        unmatched@.len() <= agenda@.len(),
{
    let mut unmatched: Vec<u32> = Vec::new();
    let mut i: usize = 0;
    while i < agenda.len()
        invariant
            i <= agenda@.len(),
            unmatched@.len() <= i,
            spec_indexed(spec_views(tables@), index@),
            spec_round(pe, min, max, spec_views(tables@), unmatched@, agenda@, i as int)
                == spec_round(
                pe,
                min,
                max,
                spec_views(old(tables)@),
                Seq::empty(),
                agenda@,
                0,
            ),
        decreases agenda@.len() - i,
    {
        let ptr: u32 = agenda[i];
        if visit(pe, min, max, tables, index, ptr) {
            unmatched.push(ptr);
        }
        i = i + 1;
    }
    unmatched
}

impl<'a> NativeAotBinary<'a> {
    /// The method tables of the image. The root of the type hierarchy is
    /// found first. Then every eighth address of the window that covers the
    /// data sections is a candidate: it is taken for a method table once the
    /// table that its field for the related type points to is known, so
    /// that round by round the tables of deeper types are found, until a
    /// round finds nothing new. The root comes first in the result; the
    /// others follow in the order in which they were found.
    pub fn scan_method_tables(&self) -> (r: Result<Vec<MethodTable>, ScanError>)
        ensures
            match spec_scan(self.pe) {
                Ok(tables) => r is Ok && spec_views(r->Ok_0@) == tables,
                Err(e) => r is Err && r->Err_0 == e,
            },
    {
        broadcast use vstd::std_specs::hash::group_hash_axioms;

        let pe = self.pe;
        let root = match self.find_object_mt() {
            Ok(root) => root,
            Err(e) => {
                return Err(e);
            },
        };
        let (min, max) = match window(pe) {
            Some(bounds) => bounds,
            None => {
                return Err(ScanError::MissingSection);
            },
        };
        let ghost first = root@;
        let mut index: HashMap<u64, usize> = HashMap::new();
        index.insert(root.va, 0);
        let mut tables: Vec<MethodTable> = Vec::new();
        tables.push(root);
        assert(spec_views(tables@) =~= seq![first]);
        let mut agenda = agenda(min, max);
        loop
            invariant
                pe == self.pe,
                spec_indexed(spec_views(tables@), index@),
                spec_crawl(pe, min, max, spec_views(tables@), agenda@) == spec_crawl(
                    pe,
                    min,
                    max,
                    seq![first],
                    spec_agenda(min, max),
                ),
                spec_find_root(pe, 0) == Ok::<MethodTableView, ScanError>(first),
                spec_window(pe, 0, u32::MAX, 0) == Some((min, max)),
            decreases agenda@.len(),
        {
            let unmatched = round(pe, min, max, &mut tables, &mut index, &agenda);
            if unmatched.len() >= agenda.len() {
                return Ok(tables);
            }
            agenda = unmatched;
        }
    }
}

} // verus!
