pub mod depth;
pub mod headers;
pub mod interfaces;
pub mod laws;
pub mod links;
pub mod scan;
pub mod shapes;

use vstd::prelude::*;

use crate::binary::headers::mt::{
    spec_parse_method_table, ElementType, MethodTable, MethodTableView,
};
use crate::binary::headers::rtr::{
    spec_header_fields, spec_section_entries, ReadyToRunHeader, RtrError,
};
use crate::native_format::hashtable::spec_left;
use crate::native_format::reader::{le_u32_at, le_u64_at, spec_read_u32, spec_read_u64};
use crate::native_format::ImageView;
use crate::pe::{
    spec_name_is, spec_section_by_name, spec_section_by_rva, spec_wrapping_sum, PeImage,
};

verus! {

/// Why no ReadyToRun header was found in an image.
#[derive(Clone, Copy, Debug, PartialEq, Eq, Structural)]
pub enum LoadError {
    /// None of the data sections holds a header that can be read.
    HeaderNotFound,
}

/// Why the method tables of an image cannot be scanned.
#[derive(Clone, Copy, Debug, PartialEq, Eq, Structural)]
pub enum ScanError {
    /// The image lacks one of the data sections.
    MissingSection,
    /// No data section holds the address of a method table that looks like
    /// the root of the type hierarchy.
    RootNotFound,
}

/// An image together with its ReadyToRun header.
pub struct NativeAotBinary<'a> {
    pub pe: &'a PeImage,
    pub rtr: ReadyToRunHeader<'a>,
}

/// The name of the `index`-th of the three sections that are searched for
/// data, as the section table stores it: `.rdata`, `.pdata` and `.data`.
pub open spec fn spec_candidate_name(index: int) -> Seq<u8> {
    if index == 0 {
        seq![0x2eu8, 0x72u8, 0x64u8, 0x61u8, 0x74u8, 0x61u8, 0u8, 0u8]
    } else if index == 1 {
        seq![0x2eu8, 0x70u8, 0x64u8, 0x61u8, 0x74u8, 0x61u8, 0u8, 0u8]
    } else {
        seq![0x2eu8, 0x64u8, 0x61u8, 0x74u8, 0x61u8, 0u8, 0u8, 0u8]
    }
}

/// The name of the code section as the section table stores it: `.text`.
pub open spec fn spec_text_name() -> Seq<u8> {
    seq![0x2eu8, 0x74u8, 0x65u8, 0x78u8, 0x74u8, 0u8, 0u8, 0u8]
}

/// Whether `header` is what the image holds at `va`.
pub open spec fn spec_is_header_at(pe: &PeImage, va: u64, header: ReadyToRunHeader<'_>) -> bool {
    match spec_header_fields(pe, va) {
        Err(_) => false,
        Ok(fields) => match spec_section_entries(pe, va, fields.3 as nat) {
            None => false,
            Some(sections) => header.major_version == fields.0 && header.minor_version == fields.1
                && header.flags == fields.2 && header.number_of_sections == fields.3
                && header.entry_size == fields.4 && header.entry_type == fields.5
                && header.sections@ == sections,
        },
    }
}

/// Whether a header can be read at `va`.
pub open spec fn spec_header_parses(pe: &PeImage, va: u64) -> bool {
    match spec_header_fields(pe, va) {
        Err(_) => false,
        Ok(fields) => spec_section_entries(pe, va, fields.3 as nat) is Some,
    }
}

/// The address of the header that the file offset `offset` holds: the four
/// bytes there are the mark, the offset is mapped to an address, and a
/// header can be read at that address.
pub open spec fn spec_header_at_offset(pe: &PeImage, offset: int) -> Option<u64> {
    if spec_read_u32(pe.image@, offset) != Some(0x00525452u32) {
        None
    } else {
        match pe.spec_file_offset_to_rva(offset) {
            None => None,
            Some(rva) => match pe.spec_rva_to_va(rva) {
                None => None,
                Some(va) => if spec_header_parses(pe, va) {
                    Some(va)
                } else {
                    None
                },
            },
        }
    }
}

/// The address of the first header that the file offsets from `offset` up to
/// `end` hold, in steps of eight bytes.
pub open spec fn spec_header_in_range(pe: &PeImage, offset: int, end: int) -> Option<u64>
    decreases spec_left(offset, end),
{
    if offset >= end {
        None
    } else {
        match spec_header_at_offset(pe, offset) {
            Some(va) => Some(va),
            None => spec_header_in_range(pe, offset + 8, end),
        }
    }
}

/// The address of the first header that the data sections from the
/// `candidate`-th on hold. A section that the image lacks is passed over.
pub open spec fn spec_locate_header(pe: &PeImage, candidate: int) -> Option<u64>
    decreases 3 - candidate,
{
    if candidate < 0 || candidate >= 3 {
        None
    } else {
        match spec_section_by_name(pe.sections@, spec_candidate_name(candidate), 0) {
            None => spec_locate_header(pe, candidate + 1),
            Some(index) => {
                let section = pe.sections@[index];
                match spec_header_in_range(
                    pe,
                    section.pointer_to_raw_data as int,
                    spec_wrapping_sum(section.pointer_to_raw_data, section.size_of_raw_data),
                ) {
                    Some(va) => Some(va),
                    None => spec_locate_header(pe, candidate + 1),
                }
            },
        }
    }
}

/// Whether the address `va` lies in the section called `.text`.
pub open spec fn spec_in_text(pe: &PeImage, va: u64) -> bool {
    match pe.spec_va_to_rva(va) {
        None => false,
        Some(rva) => match spec_section_by_rva(pe.sections@, rva, 0) {
            None => false,
            Some(index) => spec_name_is(pe.sections@[index].name@, spec_text_name()),
        },
    }
}

/// Whether `table` looks like the root of the type hierarchy: a class of
/// base size 0x18 without related type and without interfaces, whose three
/// vtable slots all point into the code section.
pub open spec fn spec_is_root(pe: &PeImage, table: MethodTableView) -> bool {
    &&& table.element_type == ElementType::Class
    &&& table.base_size == 0x18
    &&& table.related_type_address == 0
    &&& table.vtable_addresses.len() == 3
    &&& table.iface_addresses.len() == 0
    &&& forall|i: int| 0 <= i < 3 ==> spec_in_text(pe, #[trigger] table.vtable_addresses[i])
}

/// The root that the file offset `offset` refers to: the eight bytes there
/// are the address of a method table that looks like the root.
pub open spec fn spec_root_at_offset(pe: &PeImage, offset: int) -> Option<MethodTableView> {
    match spec_read_u64(pe.image@, offset) {
        None => None,
        Some(va) => match spec_parse_method_table(pe, va) {
            Ok(table) => if spec_is_root(pe, table) {
                Some(table)
            } else {
                None
            },
            Err(_) => None,
        },
    }
}

/// The first root that the file offsets from `offset` up to `end` refer to,
/// in steps of eight bytes.
pub open spec fn spec_root_in_range(pe: &PeImage, offset: int, end: int) -> Option<
    MethodTableView,
>
    decreases spec_left(offset, end),
{
    if offset >= end {
        None
    } else {
        match spec_root_at_offset(pe, offset) {
            Some(table) => Some(table),
            None => spec_root_in_range(pe, offset + 8, end),
        }
    }
}

/// The first root that the data sections from the `candidate`-th on refer
/// to. Every section that is searched must be there.
pub open spec fn spec_find_root(pe: &PeImage, candidate: int) -> Result<MethodTableView, ScanError>
    decreases 3 - candidate,
{
    if candidate < 0 || candidate >= 3 {
        Err(ScanError::RootNotFound)
    } else {
        match spec_section_by_name(pe.sections@, spec_candidate_name(candidate), 0) {
            None => Err(ScanError::MissingSection),
            Some(index) => {
                let section = pe.sections@[index];
                match spec_root_in_range(
                    pe,
                    section.pointer_to_raw_data as int,
                    spec_wrapping_sum(section.pointer_to_raw_data, section.size_of_raw_data),
                ) {
                    Some(table) => Ok(table),
                    None => spec_find_root(pe, candidate + 1),
                }
            },
        }
    }
}

/// The name of the `index`-th data section.
pub(crate) fn candidate_name(index: usize) -> (name: [u8; 8])
    ensures
        name@ == spec_candidate_name(index as int),
{
    if index == 0 {
        let name: [u8; 8] = [0x2e, 0x72, 0x64, 0x61, 0x74, 0x61, 0, 0];
        assert(name@ =~= spec_candidate_name(0));
        name
    } else if index == 1 {
        let name: [u8; 8] = [0x2e, 0x70, 0x64, 0x61, 0x74, 0x61, 0, 0];
        assert(name@ =~= spec_candidate_name(1));
        name
    } else {
        let name: [u8; 8] = [0x2e, 0x64, 0x61, 0x74, 0x61, 0, 0, 0];
        assert(name@ =~= spec_candidate_name(index as int));
        name
    }
}

/// Whether the address `va` lies in the section called `.text`.
pub fn in_text(pe: &PeImage, va: u64) -> (inside: bool)
    ensures
        inside == spec_in_text(pe, va),
{
    let text: [u8; 8] = [0x2e, 0x74, 0x65, 0x78, 0x74, 0, 0, 0];
    assert(text@ =~= spec_text_name());
    match pe.va_to_rva(va) {
        None => false,
        Some(rva) => match pe.section_by_rva(rva) {
            None => false,
            Some(index) => pe.sections[index].name_is(text.as_slice()),
        },
    }
}

/// Whether `table` looks like the root of the type hierarchy.
pub fn is_root(pe: &PeImage, table: &MethodTable) -> (root: bool)
    ensures
        root == spec_is_root(pe, table@),
{
    if table.element_type != ElementType::Class {
        return false;
    }
    if table.base_size != 0x18 {
        return false;
    }
    if table.related_type_address != 0 {
        return false;
    }
    if table.vtable_addresses.len() != 3 {
        return false;
    }
    if table.iface_addresses.len() != 0 {
        return false;
    }
    let mut i: usize = 0;
    while i < 3
        invariant
            i <= 3,
            table.vtable_addresses@.len() == 3,
            forall|k: int| 0 <= k < i ==> spec_in_text(pe, #[trigger] table.vtable_addresses@[k]),
        decreases 3 - i,
    {
        if !in_text(pe, table.vtable_addresses[i]) {
            return false;
        }
        i = i + 1;
    }
    true
}

impl<'a> NativeAotBinary<'a> {
    /// The binary whose header lies at the known address `rtr_address`.
    pub fn from_pe(pe: &'a PeImage, rtr_address: u64) -> (r: Result<Self, RtrError>)
        ensures
            match spec_header_fields(pe, rtr_address) {
                Err(e) => r is Err && r->Err_0 == e,
                Ok(fields) => match spec_section_entries(pe, rtr_address, fields.3 as nat) {
                    None => r is Err && r->Err_0 == RtrError::Unreadable,
                    Some(_) => r is Ok && r->Ok_0.pe == pe && spec_is_header_at(
                        pe,
                        rtr_address,
                        r->Ok_0.rtr,
                    ),
                },
            },
    {
        match ReadyToRunHeader::parse(ImageView::new(pe, rtr_address)) {
            Ok(rtr) => Ok(Self { pe, rtr }),
            Err(e) => Err(e),
        }
    }

    /// The binary whose header is found by search: the data sections are
    /// gone through in order and in steps of eight bytes, and the first
    /// place that holds the mark of a header and from which a header can be
    /// read decides.
    pub fn load_pe(pe: &'a PeImage) -> (r: Result<Self, LoadError>)
        ensures
            match spec_locate_header(pe, 0) {
                Some(va) => r is Ok && r->Ok_0.pe == pe && spec_is_header_at(pe, va, r->Ok_0.rtr),
                None => r is Err && r->Err_0 == LoadError::HeaderNotFound,
            },
    {
        let mut candidate: usize = 0;
        while candidate < 3
            invariant
                candidate <= 3,
                spec_locate_header(pe, candidate as int) == spec_locate_header(pe, 0),
            decreases 3 - candidate,
        {
            let name = candidate_name(candidate);
            match pe.section_by_name(name.as_slice()) {
                None => {},
                Some(index) => {
                    let (start, end) = pe.sections[index].file_range();
                    let mut offset: u64 = start as u64;
                    while offset < end as u64
                        invariant
                            candidate < 3,
                            spec_section_by_name(
                                pe.sections@,
                                spec_candidate_name(candidate as int),
                                0,
                            ) == Some(index as int),
                            start == pe.sections@[index as int].pointer_to_raw_data,
                            end == spec_wrapping_sum(
                                pe.sections@[index as int].pointer_to_raw_data,
                                pe.sections@[index as int].size_of_raw_data,
                            ),
                            spec_locate_header(pe, candidate as int) == spec_locate_header(pe, 0),
                            spec_header_in_range(pe, offset as int, end as int)
                                == spec_header_in_range(pe, start as int, end as int),
                        decreases spec_left(offset as int, end as int),
                    {
                        if let Some(binary) = Self::header_at_offset(pe, offset as usize) {
                            return Ok(binary);
                        }
                        offset = offset + 8;
                    }
                },
            }
            candidate = candidate + 1;
        }
        Err(LoadError::HeaderNotFound)
    }

    /// The binary whose header the file offset `offset` holds.
    fn header_at_offset(pe: &'a PeImage, offset: usize) -> (r: Option<Self>)
        ensures
            match spec_header_at_offset(pe, offset as int) {
                Some(va) => r is Some && r->Some_0.pe == pe && spec_is_header_at(
                    pe,
                    va,
                    r->Some_0.rtr,
                ),
                None => r is None,
            },
    {
        match le_u32_at(pe.image.as_slice(), offset) {
            Some(mark) => {
                if mark != 0x00525452 {
                    return None;
                }
            },
            None => {
                return None;
            },
        }
        let rva = match pe.file_offset_to_rva(offset) {
            Some(rva) => rva,
            None => {
                return None;
            },
        };
        let va = match pe.rva_to_va(rva) {
            Some(va) => va,
            None => {
                return None;
            },
        };
        match ReadyToRunHeader::parse(ImageView::new(pe, va)) {
            Ok(rtr) => Some(Self { pe, rtr }),
            Err(_) => None,
        }
    }

    /// The ReadyToRun header.
    pub fn rtr_header(&self) -> (header: &ReadyToRunHeader<'a>)
        ensures
            *header == self.rtr,
    {
        &self.rtr
    }

    /// The root that the file offset `offset` refers to.
    fn root_at_offset(pe: &PeImage, offset: usize) -> (r: Option<MethodTable>)
        ensures
            match spec_root_at_offset(pe, offset as int) {
                Some(table) => r is Some && r->Some_0@ == table,
                None => r is None,
            },
    {
        let va = match le_u64_at(pe.image.as_slice(), offset) {
            Some(va) => va,
            None => {
                return None;
            },
        };
        match MethodTable::parse(ImageView::new(pe, va)) {
            Ok(table) => {
                if is_root(pe, &table) {
                    Some(table)
                } else {
                    None
                }
            },
            Err(_) => None,
        }
    }

    /// The method table of the root of the type hierarchy: the data
    /// sections are gone through in order and in steps of eight bytes, and
    /// the first place that holds the address of a method table that looks
    /// like the root decides.
    pub fn find_object_mt(&self) -> (r: Result<MethodTable, ScanError>)
        ensures
            match spec_find_root(self.pe, 0) {
                Ok(table) => r is Ok && r->Ok_0@ == table,
                Err(e) => r is Err && r->Err_0 == e,
            },
    {
        let pe = self.pe;
        let mut candidate: usize = 0;
        while candidate < 3
            invariant
                candidate <= 3,
                pe == self.pe,
                spec_find_root(pe, candidate as int) == spec_find_root(pe, 0),
            decreases 3 - candidate,
        {
            let name = candidate_name(candidate);
            match pe.section_by_name(name.as_slice()) {
                None => {
                    return Err(ScanError::MissingSection);
                },
                Some(index) => {
                    let (start, end) = pe.sections[index].file_range();
                    let mut offset: u64 = start as u64;
                    while offset < end as u64
                        invariant
                            candidate < 3,
                            pe == self.pe,
                            spec_section_by_name(
                                pe.sections@,
                                spec_candidate_name(candidate as int),
                                0,
                            ) == Some(index as int),
                            start == pe.sections@[index as int].pointer_to_raw_data,
                            end == spec_wrapping_sum(
                                pe.sections@[index as int].pointer_to_raw_data,
                                pe.sections@[index as int].size_of_raw_data,
                            ),
                            spec_find_root(pe, candidate as int) == spec_find_root(pe, 0),
                            spec_root_in_range(pe, offset as int, end as int)
                                == spec_root_in_range(pe, start as int, end as int),
                        decreases spec_left(offset as int, end as int),
                    {
                        if let Some(table) = Self::root_at_offset(pe, offset as usize) {
                            return Ok(table);
                        }
                        offset = offset + 8;
                    }
                },
            }
            candidate = candidate + 1;
        }
        Err(ScanError::RootNotFound)
    }
}

} // verus!
