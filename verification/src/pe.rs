use vstd::prelude::*;

verus! {

/// One row of the section table of an executable.
#[derive(Clone, Copy, Debug)]
pub struct SectionHeader {
    /// The name as the table stores it: eight bytes, padded with zeros.
    pub name: [u8; 8],
    pub virtual_address: u32,
    pub virtual_size: u32,
    pub pointer_to_raw_data: u32,
    pub size_of_raw_data: u32,
}

/// What the image parsers need of a portable executable: the bytes of the
/// file, the address it prefers to be loaded at, the sizes its optional
/// header declares, and its section table.
#[derive(Clone, Debug)]
pub struct PeImage {
    pub image: Vec<u8>,
    pub image_base: u64,
    pub size_of_image: u32,
    pub size_of_headers: u32,
    pub sections: Vec<SectionHeader>,
}

/// The sum of two 32-bit numbers as 32-bit arithmetic gives it.
pub open spec fn spec_wrapping_sum(a: u32, b: u32) -> int {
    if a + b > u32::MAX {
        a + b - 0x1_0000_0000
    } else {
        a + b
    }
}

/// Whether the stored name is `name` followed by zeros only.
pub open spec fn spec_name_is(stored: Seq<u8>, name: Seq<u8>) -> bool {
    &&& name.len() <= stored.len()
    &&& forall|i: int|
        0 <= i < stored.len() ==> #[trigger] stored[i] == if i < name.len() {
            name[i]
        } else {
            0u8
        }
}

/// The index of the first section from `from` on whose name is `name`.
pub open spec fn spec_section_by_name(sections: Seq<SectionHeader>, name: Seq<u8>, from: int)
    -> Option<int>
    decreases sections.len() - from,
{
    if from < 0 || from >= sections.len() {
        None
    } else if spec_name_is(sections[from].name@, name) {
        Some(from)
    } else {
        spec_section_by_name(sections, name, from + 1)
    }
}

/// Whether `rva` lies in the virtual range of `section`.
pub open spec fn spec_section_holds_rva(section: SectionHeader, rva: u32) -> bool {
    section.virtual_address <= rva && rva < spec_wrapping_sum(
        section.virtual_address,
        section.virtual_size,
    )
}

/// The index of the first section from `from` on whose virtual range holds
/// `rva`.
pub open spec fn spec_section_by_rva(sections: Seq<SectionHeader>, rva: u32, from: int) -> Option<
    int,
>
    decreases sections.len() - from,
{
    if from < 0 || from >= sections.len() {
        None
    } else if spec_section_holds_rva(sections[from], rva) {
        Some(from)
    } else {
        spec_section_by_rva(sections, rva, from + 1)
    }
}

/// Whether `rva` lies in the part of the address space that `section`
/// claims: its virtual range or, where that is longer, the length of its raw
/// data.
pub open spec fn spec_section_maps_rva(section: SectionHeader, rva: u32) -> bool {
    let span: u32 = if section.virtual_size >= section.size_of_raw_data {
        section.virtual_size
    } else {
        section.size_of_raw_data
    };
    section.virtual_address <= rva && rva < spec_wrapping_sum(section.virtual_address, span)
}

/// The file offset of `rva` inside `section`, which maps it: `None` where the
/// section's raw range overflows or does not reach as far.
pub open spec fn spec_offset_in_section(section: SectionHeader, rva: u32) -> Option<int> {
    if section.pointer_to_raw_data + section.size_of_raw_data > u32::MAX {
        None
    } else if rva - section.virtual_address < section.size_of_raw_data {
        Some(rva - section.virtual_address + section.pointer_to_raw_data)
    } else {
        None
    }
}

/// The file offset of `rva` by the sections from `from` on: the first
/// section that maps it decides.
pub open spec fn spec_rva_to_section_offset(sections: Seq<SectionHeader>, rva: u32, from: int)
    -> Option<int>
    decreases sections.len() - from,
{
    if from < 0 || from >= sections.len() {
        None
    } else if spec_section_maps_rva(sections[from], rva) {
        spec_offset_in_section(sections[from], rva)
    } else {
        spec_rva_to_section_offset(sections, rva, from + 1)
    }
}

/// The file offset behind the raw data of the section that stores the byte
/// of `rva`, by the sections from `from` on.
pub open spec fn spec_rva_to_section_end(sections: Seq<SectionHeader>, rva: u32, from: int)
    -> Option<int>
    decreases sections.len() - from,
{
    if from < 0 || from >= sections.len() {
        None
    } else if spec_section_maps_rva(sections[from], rva) {
        match spec_offset_in_section(sections[from], rva) {
            Some(_) => Some(sections[from].pointer_to_raw_data + sections[from].size_of_raw_data),
            None => None,
        }
    } else {
        spec_rva_to_section_end(sections, rva, from + 1)
    }
}

/// Whether `offset` lies in the raw data of `section`.
pub open spec fn spec_section_holds_offset(section: SectionHeader, offset: int) -> bool {
    section.pointer_to_raw_data <= offset && offset < spec_wrapping_sum(
        section.pointer_to_raw_data,
        section.size_of_raw_data,
    )
}

/// The address of the file offset `offset` inside `section`, whose raw data
/// holds it: `None` where the section's virtual range overflows or does not
/// reach as far.
pub open spec fn spec_rva_in_section(section: SectionHeader, offset: int) -> Option<u32> {
    if section.virtual_address + section.virtual_size > u32::MAX {
        None
    } else if offset - section.pointer_to_raw_data < section.virtual_size {
        Some((offset - section.pointer_to_raw_data + section.virtual_address) as u32)
    } else {
        None
    }
}

/// The address of the file offset `offset` by the sections from `from` on:
/// the first section whose raw data holds it decides.
pub open spec fn spec_offset_to_section_rva(sections: Seq<SectionHeader>, offset: int, from: int)
    -> Option<u32>
    decreases sections.len() - from,
{
    if from < 0 || from >= sections.len() {
        None
    } else if spec_section_holds_offset(sections[from], offset) {
        spec_rva_in_section(sections[from], offset)
    } else {
        spec_offset_to_section_rva(sections, offset, from + 1)
    }
}

impl SectionHeader {
    /// Whether the section is called `name`.
    pub fn name_is(&self, name: &[u8]) -> (same: bool)
        ensures
            same == spec_name_is(self.name@, name@),
    {
        if name.len() > 8 {
            return false;
        }
        let mut i: usize = 0;
        while i < 8
            invariant
                i <= 8,
                name@.len() <= 8,
                forall|k: int|
                    0 <= k < i ==> #[trigger] self.name@[k] == if k < name@.len() {
                        name@[k]
                    } else {
                        0u8
                    },
            decreases 8 - i,
        {
            let expected: u8 = if i < name.len() {
                name[i]
            } else {
                0
            };
            if self.name[i] != expected {
                return false;
            }
            i = i + 1;
        }
        true
    }

    /// Whether `rva` lies in the virtual range of the section.
    pub fn holds_rva(&self, rva: u32) -> (inside: bool)
        ensures
            inside == spec_section_holds_rva(*self, rva),
    {
        let end: u32 = self.virtual_address.wrapping_add(self.virtual_size);
        self.virtual_address <= rva && rva < end
    }

    /// The start and the end of the section's raw data in the file. The end
    /// wraps round in 32 bits, so it may lie before the start.
    pub fn file_range(&self) -> (range: (u32, u32))
        ensures
            range.0 == self.pointer_to_raw_data,
            range.1 == spec_wrapping_sum(self.pointer_to_raw_data, self.size_of_raw_data),
    {
        (self.pointer_to_raw_data, self.pointer_to_raw_data.wrapping_add(self.size_of_raw_data))
    }
}

impl PeImage {
    /// The address of `va` relative to the image base.
    pub open spec fn spec_va_to_rva(&self, va: u64) -> Option<u32> {
        if va == 0 || va < self.image_base || va - self.image_base > self.size_of_image {
            None
        } else {
            Some((va - self.image_base) as u32)
        }
    }

    /// The virtual address of `rva`.
    pub open spec fn spec_rva_to_va(&self, rva: u32) -> Option<u64> {
        if rva == 0 || rva >= self.size_of_image || self.image_base + rva > u64::MAX {
            None
        } else {
            Some((self.image_base + rva) as u64)
        }
    }

    /// The file offset at which the byte of `rva` is stored. An address
    /// inside the headers is its own offset.
    pub open spec fn spec_rva_to_file_offset(&self, rva: u32) -> Option<int> {
        if rva < self.size_of_headers {
            Some(rva as int)
        } else {
            spec_rva_to_section_offset(self.sections@, rva, 0)
        }
    }

    /// The file offset at which the region ends that stores the byte of
    /// `rva`: the end of the headers for an address inside them, else the
    /// end of the raw data of the section that stores the byte.
    pub open spec fn spec_rva_to_region_end(&self, rva: u32) -> Option<int> {
        if rva < self.size_of_headers {
            Some(self.size_of_headers as int)
        } else {
            spec_rva_to_section_end(self.sections@, rva, 0)
        }
    }

    /// The file offset at which the region ends that stores the byte of
    /// the virtual address `va`.
    pub open spec fn spec_va_to_region_end(&self, va: u64) -> Option<int> {
        match self.spec_va_to_rva(va) {
            Some(rva) => self.spec_rva_to_region_end(rva),
            None => None,
        }
    }

    /// The address at which the byte at the file offset `offset` is mapped.
    pub open spec fn spec_file_offset_to_rva(&self, offset: int) -> Option<u32> {
        if offset < self.size_of_headers {
            Some(offset as u32)
        } else {
            spec_offset_to_section_rva(self.sections@, offset, 0)
        }
    }

    /// The file offset at which the byte of the virtual address `va` is
    /// stored.
    pub open spec fn spec_va_to_file_offset(&self, va: u64) -> Option<int> {
        match self.spec_va_to_rva(va) {
            Some(rva) => self.spec_rva_to_file_offset(rva),
            None => None,
        }
    }

    /// The address of `va` relative to the image base; `None` for zero and
    /// for an address outside the image.
    pub fn va_to_rva(&self, va: u64) -> (r: Option<u32>)
        ensures
            r == self.spec_va_to_rva(va),
    {
        if va == 0 || va < self.image_base || va - self.image_base > self.size_of_image as u64 {
            None
        } else {
            Some((va - self.image_base) as u32)
        }
    }

    /// The virtual address of `rva`; `None` for zero and for an address
    /// outside the image.
    pub fn rva_to_va(&self, rva: u32) -> (r: Option<u64>)
        ensures
            r == self.spec_rva_to_va(rva),
    {
        if rva == 0 || rva >= self.size_of_image {
            None
        } else {
            self.image_base.checked_add(rva as u64)
        }
    }

    /// The file offset at which the byte of `rva` is stored; `None` where no
    /// section stores it.
    pub fn rva_to_file_offset(&self, rva: u32) -> (r: Option<usize>)
        ensures
            match self.spec_rva_to_file_offset(rva) {
                Some(offset) => r is Some && r->Some_0 == offset && 0 <= offset <= u32::MAX,
                None => r is None,
            },
    {
        match self.rva_to_file_region(rva) {
            Some((offset, _)) => Some(offset),
            None => None,
        }
    }

    /// The file offset at which the byte of `rva` is stored, and the file
    /// offset at which the region ends that stores it; `None` where no
    /// section stores the byte.
    pub fn rva_to_file_region(&self, rva: u32) -> (r: Option<(usize, usize)>)
        ensures
            match self.spec_rva_to_file_offset(rva) {
                Some(offset) => r is Some && r->Some_0.0 == offset && self.spec_rva_to_region_end(
                    rva,
                ) == Some(r->Some_0.1 as int) && 0 <= offset < r->Some_0.1 <= u32::MAX,
                None => r is None,
            },
    {
        if rva < self.size_of_headers {
            return Some((rva as usize, self.size_of_headers as usize));
        }
        let mut i: usize = 0;
        while i < self.sections.len()
            invariant
                i <= self.sections@.len(),
                rva >= self.size_of_headers,
                spec_rva_to_section_offset(self.sections@, rva, i as int)
                    == spec_rva_to_section_offset(self.sections@, rva, 0),
                spec_rva_to_section_end(self.sections@, rva, i as int) == spec_rva_to_section_end(
                    self.sections@,
                    rva,
                    0,
                ),
            decreases self.sections@.len() - i,
        {
            let section = &self.sections[i];
            let span: u32 = if section.virtual_size >= section.size_of_raw_data {
                section.virtual_size
            } else {
                section.size_of_raw_data
            };
            let end: u32 = section.virtual_address.wrapping_add(span);
            if section.virtual_address <= rva && rva < end {
                let stop: u32 = match section.pointer_to_raw_data.checked_add(
                    section.size_of_raw_data,
                ) {
                    Some(stop) => stop,
                    None => {
                        return None;
                    },
                };
                let section_offset: u32 = rva - section.virtual_address;
                if section_offset < section.size_of_raw_data {
                    return Some(
                        ((section_offset + section.pointer_to_raw_data) as usize, stop as usize),
                    );
                }
                return None;
            }
            i = i + 1;
        }
        None
    }

    /// The file offset at which the byte of the virtual address `va` is
    /// stored, and the file offset at which the region ends that stores it.
    pub fn va_to_file_region(&self, va: u64) -> (r: Option<(usize, usize)>)
        ensures
            match self.spec_va_to_file_offset(va) {
                Some(offset) => r is Some && r->Some_0.0 == offset && self.spec_va_to_region_end(
                    va,
                ) == Some(r->Some_0.1 as int) && 0 <= offset < r->Some_0.1 <= u32::MAX,
                None => r is None,
            },
    {
        match self.va_to_rva(va) {
            Some(rva) => self.rva_to_file_region(rva),
            None => None,
        }
    }

    /// The address at which the byte at the file offset `offset` is mapped;
    /// `None` where no section maps it.
    pub fn file_offset_to_rva(&self, offset: usize) -> (r: Option<u32>)
        ensures
            r == self.spec_file_offset_to_rva(offset as int),
    {
        if offset < self.size_of_headers as usize {
            return Some(offset as u32);
        }
        let mut i: usize = 0;
        while i < self.sections.len()
            invariant
                i <= self.sections@.len(),
                offset >= self.size_of_headers,
                spec_offset_to_section_rva(self.sections@, offset as int, i as int)
                    == spec_offset_to_section_rva(self.sections@, offset as int, 0),
            decreases self.sections@.len() - i,
        {
            let section = &self.sections[i];
            let end: u32 = section.pointer_to_raw_data.wrapping_add(section.size_of_raw_data);
            if section.pointer_to_raw_data as usize <= offset && offset < end as usize {
                if section.virtual_address.checked_add(section.virtual_size).is_none() {
                    return None;
                }
                let section_offset: u32 = (offset - section.pointer_to_raw_data as usize) as u32;
                if section_offset < section.virtual_size {
                    return Some(section_offset + section.virtual_address);
                }
                return None;
            }
            i = i + 1;
        }
        None
    }

    /// The file offset at which the byte of the virtual address `va` is
    /// stored.
    pub fn va_to_file_offset(&self, va: u64) -> (r: Option<usize>)
        ensures
            match self.spec_va_to_file_offset(va) {
                Some(offset) => r is Some && r->Some_0 == offset && 0 <= offset <= u32::MAX,
                None => r is None,
            },
    {
        match self.va_to_rva(va) {
            Some(rva) => self.rva_to_file_offset(rva),
            None => None,
        }
    }

    /// The first section called `name`.
    pub fn section_by_name(&self, name: &[u8]) -> (r: Option<usize>)
        ensures
            match spec_section_by_name(self.sections@, name@, 0) {
                Some(index) => r is Some && r->Some_0 == index && 0 <= index < self.sections@.len(),
                None => r is None,
            },
    {
        let mut i: usize = 0;
        while i < self.sections.len()
            invariant
                i <= self.sections@.len(),
                spec_section_by_name(self.sections@, name@, i as int) == spec_section_by_name(
                    self.sections@,
                    name@,
                    0,
                ),
            decreases self.sections@.len() - i,
        {
            if self.sections[i].name_is(name) {
                return Some(i);
            }
            i = i + 1;
        }
        None
    }

    /// The first section whose virtual range holds `rva`.
    pub fn section_by_rva(&self, rva: u32) -> (r: Option<usize>)
        ensures
            match spec_section_by_rva(self.sections@, rva, 0) {
                Some(index) => r is Some && r->Some_0 == index && 0 <= index < self.sections@.len(),
                None => r is None,
            },
    {
        let mut i: usize = 0;
        while i < self.sections.len()
            invariant
                i <= self.sections@.len(),
                spec_section_by_rva(self.sections@, rva, i as int) == spec_section_by_rva(
                    self.sections@,
                    rva,
                    0,
                ),
            decreases self.sections@.len() - i,
        {
            if self.sections[i].holds_rva(rva) {
                return Some(i);
            }
            i = i + 1;
        }
        None
    }
}

} // verus!
