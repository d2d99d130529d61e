pub mod encoding;
pub mod hashtable;
pub mod parser;
pub mod readable;
pub mod reader;
pub mod ref_table;

use vstd::prelude::*;
use vstd::slice::slice_subrange;

use crate::error::AotError;
use crate::native_format::reader::{
    le_u16_at, le_u32_at, le_u64_at, le_u8_at, spec_read_u16, spec_read_u32, spec_read_u64,
    spec_read_u8,
};
use crate::pe::PeImage;

verus! {

/// The sum of an address and a distance as 64-bit arithmetic gives it.
pub open spec fn spec_wrapping_va(va: u64, distance: u64) -> u64 {
    if va + distance > u64::MAX {
        (va + distance - 0x1_0000_0000_0000_0000) as u64
    } else {
        (va + distance) as u64
    }
}

/// The bytes of the file from the one stored for the virtual address `va`
/// to the end of the region that stores it: the headers, or the raw data of
/// a section, as far as the file holds it.
pub open spec fn spec_bytes_at(pe: &PeImage, va: u64) -> Option<Seq<u8>> {
    match (pe.spec_va_to_file_offset(va), pe.spec_va_to_region_end(va)) {
        (Some(offset), Some(end)) => {
            let stop = if end <= pe.image@.len() {
                end
            } else {
                pe.image@.len() as int
            };
            if offset <= stop {
                Some(pe.image@.subrange(offset, stop))
            } else {
                None
            }
        },
        _ => None,
    }
}

/// The byte stored for the virtual address `va`.
pub open spec fn spec_u8_at(pe: &PeImage, va: u64) -> Option<u8> {
    match pe.spec_va_to_file_offset(va) {
        Some(offset) => spec_read_u8(pe.image@, offset),
        None => None,
    }
}

/// The little-endian 16-bit value stored from the virtual address `va` on.
pub open spec fn spec_u16_at(pe: &PeImage, va: u64) -> Option<u16> {
    match pe.spec_va_to_file_offset(va) {
        Some(offset) => spec_read_u16(pe.image@, offset),
        None => None,
    }
}

/// The little-endian 32-bit value stored from the virtual address `va` on.
pub open spec fn spec_u32_at(pe: &PeImage, va: u64) -> Option<u32> {
    match pe.spec_va_to_file_offset(va) {
        Some(offset) => spec_read_u32(pe.image@, offset),
        None => None,
    }
}

/// The little-endian 64-bit value stored from the virtual address `va` on.
pub open spec fn spec_u64_at(pe: &PeImage, va: u64) -> Option<u64> {
    match pe.spec_va_to_file_offset(va) {
        Some(offset) => spec_read_u64(pe.image@, offset),
        None => None,
    }
}

/// A cursor over the memory of an image: the image, a base address and a
/// distance from it. Every access is checked against the image.
#[derive(Clone, Copy)]
pub struct ImageView<'a> {
    pub pe: &'a PeImage,
    pub base: u64,
    pub offset: u64,
}

impl<'a> ImageView<'a> {
    /// The base address.
    pub open spec fn spec_base(&self) -> u64 {
        self.base
    }

    /// The distance of the cursor from the base address.
    pub open spec fn spec_offset(&self) -> u64 {
        self.offset
    }

    /// The address at which the cursor stands.
    pub open spec fn spec_va(&self) -> u64 {
        spec_wrapping_va(self.spec_base(), self.spec_offset())
    }

    /// A view that stands at `va`.
    pub fn new(pe: &'a PeImage, va: u64) -> (view: Self)
        ensures
            view.pe == pe,
            view.spec_base() == va,
            view.spec_offset() == 0,
            view.spec_va() == va,
    {
        Self { pe, base: va, offset: 0 }
    }

    /// The address at which the cursor stands.
    pub fn va(self) -> (va: u64)
        ensures
            va == self.spec_va(),
    {
        self.base.wrapping_add(self.offset)
    }

    /// The bytes of the file from the cursor to the end of the region that
    /// holds it.
    pub fn bytes(self) -> (r: Result<&'a [u8], AotError>)
        ensures
            match spec_bytes_at(self.pe, self.spec_va()) {
                Some(bytes) => r is Ok && r->Ok_0@ == bytes,
                None => r is Err && r->Err_0 == AotError::BadImage,
            },
    {
        let pe: &'a PeImage = self.pe;
        match pe.va_to_file_region(self.va()) {
            Some((offset, end)) => {
                let image: &'a [u8] = pe.image.as_slice();
                let stop: usize = if end <= image.len() {
                    end
                } else {
                    image.len()
                };
                if offset > stop {
                    Err(AotError::BadImage)
                } else {
                    Ok(slice_subrange(image, offset, stop))
                }
            },
            None => Err(AotError::BadImage),
        }
    }

    /// A view of the same image whose base lies `offset` behind this one's.
    pub fn with_offset(self, offset: u64) -> (view: Self)
        ensures
            view.pe == self.pe,
            view.spec_base() == spec_wrapping_va(self.spec_base(), offset),
            view.spec_offset() == 0,
    {
        Self::new(self.pe, self.base.wrapping_add(offset))
    }

    /// The distance of the cursor from the base address.
    pub fn tell(&self) -> (offset: u64)
        ensures
            offset == self.spec_offset(),
    {
        self.offset
    }

    /// Puts the cursor at the distance `to` from the base address.
    pub fn seek(&mut self, to: u64)
        ensures
            final(self).pe == old(self).pe,
            final(self).spec_base() == old(self).spec_base(),
            final(self).spec_offset() == to,
    {
        self.offset = to;
    }

    /// The byte at the cursor.
    pub fn read_u8(self) -> (r: Option<u8>)
        ensures
            r == spec_u8_at(self.pe, self.spec_va()),
    {
        read_u8_at(self.pe, self.va())
    }

    /// The little-endian 16-bit value at the cursor.
    pub fn read_u16(self) -> (r: Option<u16>)
        ensures
            r == spec_u16_at(self.pe, self.spec_va()),
    {
        read_u16_at(self.pe, self.va())
    }

    /// The little-endian 32-bit value at the cursor.
    pub fn read_u32(self) -> (r: Option<u32>)
        ensures
            r == spec_u32_at(self.pe, self.spec_va()),
    {
        read_u32_at(self.pe, self.va())
    }

    /// The little-endian 64-bit value at the cursor.
    pub fn read_u64(self) -> (r: Option<u64>)
        ensures
            r == spec_u64_at(self.pe, self.spec_va()),
    {
        read_u64_at(self.pe, self.va())
    }
}

/// The byte stored for the virtual address `va`.
pub fn read_u8_at(pe: &PeImage, va: u64) -> (r: Option<u8>)
    ensures
        r == spec_u8_at(pe, va),
{
    match pe.va_to_file_offset(va) {
        Some(offset) => le_u8_at(pe.image.as_slice(), offset),
        None => None,
    }
}

/// The little-endian 16-bit value stored from the virtual address `va` on.
pub fn read_u16_at(pe: &PeImage, va: u64) -> (r: Option<u16>)
    ensures
        r == spec_u16_at(pe, va),
{
    match pe.va_to_file_offset(va) {
        Some(offset) => le_u16_at(pe.image.as_slice(), offset),
        None => None,
    }
}

/// The little-endian 32-bit value stored from the virtual address `va` on.
pub fn read_u32_at(pe: &PeImage, va: u64) -> (r: Option<u32>)
    ensures
        r == spec_u32_at(pe, va),
{
    match pe.va_to_file_offset(va) {
        Some(offset) => le_u32_at(pe.image.as_slice(), offset),
        None => None,
    }
}

/// The little-endian 64-bit value stored from the virtual address `va` on.
pub fn read_u64_at(pe: &PeImage, va: u64) -> (r: Option<u64>)
    ensures
        r == spec_u64_at(pe, va),
{
    match pe.va_to_file_offset(va) {
        Some(offset) => le_u64_at(pe.image.as_slice(), offset),
        None => None,
    }
}

} // verus!
