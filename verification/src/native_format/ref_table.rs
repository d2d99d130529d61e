use vstd::prelude::*;

use crate::native_format::reader::spec_signed_32;
use crate::native_format::{read_u32_at, spec_u32_at, spec_wrapping_va, ImageView};
use crate::pe::PeImage;

verus! {

/// The address that lies the signed `distance` from `slot`, as 64-bit
/// arithmetic gives it.
pub open spec fn spec_relative_va(slot: u64, distance: int) -> u64 {
    if slot + distance < 0 {
        (slot + distance + 0x1_0000_0000_0000_0000) as u64
    } else if slot + distance > u64::MAX {
        (slot + distance - 0x1_0000_0000_0000_0000) as u64
    } else {
        (slot + distance) as u64
    }
}

/// The address of the slot `index` of a table that starts at `base`.
pub open spec fn spec_slot_va(base: u64, index: u32) -> u64 {
    spec_wrapping_va(base, (index as u64 * 4) as u64)
}

/// The address that the slot `index` of the table at `base` with `count`
/// slots refers to: the slot holds the signed distance from itself to its
/// target. An index above `count` refers to nothing.
pub open spec fn spec_resolve(pe: &PeImage, base: u64, count: u64, index: u32) -> Option<u64> {
    if index > count {
        None
    } else {
        match spec_u32_at(pe, spec_slot_va(base, index)) {
            Some(raw) => Some(
                spec_relative_va(spec_slot_va(base, index), spec_signed_32(raw as int)),
            ),
            None => None,
        }
    }
}

/// A table of 32-bit self-relative references inside the image.
#[derive(Clone, Copy)]
pub struct ExternalReferencesTable<'a> {
    view: ImageView<'a>,
    count: u64,
}

impl<'a> ExternalReferencesTable<'a> {
    /// The image that the table lies in.
    pub closed spec fn pe(&self) -> &PeImage {
        self.view.pe
    }

    /// The address of the first slot.
    pub closed spec fn base(&self) -> u64 {
        self.view.spec_base()
    }

    /// The number of slots.
    pub closed spec fn count(&self) -> u64 {
        self.count
    }

    /// The address that the slot `index` refers to.
    pub open spec fn spec_get(&self, index: u32) -> Option<u64> {
        spec_resolve(self.pe(), self.base(), self.count(), index)
    }

    /// The table of `size` bytes that starts at the base address of `view`,
    /// wherever the cursor of `view` stands.
    pub fn new(view: ImageView<'a>, size: u64) -> (table: Self)
        ensures
            table.pe() == view.pe,
            table.base() == view.spec_base(),
            table.count() == size / 4,
    {
        Self { view, count: size / 4 }
    }

    /// The address that the slot `index` refers to; `None` where the index
    /// lies above the number of slots or the slot cannot be read.
    pub fn get_va_from_index(&self, index: u32) -> (r: Option<u64>)
        ensures
            r == self.spec_get(index),
    {
        if index as u64 > self.count {
            return None;
        }
        let slot: u64 = self.view.base.wrapping_add(index as u64 * 4);
        match read_u32_at(self.view.pe, slot) {
            Some(raw) => {
                if raw < 0x8000_0000 {
                    Some(slot.wrapping_add(raw as u64))
                } else {
                    Some(slot.wrapping_sub(0x1_0000_0000 - raw as u64))
                }
            },
            None => None,
        }
    }
}

} // verus!
