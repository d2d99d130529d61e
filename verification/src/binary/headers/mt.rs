use vstd::prelude::*;

use crate::native_format::{read_u16_at, read_u32_at, read_u64_at, ImageView};
use crate::native_format::{spec_u16_at, spec_u32_at, spec_u64_at};
use crate::pe::PeImage;

verus! {

/// The kind of type that a method table describes.
#[derive(Clone, Copy, Debug, PartialEq, Eq, Structural)]
pub enum ElementType {
    Unknown,
    Void,
    Boolean,
    Char,
    SByte,
    Byte,
    Int16,
    UInt16,
    Int32,
    UInt32,
    Int64,
    UInt64,
    IntPtr,
    UIntPtr,
    Single,
    Double,
    ValueType,
    Nullable,
    Class,
    Interface,
    SystemArray,
    Array,
    SzArray,
    ByRef,
    Pointer,
    FunctionPointer,
}

/// The element type that the number `code` stands for. The numbers 0x11 and
/// 0x13 and all above 0x1B stand for none.
pub open spec fn spec_element_type_from_code(code: int) -> Option<ElementType> {
    if code == 0x00 {
        Some(ElementType::Unknown)
    } else if code == 0x01 {
        Some(ElementType::Void)
    } else if code == 0x02 {
        Some(ElementType::Boolean)
    } else if code == 0x03 {
        Some(ElementType::Char)
    } else if code == 0x04 {
        Some(ElementType::SByte)
    } else if code == 0x05 {
        Some(ElementType::Byte)
    } else if code == 0x06 {
        Some(ElementType::Int16)
    } else if code == 0x07 {
        Some(ElementType::UInt16)
    } else if code == 0x08 {
        Some(ElementType::Int32)
    } else if code == 0x09 {
        Some(ElementType::UInt32)
    } else if code == 0x0A {
        Some(ElementType::Int64)
    } else if code == 0x0B {
        Some(ElementType::UInt64)
    } else if code == 0x0C {
        Some(ElementType::IntPtr)
    } else if code == 0x0D {
        Some(ElementType::UIntPtr)
    } else if code == 0x0E {
        Some(ElementType::Single)
    } else if code == 0x0F {
        Some(ElementType::Double)
    } else if code == 0x10 {
        Some(ElementType::ValueType)
    } else if code == 0x12 {
        Some(ElementType::Nullable)
    } else if code == 0x14 {
        Some(ElementType::Class)
    } else if code == 0x15 {
        Some(ElementType::Interface)
    } else if code == 0x16 {
        Some(ElementType::SystemArray)
    } else if code == 0x17 {
        Some(ElementType::Array)
    } else if code == 0x18 {
        Some(ElementType::SzArray)
    } else if code == 0x19 {
        Some(ElementType::ByRef)
    } else if code == 0x1A {
        Some(ElementType::Pointer)
    } else if code == 0x1B {
        Some(ElementType::FunctionPointer)
    } else {
        None
    }
}

/// The element type that the flags of a method table encode in their bits
/// 26 to 30; `Unknown` where the number there stands for none.
pub open spec fn spec_element_type_of_flags(flags: u32) -> ElementType {
    match spec_element_type_from_code((flags as int / 0x400_0000) % 32) {
        Some(element_type) => element_type,
        None => ElementType::Unknown,
    }
}

impl ElementType {
    /// The number that stands for the element type.
    pub open spec fn spec_code(self) -> int {
        match self {
            ElementType::Unknown => 0x00,
            ElementType::Void => 0x01,
            ElementType::Boolean => 0x02,
            ElementType::Char => 0x03,
            ElementType::SByte => 0x04,
            ElementType::Byte => 0x05,
            ElementType::Int16 => 0x06,
            ElementType::UInt16 => 0x07,
            ElementType::Int32 => 0x08,
            ElementType::UInt32 => 0x09,
            ElementType::Int64 => 0x0A,
            ElementType::UInt64 => 0x0B,
            ElementType::IntPtr => 0x0C,
            ElementType::UIntPtr => 0x0D,
            ElementType::Single => 0x0E,
            ElementType::Double => 0x0F,
            ElementType::ValueType => 0x10,
            ElementType::Nullable => 0x12,
            ElementType::Class => 0x14,
            ElementType::Interface => 0x15,
            ElementType::SystemArray => 0x16,
            ElementType::Array => 0x17,
            ElementType::SzArray => 0x18,
            ElementType::ByRef => 0x19,
            ElementType::Pointer => 0x1A,
            ElementType::FunctionPointer => 0x1B,
        }
    }

    /// The name of the element type.
    pub open spec fn spec_name(self) -> Seq<char> {
        match self {
            ElementType::Unknown => "Unknown"@,
            ElementType::Void => "Void"@,
            ElementType::Boolean => "Boolean"@,
            ElementType::Char => "Char"@,
            ElementType::SByte => "SByte"@,
            ElementType::Byte => "Byte"@,
            ElementType::Int16 => "Int16"@,
            ElementType::UInt16 => "UInt16"@,
            ElementType::Int32 => "Int32"@,
            ElementType::UInt32 => "UInt32"@,
            ElementType::Int64 => "Int64"@,
            ElementType::UInt64 => "UInt64"@,
            ElementType::IntPtr => "IntPtr"@,
            ElementType::UIntPtr => "UIntPtr"@,
            ElementType::Single => "Single"@,
            ElementType::Double => "Double"@,
            ElementType::ValueType => "ValueType"@,
            ElementType::Nullable => "Nullable"@,
            ElementType::Class => "Class"@,
            ElementType::Interface => "Interface"@,
            ElementType::SystemArray => "SystemArray"@,
            ElementType::Array => "Array"@,
            ElementType::SzArray => "SzArray"@,
            ElementType::ByRef => "ByRef"@,
            ElementType::Pointer => "Pointer"@,
            ElementType::FunctionPointer => "FunctionPointer"@,
        }
    }

    /// The element type that `code` stands for.
    pub fn from_u32(code: u32) -> (r: Option<ElementType>)
        ensures
            r == spec_element_type_from_code(code as int),
    {
        match code {
            0x00 => Some(ElementType::Unknown),
            0x01 => Some(ElementType::Void),
            0x02 => Some(ElementType::Boolean),
            0x03 => Some(ElementType::Char),
            0x04 => Some(ElementType::SByte),
            0x05 => Some(ElementType::Byte),
            0x06 => Some(ElementType::Int16),
            0x07 => Some(ElementType::UInt16),
            0x08 => Some(ElementType::Int32),
            0x09 => Some(ElementType::UInt32),
            0x0A => Some(ElementType::Int64),
            0x0B => Some(ElementType::UInt64),
            0x0C => Some(ElementType::IntPtr),
            0x0D => Some(ElementType::UIntPtr),
            0x0E => Some(ElementType::Single),
            0x0F => Some(ElementType::Double),
            0x10 => Some(ElementType::ValueType),
            0x12 => Some(ElementType::Nullable),
            0x14 => Some(ElementType::Class),
            0x15 => Some(ElementType::Interface),
            0x16 => Some(ElementType::SystemArray),
            0x17 => Some(ElementType::Array),
            0x18 => Some(ElementType::SzArray),
            0x19 => Some(ElementType::ByRef),
            0x1A => Some(ElementType::Pointer),
            0x1B => Some(ElementType::FunctionPointer),
            _ => None,
        }
    }

    /// The number that stands for the element type.
    pub fn to_u32(self) -> (code: u32)
        ensures
            code == self.spec_code(),
            spec_element_type_from_code(code as int) == Some(self),
    {
        match self {
            ElementType::Unknown => 0x00,
            ElementType::Void => 0x01,
            ElementType::Boolean => 0x02,
            ElementType::Char => 0x03,
            ElementType::SByte => 0x04,
            ElementType::Byte => 0x05,
            ElementType::Int16 => 0x06,
            ElementType::UInt16 => 0x07,
            ElementType::Int32 => 0x08,
            ElementType::UInt32 => 0x09,
            ElementType::Int64 => 0x0A,
            ElementType::UInt64 => 0x0B,
            ElementType::IntPtr => 0x0C,
            ElementType::UIntPtr => 0x0D,
            ElementType::Single => 0x0E,
            ElementType::Double => 0x0F,
            ElementType::ValueType => 0x10,
            ElementType::Nullable => 0x12,
            ElementType::Class => 0x14,
            ElementType::Interface => 0x15,
            ElementType::SystemArray => 0x16,
            ElementType::Array => 0x17,
            ElementType::SzArray => 0x18,
            ElementType::ByRef => 0x19,
            ElementType::Pointer => 0x1A,
            ElementType::FunctionPointer => 0x1B,
        }
    }

    /// The name of the element type.
    pub fn name(self) -> (name: &'static str)
        ensures
            name@ == self.spec_name(),
    {
        match self {
            ElementType::Unknown => "Unknown",
            ElementType::Void => "Void",
            ElementType::Boolean => "Boolean",
            ElementType::Char => "Char",
            ElementType::SByte => "SByte",
            ElementType::Byte => "Byte",
            ElementType::Int16 => "Int16",
            ElementType::UInt16 => "UInt16",
            ElementType::Int32 => "Int32",
            ElementType::UInt32 => "UInt32",
            ElementType::Int64 => "Int64",
            ElementType::UInt64 => "UInt64",
            ElementType::IntPtr => "IntPtr",
            ElementType::UIntPtr => "UIntPtr",
            ElementType::Single => "Single",
            ElementType::Double => "Double",
            ElementType::ValueType => "ValueType",
            ElementType::Nullable => "Nullable",
            ElementType::Class => "Class",
            ElementType::Interface => "Interface",
            ElementType::SystemArray => "SystemArray",
            ElementType::Array => "Array",
            ElementType::SzArray => "SzArray",
            ElementType::ByRef => "ByRef",
            ElementType::Pointer => "Pointer",
            ElementType::FunctionPointer => "FunctionPointer",
        }
    }
}

/// Why the bytes at an address are no method table.
#[derive(Clone, Copy, Debug, PartialEq, Eq, Structural)]
pub enum MethodTableError {
    /// A field lies outside the image.
    Unreadable,
    /// The count of vtable slots is 1000 or more.
    InvalidVtableCount,
    /// The count of interfaces is 1000 or more.
    InvalidInterfaceCount,
    /// An interface with a base size other than zero.
    InterfaceBaseSize,
    /// An interface with a related type.
    InterfaceRelatedType,
    /// A base size below 0x10 on anything but an interface.
    BaseSize,
}

impl MethodTableError {
    /// The diagnostic text of the error.
    pub open spec fn spec_message(&self) -> Seq<char> {
        match *self {
            MethodTableError::Unreadable => "method table lies outside the image"@,
            MethodTableError::InvalidVtableCount => "invalid vtable slot count"@,
            MethodTableError::InvalidInterfaceCount => "invalid interface count"@,
            MethodTableError::InterfaceBaseSize => "unexpected non-zero interface base size"@,
            MethodTableError::InterfaceRelatedType => "unexpected non-zero interface related type"@,
            MethodTableError::BaseSize => "unexpected base size"@,
        }
    }

    /// The diagnostic text of the error.
    pub fn message(&self) -> (text: &'static str)
        ensures
            text@ == self.spec_message(),
    {
        match self {
            MethodTableError::Unreadable => "method table lies outside the image",
            MethodTableError::InvalidVtableCount => "invalid vtable slot count",
            MethodTableError::InvalidInterfaceCount => "invalid interface count",
            MethodTableError::InterfaceBaseSize => "unexpected non-zero interface base size",
            MethodTableError::InterfaceRelatedType => "unexpected non-zero interface related type",
            MethodTableError::BaseSize => "unexpected base size",
        }
    }
}

/// A method table as the contracts speak of it.
pub struct MethodTableView {
    pub va: u64,
    pub flags: u32,
    pub base_size: u32,
    pub related_type_address: u64,
    pub hashcode: u32,
    pub element_type: ElementType,
    pub vtable_addresses: Seq<u64>,
    pub iface_addresses: Seq<u64>,
    pub related_type: Option<u64>,
    pub interfaces: Seq<u64>,
}

/// The descriptor that the runtime keeps of one type, as read from the data
/// of the image, together with what a scan has found out of its relations.
/// Related tables are referred to by their addresses.
#[derive(Debug)]
pub struct MethodTable {
    /// The address of the table itself.
    pub va: u64,
    pub flags: u32,
    pub base_size: u32,
    /// The address of the table of the base class or of the element type.
    pub related_type_address: u64,
    pub hashcode: u32,
    pub element_type: ElementType,
    pub vtable_addresses: Vec<u64>,
    pub iface_addresses: Vec<u64>,
    /// The address of the related table, once a scan has found it.
    pub related_type: Option<u64>,
    /// The addresses of the interface tables that a scan has attached here.
    pub interfaces: Vec<u64>,
}

impl View for MethodTable {
    type V = MethodTableView;

    open spec fn view(&self) -> MethodTableView {
        MethodTableView {
            va: self.va,
            flags: self.flags,
            base_size: self.base_size,
            related_type_address: self.related_type_address,
            hashcode: self.hashcode,
            element_type: self.element_type,
            vtable_addresses: self.vtable_addresses@,
            iface_addresses: self.iface_addresses@,
            related_type: self.related_type,
            interfaces: self.interfaces@,
        }
    }
}

/// The 16-bit field that lies `distance` bytes behind `va`.
pub open spec fn spec_field_u16(pe: &PeImage, va: u64, distance: int) -> Option<u16> {
    if va + distance > u64::MAX {
        None
    } else {
        spec_u16_at(pe, (va + distance) as u64)
    }
}

/// The 32-bit field that lies `distance` bytes behind `va`.
pub open spec fn spec_field_u32(pe: &PeImage, va: u64, distance: int) -> Option<u32> {
    if va + distance > u64::MAX {
        None
    } else {
        spec_u32_at(pe, (va + distance) as u64)
    }
}

/// The 64-bit field that lies `distance` bytes behind `va`.
pub open spec fn spec_field_u64(pe: &PeImage, va: u64, distance: int) -> Option<u64> {
    if va + distance > u64::MAX {
        None
    } else {
        spec_u64_at(pe, (va + distance) as u64)
    }
}

/// The `count` address slots that start `distance` bytes behind `va`.
pub open spec fn spec_slots(pe: &PeImage, va: u64, distance: int, count: nat) -> Option<Seq<u64>>
    decreases count,
{
    if count == 0 {
        Some(Seq::empty())
    } else {
        match spec_slots(pe, va, distance, (count - 1) as nat) {
            Some(before) => match spec_field_u64(pe, va, distance + 8 * (count - 1)) {
                Some(slot) => Some(before.push(slot)),
                None => None,
            },
            None => None,
        }
    }
}

/// The method table at `va`. Flags, base size, the address of the related
/// type, the counts of vtable slots and of interfaces and the hashcode come
/// first, in 24 bytes; the vtable slots and the interface slots follow.
pub open spec fn spec_parse_method_table(pe: &PeImage, va: u64) -> Result<
    MethodTableView,
    MethodTableError,
> {
    match (
        spec_field_u32(pe, va, 0),
        spec_field_u32(pe, va, 4),
        spec_field_u64(pe, va, 8),
        spec_field_u16(pe, va, 16),
        spec_field_u16(pe, va, 18),
        spec_field_u32(pe, va, 20),
    ) {
        (
            Some(flags),
            Some(base_size),
            Some(related),
            Some(vtable_count),
            Some(iface_count),
            Some(hashcode),
        ) => {
            if vtable_count >= 1000 {
                Err(MethodTableError::InvalidVtableCount)
            } else if iface_count >= 1000 {
                Err(MethodTableError::InvalidInterfaceCount)
            } else {
                match (
                    spec_slots(pe, va, 24, vtable_count as nat),
                    spec_slots(pe, va, 24 + 8 * vtable_count, iface_count as nat),
                ) {
                    (Some(vtable), Some(ifaces)) => {
                        let element_type = spec_element_type_of_flags(flags);
                        if element_type == ElementType::Interface && base_size != 0 {
                            Err(MethodTableError::InterfaceBaseSize)
                        } else if element_type == ElementType::Interface && related != 0 {
                            Err(MethodTableError::InterfaceRelatedType)
                        } else if element_type != ElementType::Interface && base_size < 0x10 {
                            Err(MethodTableError::BaseSize)
                        } else {
                            Ok(
                                MethodTableView {
                                    va,
                                    flags,
                                    base_size,
                                    related_type_address: related,
                                    hashcode,
                                    element_type,
                                    vtable_addresses: vtable,
                                    iface_addresses: ifaces,
                                    related_type: None,
                                    interfaces: Seq::empty(),
                                },
                            )
                        }
                    },
                    _ => Err(MethodTableError::Unreadable),
                }
            }
        },
        _ => Err(MethodTableError::Unreadable),
    }
}

/// The 16-bit field that lies `distance` bytes behind `va`.
fn field_u16(pe: &PeImage, va: u64, distance: u64) -> (r: Option<u16>)
    ensures
        r == spec_field_u16(pe, va, distance as int),
{
    match va.checked_add(distance) {
        Some(at) => read_u16_at(pe, at),
        None => None,
    }
}

/// The 32-bit field that lies `distance` bytes behind `va`.
fn field_u32(pe: &PeImage, va: u64, distance: u64) -> (r: Option<u32>)
    ensures
        r == spec_field_u32(pe, va, distance as int),
{
    match va.checked_add(distance) {
        Some(at) => read_u32_at(pe, at),
        None => None,
    }
}

/// The 64-bit field that lies `distance` bytes behind `va`.
fn field_u64(pe: &PeImage, va: u64, distance: u64) -> (r: Option<u64>)
    ensures
        r == spec_field_u64(pe, va, distance as int),
{
    match va.checked_add(distance) {
        Some(at) => read_u64_at(pe, at),
        None => None,
    }
}

/// The `count` address slots that start `distance` bytes behind `va`.
fn read_slots(pe: &PeImage, va: u64, distance: u64, count: u16) -> (r: Option<Vec<u64>>)
    requires
        distance <= 24 + 8 * 1000,
        count < 1000,
    ensures
        match spec_slots(pe, va, distance as int, count as nat) {
            Some(slots) => r is Some && r->Some_0@ == slots,
            None => r is None,
        },
{
    let mut slots: Vec<u64> = Vec::new();
    let mut i: u16 = 0;
    while i < count
        invariant
            i <= count < 1000,
            distance <= 24 + 8 * 1000,
            spec_slots(pe, va, distance as int, i as nat) == Some(slots@),
        decreases count - i,
    {
        match field_u64(pe, va, distance + 8 * (i as u64)) {
            Some(slot) => {
                slots.push(slot);
            },
            None => {
                proof {
                    lemma_slots_fail_on(pe, va, distance as int, (i + 1) as nat, count as nat);
                }
                return None;
            },
        }
        i = i + 1;
    }
    Some(slots)
}

/// Where a run of slots cannot be read, no longer run can.
proof fn lemma_slots_fail_on(pe: &PeImage, va: u64, distance: int, short: nat, long: nat)
    requires
        short <= long,
        spec_slots(pe, va, distance, short) is None,
    ensures
        spec_slots(pe, va, distance, long) is None,
    decreases long,
{
    if short < long {
        lemma_slots_fail_on(pe, va, distance, short, (long - 1) as nat);
    }
}

impl MethodTable {
    /// The mask of the bits of the flags that hold the element type.
    pub const ELEMENT_TYPE_MASK: u32 = 0x7C000000;

    /// The position of the lowest of those bits.
    pub const ELEMENT_TYPE_SHIFT: u32 = 26;

    /// Reads the method table at which `view` stands. The two counts must
    /// lie below 1000; an interface must have neither base size nor related
    /// type; anything else must have a base size of at least 0x10.
    pub fn parse(view: ImageView<'_>) -> (r: Result<MethodTable, MethodTableError>)
        ensures
            match spec_parse_method_table(view.pe, view.spec_va()) {
                Ok(table) => r is Ok && r->Ok_0@ == table,
                Err(e) => r is Err && r->Err_0 == e,
            },
    {
        let pe = view.pe;
        let va: u64 = view.va();
        let flags = field_u32(pe, va, 0);
        let base_size = field_u32(pe, va, 4);
        let related = field_u64(pe, va, 8);
        let vtable_count = field_u16(pe, va, 16);
        let iface_count = field_u16(pe, va, 18);
        let hashcode = field_u32(pe, va, 20);
        match (flags, base_size, related, vtable_count, iface_count, hashcode) {
            (
                Some(flags),
                Some(base_size),
                Some(related),
                Some(vtable_count),
                Some(iface_count),
                Some(hashcode),
            ) => {
                if vtable_count >= 1000 {
                    return Err(MethodTableError::InvalidVtableCount);
                }
                if iface_count >= 1000 {
                    return Err(MethodTableError::InvalidInterfaceCount);
                }
                let vtable = read_slots(pe, va, 24, vtable_count);
                let ifaces = read_slots(pe, va, 24 + 8 * (vtable_count as u64), iface_count);
                match (vtable, ifaces) {
                    (Some(vtable), Some(ifaces)) => {
                        let element_type = match ElementType::from_u32(
                            (flags / 0x400_0000) % 32,
                        ) {
                            Some(element_type) => element_type,
                            None => ElementType::Unknown,
                        };
                        if element_type == ElementType::Interface {
                            if base_size != 0 {
                                return Err(MethodTableError::InterfaceBaseSize);
                            } else if related != 0 {
                                return Err(MethodTableError::InterfaceRelatedType);
                            }
                        } else if base_size < 0x10 {
                            return Err(MethodTableError::BaseSize);
                        }
                        Ok(
                            MethodTable {
                                va,
                                flags,
                                base_size,
                                related_type_address: related,
                                hashcode,
                                element_type,
                                vtable_addresses: vtable,
                                iface_addresses: ifaces,
                                related_type: None,
                                interfaces: Vec::new(),
                            },
                        )
                    },
                    _ => Err(MethodTableError::Unreadable),
                }
            },
            _ => Err(MethodTableError::Unreadable),
        }
    }
}

} // verus!
