use vstd::prelude::*;

verus! {

/// The attribute bits of a method.
#[derive(Debug, Copy, Clone, Eq, PartialEq, Structural)]
pub struct MethodAttributes(pub u32);

/// Who may call a method.
#[derive(Copy, Clone, Debug, Eq, PartialEq, Structural)]
pub enum MethodMemberAccess {
    PrivateScope,
    Private,
    FamAndAssem,
    Assembly,
    Family,
    FamOrAssem,
    Public,
}

/// Whether a method takes a new vtable slot.
#[derive(Copy, Clone, Debug, Eq, PartialEq, Structural)]
pub enum VtableLayout {
    ReuseSlot,
    NewSlot,
}

/// The calling convention byte of a method signature.
#[derive(Debug, Clone, Copy, PartialEq, Eq, Structural)]
pub enum SignatureCallingConvention {
    Default,
    HasThis,
    ExplicitThis,
    Vararg,
    Cdecl,
    StdCall,
    ThisCall,
    FastCall,
    Unmanaged,
    UnmanagedCallingConventionMask,
}

/// The member access that the number `code` stands for; `PrivateScope` for a
/// number that stands for none.
pub open spec fn spec_member_access(code: int) -> MethodMemberAccess {
    if code == 1 {
        MethodMemberAccess::Private
    } else if code == 2 {
        MethodMemberAccess::FamAndAssem
    } else if code == 3 {
        MethodMemberAccess::Assembly
    } else if code == 4 {
        MethodMemberAccess::Family
    } else if code == 5 {
        MethodMemberAccess::FamOrAssem
    } else if code == 6 {
        MethodMemberAccess::Public
    } else {
        MethodMemberAccess::PrivateScope
    }
}

/// The calling convention that the byte `code` stands for; `Default` for a
/// byte that stands for none.
pub open spec fn spec_calling_convention(code: int) -> SignatureCallingConvention {
    if code == 0x20 {
        SignatureCallingConvention::HasThis
    } else if code == 0x40 {
        SignatureCallingConvention::ExplicitThis
    } else if code == 0x05 {
        SignatureCallingConvention::Vararg
    } else if code == 0x01 {
        SignatureCallingConvention::Cdecl
    } else if code == 0x02 {
        SignatureCallingConvention::StdCall
    } else if code == 0x03 {
        SignatureCallingConvention::ThisCall
    } else if code == 0x04 {
        SignatureCallingConvention::FastCall
    } else if code == 0x09 {
        SignatureCallingConvention::Unmanaged
    } else if code == 0x0F {
        SignatureCallingConvention::UnmanagedCallingConventionMask
    } else {
        SignatureCallingConvention::Default
    }
}

/// Whether the bit of weight `bit`, a power of two, is set in `raw`.
pub open spec fn spec_has_bit(raw: u32, bit: int) -> bool {
    (raw as int / bit) % 2 == 1
}

impl MethodMemberAccess {
    /// The member access that `code` stands for.
    pub fn from_primitive(code: u8) -> (access: MethodMemberAccess)
        ensures
            access == spec_member_access(code as int),
    {
        match code {
            1 => MethodMemberAccess::Private,
            2 => MethodMemberAccess::FamAndAssem,
            3 => MethodMemberAccess::Assembly,
            4 => MethodMemberAccess::Family,
            5 => MethodMemberAccess::FamOrAssem,
            6 => MethodMemberAccess::Public,
            _ => MethodMemberAccess::PrivateScope,
        }
    }
}

impl VtableLayout {
    /// The layout that `code` stands for: `NewSlot` for 0x100, `ReuseSlot`
    /// for everything else.
    pub fn from_primitive(code: u16) -> (layout: VtableLayout)
        ensures
            layout == if code == 0x100 {
                VtableLayout::NewSlot
            } else {
                VtableLayout::ReuseSlot
            },
    {
        if code == 0x100 {
            VtableLayout::NewSlot
        } else {
            VtableLayout::ReuseSlot
        }
    }
}

impl SignatureCallingConvention {
    /// The calling convention that `code` stands for.
    pub fn from_primitive(code: u8) -> (convention: SignatureCallingConvention)
        ensures
            convention == spec_calling_convention(code as int),
    {
        match code {
            0x20 => SignatureCallingConvention::HasThis,
            0x40 => SignatureCallingConvention::ExplicitThis,
            0x05 => SignatureCallingConvention::Vararg,
            0x01 => SignatureCallingConvention::Cdecl,
            0x02 => SignatureCallingConvention::StdCall,
            0x03 => SignatureCallingConvention::ThisCall,
            0x04 => SignatureCallingConvention::FastCall,
            0x09 => SignatureCallingConvention::Unmanaged,
            0x0F => SignatureCallingConvention::UnmanagedCallingConventionMask,
            _ => SignatureCallingConvention::Default,
        }
    }

    /// The name of the calling convention.
    pub open spec fn spec_name(self) -> Seq<char> {
        match self {
            SignatureCallingConvention::Default => "Default"@,
            SignatureCallingConvention::HasThis => "HasThis"@,
            SignatureCallingConvention::ExplicitThis => "ExplicitThis"@,
            SignatureCallingConvention::Vararg => "Vararg"@,
            SignatureCallingConvention::Cdecl => "Cdecl"@,
            SignatureCallingConvention::StdCall => "StdCall"@,
            SignatureCallingConvention::ThisCall => "ThisCall"@,
            SignatureCallingConvention::FastCall => "FastCall"@,
            SignatureCallingConvention::Unmanaged => "Unmanaged"@,
            SignatureCallingConvention::UnmanagedCallingConventionMask =>
                "UnmanagedCallingConventionMask"@,
        }
    }

    /// The name of the calling convention.
    pub fn name(self) -> (name: &'static str)
        ensures
            name@ == self.spec_name(),
    {
        match self {
            SignatureCallingConvention::Default => "Default",
            SignatureCallingConvention::HasThis => "HasThis",
            SignatureCallingConvention::ExplicitThis => "ExplicitThis",
            SignatureCallingConvention::Vararg => "Vararg",
            SignatureCallingConvention::Cdecl => "Cdecl",
            SignatureCallingConvention::StdCall => "StdCall",
            SignatureCallingConvention::ThisCall => "ThisCall",
            SignatureCallingConvention::FastCall => "FastCall",
            SignatureCallingConvention::Unmanaged => "Unmanaged",
            SignatureCallingConvention::UnmanagedCallingConventionMask =>
                "UnmanagedCallingConventionMask",
        }
    }
}

impl MethodAttributes {
    pub const MEMBER_ACCESS_MASK: u32 = 0x0007;

    pub const VTABLE_LAYOUT_MASK: u32 = 0x0100;

    pub const STATIC: u32 = 0x0010;

    pub const FINAL: u32 = 0x0020;

    pub const VIRTUAL: u32 = 0x0040;

    pub const ABSTRACT: u32 = 0x0400;

    pub const PINVOKE_IMPL: u32 = 0x2000;

    pub const RTSPECIAL_NAME: u32 = 0x1000;

    pub const RESERVED_MASK: u32 = 0xd000;

    pub fn new(raw: u32) -> (attributes: Self)
        ensures
            attributes.0 == raw,
    {
        Self(raw)
    }

    pub fn raw(self) -> (raw: u32)
        ensures
            raw == self.0,
    {
        self.0
    }

    /// Who may call the method: the lowest three bits.
    pub fn member_access(self) -> (access: MethodMemberAccess)
        ensures
            access == spec_member_access(self.0 as int % 8),
    {
        let raw: u32 = self.0;
        assert(raw & 0x0007 == raw % 8) by (bit_vector);
        MethodMemberAccess::from_primitive((raw & Self::MEMBER_ACCESS_MASK) as u8)
    }

    /// Whether the method takes a new vtable slot: the bit 0x100.
    pub fn vtable_layout(self) -> (layout: VtableLayout)
        ensures
            layout == if spec_has_bit(self.0, 0x100) {
                VtableLayout::NewSlot
            } else {
                VtableLayout::ReuseSlot
            },
    {
        let raw: u32 = self.0;
        assert((raw & 0x0100 == 0x0100) == ((raw / 0x100) % 2 == 1) && (raw & 0x0100 == 0x0100
            || raw & 0x0100 == 0)) by (bit_vector);
        VtableLayout::from_primitive((self.0 & Self::VTABLE_LAYOUT_MASK) as u16)
    }

    /// Whether the bit 0x10 is set.
    pub fn is_static(self) -> (set: bool)
        ensures
            set == spec_has_bit(self.0, 0x10),
    {
        let raw: u32 = self.0;
        assert((raw & 0x0010 != 0) == ((raw / 0x10) % 2 == 1)) by (bit_vector);
        self.0 & Self::STATIC != 0
    }

    /// Whether the bit 0x40 is set.
    pub fn is_virtual(self) -> (set: bool)
        ensures
            set == spec_has_bit(self.0, 0x40),
    {
        let raw: u32 = self.0;
        assert((raw & 0x0040 != 0) == ((raw / 0x40) % 2 == 1)) by (bit_vector);
        self.0 & Self::VIRTUAL != 0
    }

    /// Whether the bit 0x400 is set.
    pub fn is_abstract(self) -> (set: bool)
        ensures
            set == spec_has_bit(self.0, 0x400),
    {
        let raw: u32 = self.0;
        assert((raw & 0x0400 != 0) == ((raw / 0x400) % 2 == 1)) by (bit_vector);
        self.0 & Self::ABSTRACT != 0
    }

    /// Whether the bit 0x2000 is set.
    pub fn is_pinvoke(self) -> (set: bool)
        ensures
            set == spec_has_bit(self.0, 0x2000),
    {
        let raw: u32 = self.0;
        assert((raw & 0x2000 != 0) == ((raw / 0x2000) % 2 == 1)) by (bit_vector);
        self.0 & Self::PINVOKE_IMPL != 0
    }

    /// The reserved bits 0x1000, 0x4000 and 0x8000, each at its place.
    pub fn reserved_bits(self) -> (bits: u32)
        ensures
            bits == (if spec_has_bit(self.0, 0x1000) {
                0x1000int
            } else {
                0
            }) + (if spec_has_bit(self.0, 0x4000) {
                0x4000int
            } else {
                0
            }) + (if spec_has_bit(self.0, 0x8000) {
                0x8000int
            } else {
                0
            }),
    {
        let raw: u32 = self.0;
        assert(raw & 0xd000 == (if (raw / 0x1000) % 2 == 1 {
            0x1000u32
        } else {
            0u32
        }) + (if (raw / 0x4000) % 2 == 1 {
            0x4000u32
        } else {
            0u32
        }) + (if (raw / 0x8000) % 2 == 1 {
            0x8000u32
        } else {
            0u32
        })) by (bit_vector);
        self.0 & Self::RESERVED_MASK
    }
}

} // verus!
