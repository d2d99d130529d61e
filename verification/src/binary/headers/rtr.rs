use vstd::prelude::*;

use crate::binary::headers::mt::{spec_field_u16, spec_field_u32, spec_field_u64};
use crate::embedded_meta::{spec_has_metadata_signature, MetadataReader};
use crate::native_format::hashtable::{spec_table_header, NativeHashtable};
use crate::native_format::parser::NativeParser;
use crate::native_format::reader::NativeReader;
use crate::native_format::ref_table::ExternalReferencesTable;
use crate::native_format::{
    read_u16_at, read_u32_at, read_u64_at, read_u8_at, spec_bytes_at, spec_u8_at, ImageView,
};
use crate::pe::PeImage;

verus! {

/// The blobs of reflection data that a ReadyToRun header can list.
#[derive(Debug, Clone, Copy, PartialEq, Eq, Structural)]
pub enum ReflectionMapBlob {
    TypeMap,
    ArrayMap,
    PointerTypeMap,
    FunctionPointerTypeMap,
    InvokeMap,
    VirtualInvokeMap,
    CommonFixupsTable,
    FieldAccessMap,
    CCtorContextMap,
    ByRefTypeMap,
    EmbeddedMetadata,
    UnboxingAndInstantiatingStubMap,
    StructMarshallingStubMap,
    DelegateMarshallingStubMap,
    GenericVirtualMethodTable,
    InterfaceGenericVirtualMethodTable,
    TypeTemplateMap,
    GenericMethodsTemplateMap,
    BlobIdResourceIndex,
    BlobIdResourceData,
    BlobIdStackTraceEmbeddedMetadata,
    BlobIdStackTraceMethodRvaToTokenMapping,
    BlobIdStackTraceLineNumbers,
    BlobIdStackTraceDocuments,
    NativeLayoutInfo,
    NativeReferences,
    GenericsHashtable,
    NativeStatics,
    StaticsInfoHashtable,
    GenericMethodsHashtable,
    ExactMethodInstantiationsHashtable,
    ExternalTypeMap,
    ProxyTypeMap,
    Unknown,
}

/// The kinds of section that a ReadyToRun header can list.
#[derive(Debug, Clone, Copy, PartialEq, Eq, Structural)]
pub enum ReadyToRunSectionType {
    CompilerIdentifier,
    ImportSections,
    RuntimeFunctions,
    MethodDefEntryPoints,
    ExceptionInfo,
    DebugInfo,
    DelayLoadMethodCallThunks,
    AvailableTypes,
    InstanceMethodEntryPoints,
    InliningInfo,
    ProfileDataInfo,
    ManifestMetadata,
    AttributePresence,
    InliningInfo2,
    ComponentAssemblies,
    OwnerCompositeExecutable,
    PgoInstrumentationData,
    ManifestAssemblyMvids,
    CrossModuleInlineInfo,
    HotColdMap,
    MethodIsGenericMap,
    EnclosingTypeMap,
    TypeGenericInfoMap,
    StringTable,
    GCStaticRegion,
    ThreadStaticRegion,
    TypeManagerIndirection,
    EagerCctor,
    FrozenObjectRegion,
    DehydratedData,
    ThreadStaticOffsetRegion,
    ImportAddressTables,
    ModuleInitializerList,
    ReflectionMapBlob(ReflectionMapBlob),
    Unknown(u32),
}

/// The blob that the index `index` stands for; `Unknown` for an index that
/// stands for none.
pub open spec fn spec_blob_from_index(index: int) -> ReflectionMapBlob {
    if index == 1 {
        ReflectionMapBlob::TypeMap
    } else if index == 2 {
        ReflectionMapBlob::ArrayMap
    } else if index == 3 {
        ReflectionMapBlob::PointerTypeMap
    } else if index == 4 {
        ReflectionMapBlob::FunctionPointerTypeMap
    } else if index == 6 {
        ReflectionMapBlob::InvokeMap
    } else if index == 7 {
        ReflectionMapBlob::VirtualInvokeMap
    } else if index == 8 {
        ReflectionMapBlob::CommonFixupsTable
    } else if index == 9 {
        ReflectionMapBlob::FieldAccessMap
    } else if index == 10 {
        ReflectionMapBlob::CCtorContextMap
    } else if index == 11 {
        ReflectionMapBlob::ByRefTypeMap
    } else if index == 13 {
        ReflectionMapBlob::EmbeddedMetadata
    } else if index == 15 {
        ReflectionMapBlob::UnboxingAndInstantiatingStubMap
    } else if index == 16 {
        ReflectionMapBlob::StructMarshallingStubMap
    } else if index == 17 {
        ReflectionMapBlob::DelegateMarshallingStubMap
    } else if index == 18 {
        ReflectionMapBlob::GenericVirtualMethodTable
    } else if index == 19 {
        ReflectionMapBlob::InterfaceGenericVirtualMethodTable
    } else if index == 21 {
        ReflectionMapBlob::TypeTemplateMap
    } else if index == 22 {
        ReflectionMapBlob::GenericMethodsTemplateMap
    } else if index == 24 {
        ReflectionMapBlob::BlobIdResourceIndex
    } else if index == 25 {
        ReflectionMapBlob::BlobIdResourceData
    } else if index == 26 {
        ReflectionMapBlob::BlobIdStackTraceEmbeddedMetadata
    } else if index == 27 {
        ReflectionMapBlob::BlobIdStackTraceMethodRvaToTokenMapping
    } else if index == 28 {
        ReflectionMapBlob::BlobIdStackTraceLineNumbers
    } else if index == 29 {
        ReflectionMapBlob::BlobIdStackTraceDocuments
    } else if index == 30 {
        ReflectionMapBlob::NativeLayoutInfo
    } else if index == 31 {
        ReflectionMapBlob::NativeReferences
    } else if index == 32 {
        ReflectionMapBlob::GenericsHashtable
    } else if index == 33 {
        ReflectionMapBlob::NativeStatics
    } else if index == 34 {
        ReflectionMapBlob::StaticsInfoHashtable
    } else if index == 35 {
        ReflectionMapBlob::GenericMethodsHashtable
    } else if index == 36 {
        ReflectionMapBlob::ExactMethodInstantiationsHashtable
    } else if index == 40 {
        ReflectionMapBlob::ExternalTypeMap
    } else if index == 41 {
        ReflectionMapBlob::ProxyTypeMap
    } else {
        ReflectionMapBlob::Unknown
    }
}

/// The kind of section that the tag `tag` stands for. The tags 300 to 399
/// belong to the reflection blobs; a tag that stands for nothing is kept in
/// `Unknown`.
pub open spec fn spec_section_type_from_tag(tag: u32) -> ReadyToRunSectionType {
    if tag == 100 {
        ReadyToRunSectionType::CompilerIdentifier
    } else if tag == 101 {
        ReadyToRunSectionType::ImportSections
    } else if tag == 102 {
        ReadyToRunSectionType::RuntimeFunctions
    } else if tag == 103 {
        ReadyToRunSectionType::MethodDefEntryPoints
    } else if tag == 104 {
        ReadyToRunSectionType::ExceptionInfo
    } else if tag == 105 {
        ReadyToRunSectionType::DebugInfo
    } else if tag == 106 {
        ReadyToRunSectionType::DelayLoadMethodCallThunks
    } else if tag == 108 {
        ReadyToRunSectionType::AvailableTypes
    } else if tag == 109 {
        ReadyToRunSectionType::InstanceMethodEntryPoints
    } else if tag == 110 {
        ReadyToRunSectionType::InliningInfo
    } else if tag == 111 {
        ReadyToRunSectionType::ProfileDataInfo
    } else if tag == 112 {
        ReadyToRunSectionType::ManifestMetadata
    } else if tag == 113 {
        ReadyToRunSectionType::AttributePresence
    } else if tag == 114 {
        ReadyToRunSectionType::InliningInfo2
    } else if tag == 115 {
        ReadyToRunSectionType::ComponentAssemblies
    } else if tag == 116 {
        ReadyToRunSectionType::OwnerCompositeExecutable
    } else if tag == 117 {
        ReadyToRunSectionType::PgoInstrumentationData
    } else if tag == 118 {
        ReadyToRunSectionType::ManifestAssemblyMvids
    } else if tag == 119 {
        ReadyToRunSectionType::CrossModuleInlineInfo
    } else if tag == 120 {
        ReadyToRunSectionType::HotColdMap
    } else if tag == 121 {
        ReadyToRunSectionType::MethodIsGenericMap
    } else if tag == 122 {
        ReadyToRunSectionType::EnclosingTypeMap
    } else if tag == 123 {
        ReadyToRunSectionType::TypeGenericInfoMap
    } else if tag == 200 {
        ReadyToRunSectionType::StringTable
    } else if tag == 201 {
        ReadyToRunSectionType::GCStaticRegion
    } else if tag == 202 {
        ReadyToRunSectionType::ThreadStaticRegion
    } else if tag == 204 {
        ReadyToRunSectionType::TypeManagerIndirection
    } else if tag == 205 {
        ReadyToRunSectionType::EagerCctor
    } else if tag == 206 {
        ReadyToRunSectionType::FrozenObjectRegion
    } else if tag == 207 {
        ReadyToRunSectionType::DehydratedData
    } else if tag == 208 {
        ReadyToRunSectionType::ThreadStaticOffsetRegion
    } else if tag == 212 {
        ReadyToRunSectionType::ImportAddressTables
    } else if tag == 213 {
        ReadyToRunSectionType::ModuleInitializerList
    } else if 300 <= tag <= 399 {
        ReadyToRunSectionType::ReflectionMapBlob(spec_blob_from_index(tag - 300))
    } else {
        ReadyToRunSectionType::Unknown(tag)
    }
}

impl ReflectionMapBlob {
    /// The blob that `index` stands for.
    pub fn from_u32(index: u32) -> (blob: ReflectionMapBlob)
        ensures
            blob == spec_blob_from_index(index as int),
    {
        match index {
            1 => ReflectionMapBlob::TypeMap,
            2 => ReflectionMapBlob::ArrayMap,
            3 => ReflectionMapBlob::PointerTypeMap,
            4 => ReflectionMapBlob::FunctionPointerTypeMap,
            6 => ReflectionMapBlob::InvokeMap,
            7 => ReflectionMapBlob::VirtualInvokeMap,
            8 => ReflectionMapBlob::CommonFixupsTable,
            9 => ReflectionMapBlob::FieldAccessMap,
            10 => ReflectionMapBlob::CCtorContextMap,
            11 => ReflectionMapBlob::ByRefTypeMap,
            13 => ReflectionMapBlob::EmbeddedMetadata,
            15 => ReflectionMapBlob::UnboxingAndInstantiatingStubMap,
            16 => ReflectionMapBlob::StructMarshallingStubMap,
            17 => ReflectionMapBlob::DelegateMarshallingStubMap,
            18 => ReflectionMapBlob::GenericVirtualMethodTable,
            19 => ReflectionMapBlob::InterfaceGenericVirtualMethodTable,
            21 => ReflectionMapBlob::TypeTemplateMap,
            22 => ReflectionMapBlob::GenericMethodsTemplateMap,
            24 => ReflectionMapBlob::BlobIdResourceIndex,
            25 => ReflectionMapBlob::BlobIdResourceData,
            26 => ReflectionMapBlob::BlobIdStackTraceEmbeddedMetadata,
            27 => ReflectionMapBlob::BlobIdStackTraceMethodRvaToTokenMapping,
            28 => ReflectionMapBlob::BlobIdStackTraceLineNumbers,
            29 => ReflectionMapBlob::BlobIdStackTraceDocuments,
            30 => ReflectionMapBlob::NativeLayoutInfo,
            31 => ReflectionMapBlob::NativeReferences,
            32 => ReflectionMapBlob::GenericsHashtable,
            33 => ReflectionMapBlob::NativeStatics,
            34 => ReflectionMapBlob::StaticsInfoHashtable,
            35 => ReflectionMapBlob::GenericMethodsHashtable,
            36 => ReflectionMapBlob::ExactMethodInstantiationsHashtable,
            40 => ReflectionMapBlob::ExternalTypeMap,
            41 => ReflectionMapBlob::ProxyTypeMap,
            _ => ReflectionMapBlob::Unknown,
        }
    }
}

impl ReadyToRunSectionType {
    /// The kind of section that `num` stands for.
    pub fn from_u32(num: u32) -> (kind: ReadyToRunSectionType)
        ensures
            kind == spec_section_type_from_tag(num),
    {
        match num {
            100 => ReadyToRunSectionType::CompilerIdentifier,
            101 => ReadyToRunSectionType::ImportSections,
            102 => ReadyToRunSectionType::RuntimeFunctions,
            103 => ReadyToRunSectionType::MethodDefEntryPoints,
            104 => ReadyToRunSectionType::ExceptionInfo,
            105 => ReadyToRunSectionType::DebugInfo,
            106 => ReadyToRunSectionType::DelayLoadMethodCallThunks,
            108 => ReadyToRunSectionType::AvailableTypes,
            109 => ReadyToRunSectionType::InstanceMethodEntryPoints,
            110 => ReadyToRunSectionType::InliningInfo,
            111 => ReadyToRunSectionType::ProfileDataInfo,
            112 => ReadyToRunSectionType::ManifestMetadata,
            113 => ReadyToRunSectionType::AttributePresence,
            114 => ReadyToRunSectionType::InliningInfo2,
            115 => ReadyToRunSectionType::ComponentAssemblies,
            116 => ReadyToRunSectionType::OwnerCompositeExecutable,
            117 => ReadyToRunSectionType::PgoInstrumentationData,
            118 => ReadyToRunSectionType::ManifestAssemblyMvids,
            119 => ReadyToRunSectionType::CrossModuleInlineInfo,
            120 => ReadyToRunSectionType::HotColdMap,
            121 => ReadyToRunSectionType::MethodIsGenericMap,
            122 => ReadyToRunSectionType::EnclosingTypeMap,
            123 => ReadyToRunSectionType::TypeGenericInfoMap,
            200 => ReadyToRunSectionType::StringTable,
            201 => ReadyToRunSectionType::GCStaticRegion,
            202 => ReadyToRunSectionType::ThreadStaticRegion,
            204 => ReadyToRunSectionType::TypeManagerIndirection,
            205 => ReadyToRunSectionType::EagerCctor,
            206 => ReadyToRunSectionType::FrozenObjectRegion,
            207 => ReadyToRunSectionType::DehydratedData,
            208 => ReadyToRunSectionType::ThreadStaticOffsetRegion,
            212 => ReadyToRunSectionType::ImportAddressTables,
            213 => ReadyToRunSectionType::ModuleInitializerList,
            _ => {
                if 300 <= num && num <= 399 {
                    ReadyToRunSectionType::ReflectionMapBlob(ReflectionMapBlob::from_u32(num - 300))
                } else {
                    ReadyToRunSectionType::Unknown(num)
                }
            },
        }
    }
}

/// The mark that opens a ReadyToRun header: the letters `RTR` and a zero
/// byte.
#[derive(Clone, Copy, Debug)]
pub struct Signature;

impl Signature {
    /// The mark as a little-endian number.
    pub const SIGNATURE: u32 = 0x00525452;

    /// The mark, if `value` is its number.
    pub fn try_from_u32(value: u32) -> (r: Option<Signature>)
        ensures
            r is Some <==> value == 0x00525452,
    {
        if value == Self::SIGNATURE {
            Some(Signature)
        } else {
            None
        }
    }

    /// The four bytes of the mark, as they lie in the image.
    pub fn as_bytes(self) -> (bytes: [u8; 4])
        ensures
            bytes@ == seq![0x52u8, 0x54u8, 0x52u8, 0x00u8],
    {
        let bytes: [u8; 4] = [0x52, 0x54, 0x52, 0x00];
        assert(bytes@ =~= seq![0x52u8, 0x54u8, 0x52u8, 0x00u8]);
        bytes
    }

    /// The mark as a little-endian number.
    pub fn as_u32(self) -> (value: u32)
        ensures
            value == 0x00525452,
    {
        Self::SIGNATURE
    }
}

/// Why the bytes at an address are no ReadyToRun header.
#[derive(Clone, Copy, Debug, PartialEq, Eq, Structural)]
pub enum RtrError {
    /// A field lies outside the image.
    Unreadable,
    /// The first four bytes are not the mark of a header.
    BadSignature,
    /// The count of sections is 0x8000 or more.
    TooManySections,
}

/// One entry of the section list of a ReadyToRun header.
#[derive(Clone, Copy)]
pub struct ReadyToRunSection<'a> {
    /// Where the entry itself lies.
    pub view: ImageView<'a>,
    pub section_type: ReadyToRunSectionType,
    pub flags: u32,
    /// Where the data of the section starts.
    pub start: ImageView<'a>,
    /// Where the data of the section ends.
    pub end: ImageView<'a>,
}

/// The directory of the auxiliary sections of an image.
pub struct ReadyToRunHeader<'a> {
    pub signature: Signature,
    pub major_version: u16,
    pub minor_version: u16,
    pub flags: u32,
    pub number_of_sections: u16,
    pub entry_size: u8,
    pub entry_type: u8,
    pub sections: Vec<ReadyToRunSection<'a>>,
}

/// The 8-bit field that lies `distance` bytes behind `va`.
pub open spec fn spec_field_u8(pe: &PeImage, va: u64, distance: int) -> Option<u8> {
    if va + distance > u64::MAX {
        None
    } else {
        spec_u8_at(pe, (va + distance) as u64)
    }
}

/// The fixed part of the header at `va`, behind the mark: major and minor
/// version, flags, count of sections, entry size and entry type.
pub open spec fn spec_header_fields(pe: &PeImage, va: u64) -> Result<
    (u16, u16, u32, u16, u8, u8),
    RtrError,
> {
    match spec_field_u32(pe, va, 0) {
        None => Err(RtrError::Unreadable),
        Some(signature) => if signature != 0x00525452 {
            Err(RtrError::BadSignature)
        } else {
            match (
                spec_field_u16(pe, va, 4),
                spec_field_u16(pe, va, 6),
                spec_field_u32(pe, va, 8),
                spec_field_u16(pe, va, 12),
                spec_field_u8(pe, va, 14),
                spec_field_u8(pe, va, 15),
            ) {
                (Some(major), Some(minor), Some(flags), Some(count), Some(size), Some(kind)) => {
                    if count >= 0x8000 {
                        Err(RtrError::TooManySections)
                    } else {
                        Ok((major, minor, flags, count, size, kind))
                    }
                },
                _ => Err(RtrError::Unreadable),
            }
        },
    }
}

/// The section entry that lies `distance` bytes behind `va`: type tag,
/// flags, and the addresses of the start and the end of the data.
pub open spec fn spec_section_entry<'a>(pe: &'a PeImage, va: u64, distance: int) -> Option<
    ReadyToRunSection<'a>,
> {
    match (
        spec_field_u32(pe, va, distance),
        spec_field_u32(pe, va, distance + 4),
        spec_field_u64(pe, va, distance + 8),
        spec_field_u64(pe, va, distance + 16),
    ) {
        (Some(tag), Some(flags), Some(start), Some(end)) => Some(
            (ReadyToRunSection {
                view: (ImageView { pe, base: (va + distance) as u64, offset: 0 }),
                section_type: spec_section_type_from_tag(tag),
                flags,
                start: (ImageView { pe, base: start, offset: 0 }),
                end: (ImageView { pe, base: end, offset: 0 }),
            }),
        ),
        _ => None,
    }
}

/// The first `count` section entries of the header at `va`: they follow its
/// 16 bytes, 24 bytes each.
pub open spec fn spec_section_entries<'a>(pe: &'a PeImage, va: u64, count: nat) -> Option<
    Seq<ReadyToRunSection<'a>>,
>
    decreases count,
{
    if count == 0 {
        Some(Seq::empty())
    } else {
        match spec_section_entries(pe, va, (count - 1) as nat) {
            Some(before) => match spec_section_entry(pe, va, 16 + 24 * (count - 1)) {
                Some(entry) => Some(before.push(entry)),
                None => None,
            },
            None => None,
        }
    }
}

/// The index of the first of `sections` from `from` on whose kind is `kind`.
pub open spec fn spec_find_section(
    sections: Seq<ReadyToRunSection<'_>>,
    kind: ReadyToRunSectionType,
    from: int,
) -> Option<int>
    decreases sections.len() - from,
{
    if from < 0 || from >= sections.len() {
        None
    } else if sections[from].section_type == kind {
        Some(from)
    } else {
        spec_find_section(sections, kind, from + 1)
    }
}

/// Where a run of section entries cannot be read, no longer run can.
proof fn lemma_entries_fail_on(pe: &PeImage, va: u64, short: nat, long: nat)
    requires
        short <= long,
        spec_section_entries(pe, va, short) is None,
    ensures
        spec_section_entries(pe, va, long) is None,
    decreases long,
{
    if short < long {
        lemma_entries_fail_on(pe, va, short, (long - 1) as nat);
    }
}

fn field_u8(pe: &PeImage, va: u64, distance: u64) -> (r: Option<u8>)
    ensures
        r == spec_field_u8(pe, va, distance as int),
{
    match va.checked_add(distance) {
        Some(at) => read_u8_at(pe, at),
        None => None,
    }
}

fn field_u16(pe: &PeImage, va: u64, distance: u64) -> (r: Option<u16>)
    ensures
        r == spec_field_u16(pe, va, distance as int),
{
    match va.checked_add(distance) {
        Some(at) => read_u16_at(pe, at),
        None => None,
    }
}

fn field_u32(pe: &PeImage, va: u64, distance: u64) -> (r: Option<u32>)
    ensures
        r == spec_field_u32(pe, va, distance as int),
{
    match va.checked_add(distance) {
        Some(at) => read_u32_at(pe, at),
        None => None,
    }
}

fn field_u64(pe: &PeImage, va: u64, distance: u64) -> (r: Option<u64>)
    ensures
        r == spec_field_u64(pe, va, distance as int),
{
    match va.checked_add(distance) {
        Some(at) => read_u64_at(pe, at),
        None => None,
    }
}

impl<'a> ReadyToRunSection<'a> {
    /// Reads the section entry that lies `distance` bytes behind `va`.
    fn parse(pe: &'a PeImage, va: u64, distance: u64) -> (r: Option<Self>)
        requires
            distance <= 16 + 24 * 0x8000,
        ensures
            r == spec_section_entry(pe, va, distance as int),
    {
        let tag = field_u32(pe, va, distance);
        let flags = field_u32(pe, va, distance + 4);
        let start = field_u64(pe, va, distance + 8);
        let end = field_u64(pe, va, distance + 16);
        match (tag, flags, start, end) {
            (Some(tag), Some(flags), Some(start), Some(end)) => {
                let at: u64 = va + distance;
                Some(
                    ReadyToRunSection {
                        view: ImageView::new(pe, at),
                        section_type: ReadyToRunSectionType::from_u32(tag),
                        flags,
                        start: ImageView::new(pe, start),
                        end: ImageView::new(pe, end),
                    },
                )
            },
            _ => None,
        }
    }
}

impl<'a> ReadyToRunHeader<'a> {
    /// Reads the header at which `view` stands: the mark, the fixed fields,
    /// and as many section entries as the count says.
    pub fn parse(view: ImageView<'a>) -> (r: Result<Self, RtrError>)
        ensures
            match spec_header_fields(view.pe, view.spec_va()) {
                Err(e) => r is Err && r->Err_0 == e,
                Ok(fields) => match spec_section_entries(
                    view.pe,
                    view.spec_va(),
                    fields.3 as nat,
                ) {
                    None => r is Err && r->Err_0 == RtrError::Unreadable,
                    Some(sections) => r is Ok && r->Ok_0.major_version == fields.0
                        && r->Ok_0.minor_version == fields.1 && r->Ok_0.flags == fields.2
                        && r->Ok_0.number_of_sections == fields.3 && r->Ok_0.entry_size
                        == fields.4 && r->Ok_0.entry_type == fields.5 && r->Ok_0.sections@
                        == sections,
                },
            },
    {
        let pe: &'a PeImage = view.pe;
        let va: u64 = view.va();
        let signature = match field_u32(pe, va, 0) {
            None => {
                return Err(RtrError::Unreadable);
            },
            Some(value) => match Signature::try_from_u32(value) {
                Some(signature) => signature,
                None => {
                    return Err(RtrError::BadSignature);
                },
            },
        };
        let major = field_u16(pe, va, 4);
        let minor = field_u16(pe, va, 6);
        let flags = field_u32(pe, va, 8);
        let count = field_u16(pe, va, 12);
        let size = field_u8(pe, va, 14);
        let kind = field_u8(pe, va, 15);
        match (major, minor, flags, count, size, kind) {
            (Some(major), Some(minor), Some(flags), Some(count), Some(size), Some(kind)) => {
                if count >= 0x8000 {
                    return Err(RtrError::TooManySections);
                }
                let mut sections: Vec<ReadyToRunSection<'a>> = Vec::new();
                let mut i: u16 = 0;
                while i < count
                    invariant
                        i <= count < 0x8000,
                        pe == view.pe,
                        va == view.spec_va(),
                        spec_header_fields(pe, va) == Ok::<(u16, u16, u32, u16, u8, u8), RtrError>(
                            (major, minor, flags, count, size, kind),
                        ),
                        spec_section_entries(pe, va, i as nat) == Some(sections@),
                    decreases count - i,
                {
                    match ReadyToRunSection::parse(pe, va, 16 + 24 * (i as u64)) {
                        Some(section) => {
                            sections.push(section);
                        },
                        None => {
                            proof {
                                lemma_entries_fail_on(pe, va, (i + 1) as nat, count as nat);
                            }
                            return Err(RtrError::Unreadable);
                        },
                    }
                    i = i + 1;
                }
                Ok(
                    ReadyToRunHeader {
                        signature,
                        major_version: major,
                        minor_version: minor,
                        flags,
                        number_of_sections: count,
                        entry_size: size,
                        entry_type: kind,
                        sections,
                    },
                )
            },
            _ => Err(RtrError::Unreadable),
        }
    }

    /// The first section of the kind `section_type`.
    pub fn section(&self, section_type: ReadyToRunSectionType) -> (r: Option<
        ReadyToRunSection<'a>,
    >)
        ensures
            match spec_find_section(self.sections@, section_type, 0) {
                Some(index) => r == Some(self.sections@[index]),
                None => r is None,
            },
    {
        let mut i: usize = 0;
        while i < self.sections.len()
            invariant
                i <= self.sections@.len(),
                spec_find_section(self.sections@, section_type, i as int) == spec_find_section(
                    self.sections@,
                    section_type,
                    0,
                ),
            decreases self.sections@.len() - i,
        {
            if self.sections[i].section_type == section_type {
                return Some(self.sections[i]);
            }
            i = i + 1;
        }
        None
    }

    /// The first section that holds the reflection blob `blob_type`.
    pub fn blob(&self, blob_type: ReflectionMapBlob) -> (r: Option<ReadyToRunSection<'a>>)
        ensures
            match spec_find_section(
                self.sections@,
                ReadyToRunSectionType::ReflectionMapBlob(blob_type),
                0,
            ) {
                Some(index) => r == Some(self.sections@[index]),
                None => r is None,
            },
    {
        self.section(ReadyToRunSectionType::ReflectionMapBlob(blob_type))
    }

    /// The hashtable that the reflection blob `blob_type` starts with:
    /// `None` where the header lists no such blob, where its start lies
    /// outside the image, where more than 2^30 bytes follow it, and where
    /// its first byte is no table header.
    pub fn blob_hashtable(&self, blob_type: ReflectionMapBlob) -> (r: Option<NativeHashtable<'a>>)
        ensures
            match spec_find_section(
                self.sections@,
                ReadyToRunSectionType::ReflectionMapBlob(blob_type),
                0,
            ) {
                None => r is None,
                Some(index) => match spec_bytes_at(
                    self.sections@[index].start.pe,
                    self.sections@[index].start.spec_va(),
                ) {
                    None => r is None,
                    Some(bytes) => if bytes.len() >= 0x4000_0000 {
                        r is None
                    } else {
                        match spec_table_header(bytes, 0) {
                            None => r is None,
                            Some((base, mask, index_size)) => r is Some && r->Some_0.data()
                                == bytes && r->Some_0.base() == base && r->Some_0.mask() == mask
                                && r->Some_0.index_size() == index_size,
                        }
                    },
                },
            },
    {
        let blob = match self.blob(blob_type) {
            Some(blob) => blob,
            None => {
                return None;
            },
        };
        let bytes = match blob.start.bytes() {
            Ok(bytes) => bytes,
            Err(_) => {
                return None;
            },
        };
        let reader = match NativeReader::new(bytes) {
            Ok(reader) => reader,
            Err(_) => {
                return None;
            },
        };
        let parser = NativeParser::new(reader, 0);
        match NativeHashtable::new(parser) {
            Ok(table) => Some(table),
            Err(_) => None,
        }
    }

    /// The reader of the embedded metadata blob: `None` where the header
    /// lists no such blob, where its start lies outside the image, where
    /// more than 2^30 bytes follow it, and where it does not start with the
    /// mark of embedded metadata.
    pub fn metadata(&self) -> (r: Option<MetadataReader<'a>>)
        ensures
            match spec_find_section(
                self.sections@,
                ReadyToRunSectionType::ReflectionMapBlob(ReflectionMapBlob::EmbeddedMetadata),
                0,
            ) {
                None => r is None,
                Some(index) => match spec_bytes_at(
                    self.sections@[index].start.pe,
                    self.sections@[index].start.spec_va(),
                ) {
                    None => r is None,
                    Some(bytes) => if bytes.len() < 0x4000_0000 && spec_has_metadata_signature(
                        bytes,
                    ) {
                        r is Some && r->Some_0.stream_reader@ == bytes && r->Some_0.header.reader
                            == r->Some_0.stream_reader
                            && r->Some_0.header.scope_definitions.reader
                            == r->Some_0.stream_reader
                            && r->Some_0.header.scope_definitions.offset == 4
                    } else {
                        r is None
                    },
                },
            },
    {
        let blob = match self.blob(ReflectionMapBlob::EmbeddedMetadata) {
            Some(blob) => blob,
            None => {
                return None;
            },
        };
        let bytes = match blob.start.bytes() {
            Ok(bytes) => bytes,
            Err(_) => {
                return None;
            },
        };
        match MetadataReader::new(bytes) {
            Ok(reader) => Some(reader),
            Err(_) => None,
        }
    }

    /// The table of external references of the common fixups blob, which
    /// spans from the start of the blob to its end: `None` where the header
    /// lists no such blob or its end lies before its start.
    pub fn common_fixups_table(&self) -> (r: Option<ExternalReferencesTable<'a>>)
        ensures
            match spec_find_section(
                self.sections@,
                ReadyToRunSectionType::ReflectionMapBlob(ReflectionMapBlob::CommonFixupsTable),
                0,
            ) {
                None => r is None,
                Some(index) => {
                    let section = self.sections@[index];
                    if section.end.spec_va() < section.start.spec_va() {
                        r is None
                    } else {
                        r is Some && r->Some_0.pe() == section.start.pe && r->Some_0.base()
                            == section.start.spec_base() && r->Some_0.count() == (
                        section.end.spec_va() - section.start.spec_va()) / 4
                    }
                },
            },
    {
        match self.blob(ReflectionMapBlob::CommonFixupsTable) {
            Some(section) => {
                let start: u64 = section.start.va();
                let end: u64 = section.end.va();
                if end < start {
                    None
                } else {
                    Some(ExternalReferencesTable::new(section.start, end - start))
                }
            },
            None => None,
        }
    }
}

} // verus!
