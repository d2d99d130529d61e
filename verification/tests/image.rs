use aot_experiments::binary::headers::mt::{ElementType, MethodTable, MethodTableError};
use aot_experiments::binary::headers::rtr::{
    ReadyToRunHeader, ReadyToRunSectionType, ReflectionMapBlob, RtrError, Signature,
};
use aot_experiments::binary::{in_text, is_root, LoadError, NativeAotBinary, ScanError};
use aot_experiments::error::AotError;
use aot_experiments::native_format::ref_table::ExternalReferencesTable;
use aot_experiments::native_format::{read_u16_at, read_u32_at, read_u64_at, read_u8_at, ImageView};
use aot_experiments::pe::{PeImage, SectionHeader};

const BASE: u64 = 0x40_0000;
const CLASS: u32 = 0x14 << 26;
const INTERFACE: u32 = 0x15 << 26;

fn name8(name: &str) -> [u8; 8] {
    let mut stored = [0u8; 8];
    stored[..name.len()].copy_from_slice(name.as_bytes());
    stored
}

fn section(name: &str, rva: u32, vsize: u32, raw: u32, raw_size: u32) -> SectionHeader {
    SectionHeader {
        name: name8(name),
        virtual_address: rva,
        virtual_size: vsize,
        pointer_to_raw_data: raw,
        size_of_raw_data: raw_size,
    }
}

fn empty_image() -> PeImage {
    PeImage {
        image: vec![0u8; 0xd00],
        image_base: BASE,
        size_of_image: 0x6000,
        size_of_headers: 0x200,
        sections: vec![
            section(".text", 0x1000, 0x100, 0x200, 0x100),
            section(".rdata", 0x2000, 0x800, 0x300, 0x800),
            section(".pdata", 0x3000, 0x100, 0xb00, 0x100),
            section(".data", 0x4000, 0x100, 0xc00, 0x100),
        ],
    }
}

/// The file offset of an address of `.rdata`.
fn fo(rva: u32) -> usize {
    (rva - 0x2000 + 0x300) as usize
}

fn va(rva: u32) -> u64 {
    BASE + rva as u64
}

fn put(image: &mut PeImage, at: usize, bytes: &[u8]) {
    image.image[at..at + bytes.len()].copy_from_slice(bytes);
}

#[allow(clippy::too_many_arguments)]
fn put_mt(
    image: &mut PeImage,
    rva: u32,
    flags: u32,
    base_size: u32,
    related: u64,
    hashcode: u32,
    vtable: &[u64],
    ifaces: &[u64],
) {
    let mut bytes = Vec::new();
    bytes.extend_from_slice(&flags.to_le_bytes());
    bytes.extend_from_slice(&base_size.to_le_bytes());
    bytes.extend_from_slice(&related.to_le_bytes());
    bytes.extend_from_slice(&(vtable.len() as u16).to_le_bytes());
    bytes.extend_from_slice(&(ifaces.len() as u16).to_le_bytes());
    bytes.extend_from_slice(&hashcode.to_le_bytes());
    for slot in vtable.iter().chain(ifaces.iter()) {
        bytes.extend_from_slice(&slot.to_le_bytes());
    }
    put(image, fo(rva), &bytes);
}

const ROOT: u32 = 0x2100;

fn put_root(image: &mut PeImage) {
    put_mt(image, ROOT, CLASS, 0x18, 0, 1, &[va(0x1000), va(0x1010), va(0x1020)], &[]);
    // a place in the data that points to the root
    put(image, fo(0x2008), &va(ROOT).to_le_bytes());
}

fn put_header(image: &mut PeImage, rva: u32, sections: &[(u32, u32, u64, u64)]) {
    let mut bytes = Vec::new();
    bytes.extend_from_slice(&0x0052_5452u32.to_le_bytes());
    bytes.extend_from_slice(&9u16.to_le_bytes());
    bytes.extend_from_slice(&2u16.to_le_bytes());
    bytes.extend_from_slice(&0x11u32.to_le_bytes());
    bytes.extend_from_slice(&(sections.len() as u16).to_le_bytes());
    bytes.push(24);
    bytes.push(1);
    for (tag, flags, start, end) in sections {
        bytes.extend_from_slice(&tag.to_le_bytes());
        bytes.extend_from_slice(&flags.to_le_bytes());
        bytes.extend_from_slice(&start.to_le_bytes());
        bytes.extend_from_slice(&end.to_le_bytes());
    }
    put(image, fo(rva), &bytes);
}

fn binary_of(pe: &PeImage) -> NativeAotBinary<'_> {
    NativeAotBinary::from_pe(pe, va(0x2700)).unwrap()
}

fn image_with_header() -> PeImage {
    let mut image = empty_image();
    put_header(&mut image, 0x2700, &[]);
    image
}

// ---------------------------------------------------------------------------
// addresses
// ---------------------------------------------------------------------------

#[test]
fn virtual_addresses_are_relative_to_the_image_base() {
    let pe = empty_image();
    assert_eq!(pe.va_to_rva(0), None);
    assert_eq!(pe.va_to_rva(BASE - 1), None);
    assert_eq!(pe.va_to_rva(BASE), Some(0));
    assert_eq!(pe.va_to_rva(BASE + 0x2100), Some(0x2100));
    assert_eq!(pe.va_to_rva(BASE + 0x6000), Some(0x6000));
    assert_eq!(pe.va_to_rva(BASE + 0x6001), None);
    assert_eq!(pe.rva_to_va(0), None);
    assert_eq!(pe.rva_to_va(1), Some(BASE + 1));
    assert_eq!(pe.rva_to_va(0x5fff), Some(BASE + 0x5fff));
    assert_eq!(pe.rva_to_va(0x6000), None);
}

#[test]
fn addresses_map_to_file_offsets_through_the_sections() {
    let mut pe = empty_image();
    assert_eq!(pe.rva_to_file_offset(0x10), Some(0x10));
    assert_eq!(pe.rva_to_file_offset(0x1ff), Some(0x1ff));
    assert_eq!(pe.rva_to_file_offset(0x200), None);
    assert_eq!(pe.rva_to_file_offset(0x1000), Some(0x200));
    assert_eq!(pe.rva_to_file_offset(0x2008), Some(0x308));
    assert_eq!(pe.rva_to_file_offset(0x27ff), Some(0xaff));
    assert_eq!(pe.rva_to_file_offset(0x2800), None);
    assert_eq!(pe.rva_to_file_offset(0x40ff), Some(0xcff));
    assert_eq!(pe.va_to_file_offset(BASE + 0x3004), Some(0xb04));
    assert_eq!(pe.va_to_file_offset(5), None);
    // a section whose virtual size exceeds its raw data is zero filled behind them
    pe.sections[3].virtual_size = 0x200;
    assert_eq!(pe.rva_to_file_offset(0x4100), None);
    // a section whose raw range overflows is corrupt
    pe.sections[0].pointer_to_raw_data = u32::MAX;
    assert_eq!(pe.rva_to_file_offset(0x1000), None);
}

#[test]
fn file_offsets_map_back_to_addresses() {
    let mut pe = empty_image();
    assert_eq!(pe.file_offset_to_rva(0x1ff), Some(0x1ff));
    assert_eq!(pe.file_offset_to_rva(0x200), Some(0x1000));
    assert_eq!(pe.file_offset_to_rva(0x308), Some(0x2008));
    assert_eq!(pe.file_offset_to_rva(0xcff), Some(0x40ff));
    assert_eq!(pe.file_offset_to_rva(0xd00), None);
    // raw data that is not mapped
    pe.sections[1].virtual_size = 0x10;
    assert_eq!(pe.file_offset_to_rva(0x310), None);
    assert_eq!(pe.file_offset_to_rva(0x30f), Some(0x200f));
}

#[test]
fn sections_are_found_by_name_and_by_address() {
    let pe = empty_image();
    assert_eq!(pe.section_by_name(b".rdata"), Some(1));
    assert_eq!(pe.section_by_name(b".data"), Some(3));
    assert_eq!(pe.section_by_name(b".dat"), None);
    assert_eq!(pe.section_by_name(b".data\0\0\0"), Some(3));
    assert_eq!(pe.section_by_name(b".datalong"), None);
    assert_eq!(pe.section_by_rva(0x1000), Some(0));
    assert_eq!(pe.section_by_rva(0x10ff), Some(0));
    assert_eq!(pe.section_by_rva(0x1100), None);
    assert_eq!(pe.section_by_rva(0x3050), Some(2));
    assert!(pe.sections[0].name_is(b".text"));
    assert!(!pe.sections[0].name_is(b".tex"));
    assert_eq!(pe.sections[1].file_range(), (0x300, 0xb00));
    assert!(in_text(&pe, va(0x1080)));
    assert!(!in_text(&pe, va(0x2080)));
    assert!(!in_text(&pe, 0));
}

#[test]
fn image_reads_are_little_endian_and_checked() {
    let mut pe = empty_image();
    put(&mut pe, fo(0x2010), &[1, 2, 3, 4, 5, 6, 7, 8]);
    assert_eq!(read_u8_at(&pe, va(0x2010)), Some(1));
    assert_eq!(read_u16_at(&pe, va(0x2010)), Some(0x0201));
    assert_eq!(read_u32_at(&pe, va(0x2011)), Some(0x05040302));
    assert_eq!(read_u64_at(&pe, va(0x2010)), Some(0x0807060504030201));
    assert_eq!(read_u64_at(&pe, va(0x2800)), None);
    assert_eq!(read_u32_at(&pe, 0), None);
    // the last bytes of the file
    assert_eq!(read_u8_at(&pe, va(0x40ff)), Some(0));
    assert_eq!(read_u16_at(&pe, va(0x40ff)), None);
}

#[test]
fn views_stand_at_an_address_of_the_image() {
    let mut pe = empty_image();
    put(&mut pe, fo(0x2010), &[0xaa, 0xbb, 0xcc, 0xdd]);
    let view = ImageView::new(&pe, va(0x2010));
    assert_eq!(view.va(), va(0x2010));
    assert_eq!(view.tell(), 0);
    // the bytes run to the end of the raw data of the section
    let bytes = view.bytes().unwrap();
    assert_eq!(bytes.len(), 0xb00 - fo(0x2010));
    assert_eq!(&bytes[..4], &[0xaa, 0xbb, 0xcc, 0xdd]);
    // inside the headers they run to the end of the headers
    assert_eq!(ImageView::new(&pe, va(0x1f0)).bytes().unwrap().len(), 0x10);
    // and no further than the file
    let mut cut = empty_image();
    cut.image.truncate(0xc80);
    assert_eq!(ImageView::new(&cut, va(0x4000)).bytes().unwrap().len(), 0x80);
    assert_eq!(ImageView::new(&cut, va(0x3000)).bytes().unwrap().len(), 0x100);
    assert!(matches!(ImageView::new(&cut, va(0x4090)).bytes(), Err(AotError::BadImage)));
    assert_eq!(view.read_u32(), Some(0xddccbbaa));
    let moved = view.with_offset(2);
    assert_eq!(moved.va(), va(0x2012));
    assert_eq!(moved.read_u16(), Some(0xddcc));
    let mut cursor = view;
    cursor.seek(3);
    assert_eq!(cursor.tell(), 3);
    assert_eq!(cursor.va(), va(0x2013));
    assert_eq!(cursor.read_u8(), Some(0xdd));
    assert!(matches!(ImageView::new(&pe, 0x10).bytes(), Err(AotError::BadImage)));
    assert!(matches!(ImageView::new(&pe, va(0x2900)).bytes(), Err(AotError::BadImage)));
}

#[test]
fn references_are_relative_to_their_own_slot() {
    let mut pe = empty_image();
    // slot 0 at 0x2400 points 0x100 ahead, slot 1 points back to 0x1000, slot 2 to the address 0x1000
    put(&mut pe, fo(0x2400), &0x100i32.to_le_bytes());
    put(&mut pe, fo(0x2404), &(0x1000i32 - 0x2404).to_le_bytes());
    put(&mut pe, fo(0x2408), &((0x1000i64 - va(0x2408) as i64) as i32).to_le_bytes());
    let table = ExternalReferencesTable::new(ImageView::new(&pe, va(0x2400)), 12);
    assert_eq!(table.get_va_from_index(0), Some(va(0x2500)));
    assert_eq!(table.get_va_from_index(1), Some(va(0x1000)));
    assert_eq!(table.get_va_from_index(2), Some(0x1000));
    // an index equal to the count is still read
    assert_eq!(table.get_va_from_index(3), Some(va(0x240c)));
    assert_eq!(table.get_va_from_index(4), None);
    // the table starts at the base of its view, wherever the cursor stands
    let mut moved = ImageView::new(&pe, va(0x2400));
    moved.seek(4);
    assert_eq!(moved.tell(), 4);
    assert_eq!(moved.va(), va(0x2404));
    let behind = ExternalReferencesTable::new(moved, 12);
    assert_eq!(behind.get_va_from_index(0), Some(va(0x2500)));
    assert_eq!(behind.get_va_from_index(1), Some(va(0x1000)));
    // a slot outside the image
    let outside = ExternalReferencesTable::new(ImageView::new(&pe, va(0x27fc)), 64);
    assert_eq!(outside.get_va_from_index(0), Some(va(0x27fc)));
    assert_eq!(outside.get_va_from_index(1), None);
}

// ---------------------------------------------------------------------------
// method tables
// ---------------------------------------------------------------------------

#[test]
fn element_types_have_numbers_and_names() {
    assert_eq!(ElementType::from_u32(0x14), Some(ElementType::Class));
    assert_eq!(ElementType::from_u32(0x15), Some(ElementType::Interface));
    assert_eq!(ElementType::from_u32(0x00), Some(ElementType::Unknown));
    assert_eq!(ElementType::from_u32(0x1b), Some(ElementType::FunctionPointer));
    assert_eq!(ElementType::from_u32(0x11), None);
    assert_eq!(ElementType::from_u32(0x13), None);
    assert_eq!(ElementType::from_u32(0x1c), None);
    assert_eq!(ElementType::SzArray.to_u32(), 0x18);
    assert_eq!(ElementType::Class.name(), "Class");
    assert_eq!(ElementType::UIntPtr.name(), "UIntPtr");
    for code in 0..0x20u32 {
        if let Some(element_type) = ElementType::from_u32(code) {
            assert_eq!(element_type.to_u32(), code);
            assert_eq!(element_type.name(), format!("{:?}", element_type));
        }
    }
}

#[test]
fn method_table_is_read_field_by_field() {
    let mut pe = empty_image();
    put_mt(&mut pe, 0x2200, CLASS | 0x1234, 0x20, va(ROOT), 0xcafe, &[va(0x1000), 7], &[va(0x2500)]);
    let table = MethodTable::parse(ImageView::new(&pe, va(0x2200))).unwrap();
    assert_eq!(table.va, va(0x2200));
    assert_eq!(table.flags, CLASS | 0x1234);
    assert_eq!(table.base_size, 0x20);
    assert_eq!(table.related_type_address, va(ROOT));
    assert_eq!(table.hashcode, 0xcafe);
    assert_eq!(table.element_type, ElementType::Class);
    assert_eq!(table.vtable_addresses, vec![va(0x1000), 7]);
    assert_eq!(table.iface_addresses, vec![va(0x2500)]);
    assert_eq!(table.related_type, None);
    assert!(table.interfaces.is_empty());
}

#[test]
fn method_table_errors() {
    let mut pe = empty_image();
    let parse = |pe: &PeImage, rva: u32| MethodTable::parse(ImageView::new(pe, va(rva))).map(|t| t.va);
    assert_eq!(parse(&pe, 0x2800), Err(MethodTableError::Unreadable));
    assert_eq!(MethodTable::parse(ImageView::new(&pe, 0)).map(|t| t.va), Err(MethodTableError::Unreadable));
    // counts of 1000 are refused
    put_mt(&mut pe, 0x2200, CLASS, 0x18, 0, 0, &[], &[]);
    put(&mut pe, fo(0x2210), &1000u16.to_le_bytes());
    assert_eq!(parse(&pe, 0x2200), Err(MethodTableError::InvalidVtableCount));
    put(&mut pe, fo(0x2210), &999u16.to_le_bytes());
    put(&mut pe, fo(0x2212), &1000u16.to_le_bytes());
    assert_eq!(parse(&pe, 0x2200), Err(MethodTableError::InvalidInterfaceCount));
    // 999 slots do not fit the section
    put(&mut pe, fo(0x2212), &0u16.to_le_bytes());
    assert_eq!(parse(&pe, 0x2200), Err(MethodTableError::Unreadable));
    // base sizes
    put_mt(&mut pe, 0x2200, CLASS, 0x0f, 0, 0, &[], &[]);
    assert_eq!(parse(&pe, 0x2200), Err(MethodTableError::BaseSize));
    put_mt(&mut pe, 0x2200, CLASS, 0x10, 0, 0, &[], &[]);
    assert_eq!(parse(&pe, 0x2200), Ok(va(0x2200)));
    put_mt(&mut pe, 0x2200, INTERFACE, 0x10, 0, 0, &[], &[]);
    assert_eq!(parse(&pe, 0x2200), Err(MethodTableError::InterfaceBaseSize));
    put_mt(&mut pe, 0x2200, INTERFACE, 0, 8, 0, &[], &[]);
    assert_eq!(parse(&pe, 0x2200), Err(MethodTableError::InterfaceRelatedType));
    put_mt(&mut pe, 0x2200, INTERFACE, 0, 0, 0, &[], &[]);
    assert_eq!(parse(&pe, 0x2200), Ok(va(0x2200)));
    assert_eq!(MethodTableError::BaseSize.message(), "unexpected base size");
}

#[test]
fn unknown_element_type_numbers_read_as_unknown() {
    let mut pe = empty_image();
    put_mt(&mut pe, 0x2200, 0x11 << 26, 0x18, 0, 0, &[], &[]);
    let table = MethodTable::parse(ImageView::new(&pe, va(0x2200))).unwrap();
    assert_eq!(table.element_type, ElementType::Unknown);
    // bit 31 is not part of the element type
    put_mt(&mut pe, 0x2200, 0x8000_0000 | CLASS, 0x18, 0, 0, &[], &[]);
    let table = MethodTable::parse(ImageView::new(&pe, va(0x2200))).unwrap();
    assert_eq!(table.element_type, ElementType::Class);
}

// ---------------------------------------------------------------------------
// the ReadyToRun header
// ---------------------------------------------------------------------------

#[test]
fn section_tags_map_to_kinds() {
    assert_eq!(ReadyToRunSectionType::from_u32(100), ReadyToRunSectionType::CompilerIdentifier);
    assert_eq!(ReadyToRunSectionType::from_u32(106), ReadyToRunSectionType::DelayLoadMethodCallThunks);
    assert_eq!(ReadyToRunSectionType::from_u32(107), ReadyToRunSectionType::Unknown(107));
    assert_eq!(ReadyToRunSectionType::from_u32(108), ReadyToRunSectionType::AvailableTypes);
    assert_eq!(ReadyToRunSectionType::from_u32(123), ReadyToRunSectionType::TypeGenericInfoMap);
    assert_eq!(ReadyToRunSectionType::from_u32(124), ReadyToRunSectionType::Unknown(124));
    assert_eq!(ReadyToRunSectionType::from_u32(200), ReadyToRunSectionType::StringTable);
    assert_eq!(ReadyToRunSectionType::from_u32(203), ReadyToRunSectionType::Unknown(203));
    assert_eq!(ReadyToRunSectionType::from_u32(208), ReadyToRunSectionType::ThreadStaticOffsetRegion);
    assert_eq!(ReadyToRunSectionType::from_u32(209), ReadyToRunSectionType::Unknown(209));
    assert_eq!(ReadyToRunSectionType::from_u32(212), ReadyToRunSectionType::ImportAddressTables);
    assert_eq!(ReadyToRunSectionType::from_u32(213), ReadyToRunSectionType::ModuleInitializerList);
    assert_eq!(ReadyToRunSectionType::from_u32(0), ReadyToRunSectionType::Unknown(0));
    assert_eq!(ReadyToRunSectionType::from_u32(299), ReadyToRunSectionType::Unknown(299));
    assert_eq!(ReadyToRunSectionType::from_u32(400), ReadyToRunSectionType::Unknown(400));
    assert_eq!(ReadyToRunSectionType::from_u32(301), ReadyToRunSectionType::ReflectionMapBlob(ReflectionMapBlob::TypeMap));
    assert_eq!(ReadyToRunSectionType::from_u32(306), ReadyToRunSectionType::ReflectionMapBlob(ReflectionMapBlob::InvokeMap));
    assert_eq!(ReadyToRunSectionType::from_u32(308), ReadyToRunSectionType::ReflectionMapBlob(ReflectionMapBlob::CommonFixupsTable));
    assert_eq!(ReadyToRunSectionType::from_u32(313), ReadyToRunSectionType::ReflectionMapBlob(ReflectionMapBlob::EmbeddedMetadata));
    assert_eq!(ReadyToRunSectionType::from_u32(341), ReadyToRunSectionType::ReflectionMapBlob(ReflectionMapBlob::ProxyTypeMap));
    assert_eq!(ReadyToRunSectionType::from_u32(300), ReadyToRunSectionType::ReflectionMapBlob(ReflectionMapBlob::Unknown));
    assert_eq!(ReadyToRunSectionType::from_u32(305), ReadyToRunSectionType::ReflectionMapBlob(ReflectionMapBlob::Unknown));
    assert_eq!(ReadyToRunSectionType::from_u32(342), ReadyToRunSectionType::ReflectionMapBlob(ReflectionMapBlob::Unknown));
    assert_eq!(ReadyToRunSectionType::from_u32(399), ReadyToRunSectionType::ReflectionMapBlob(ReflectionMapBlob::Unknown));
}

#[test]
fn reflection_blobs_fill_the_listed_indices() {
    let filled = [
        1u32, 2, 3, 4, 6, 7, 8, 9, 10, 11, 13, 15, 16, 17, 18, 19, 21, 22, 24, 25, 26, 27, 28, 29,
        30, 31, 32, 33, 34, 35, 36, 40, 41,
    ];
    for index in 0..100u32 {
        let known = ReflectionMapBlob::from_u32(index) != ReflectionMapBlob::Unknown;
        assert_eq!(known, filled.contains(&index), "index {index}");
    }
}

#[test]
fn signature_is_rtr_and_a_zero() {
    assert_eq!(Signature.as_u32(), 0x0052_5452);
    assert_eq!(&Signature.as_bytes(), b"RTR\0");
    assert!(Signature::try_from_u32(0x0052_5452).is_some());
    assert!(Signature::try_from_u32(0x0052_5453).is_none());
}

#[test]
fn header_is_read_with_its_sections() {
    let mut pe = empty_image();
    put_header(
        &mut pe,
        0x2700,
        &[(301, 5, va(0x2400), va(0x2440)), (100, 6, va(0x2000), va(0x2008)), (301, 7, 1, 2)],
    );
    let header = ReadyToRunHeader::parse(ImageView::new(&pe, va(0x2700))).unwrap();
    assert_eq!(header.major_version, 9);
    assert_eq!(header.minor_version, 2);
    assert_eq!(header.flags, 0x11);
    assert_eq!(header.number_of_sections, 3);
    assert_eq!(header.entry_size, 24);
    assert_eq!(header.entry_type, 1);
    assert_eq!(header.sections.len(), 3);
    assert_eq!(header.sections[1].section_type, ReadyToRunSectionType::CompilerIdentifier);
    assert_eq!(header.sections[1].flags, 6);
    assert_eq!(header.sections[1].start.va(), va(0x2000));
    assert_eq!(header.sections[1].end.va(), va(0x2008));
    assert_eq!(header.sections[1].view.va(), va(0x2700 + 16 + 24));
    // the first section of a kind is the one that is found
    let blob = header.blob(ReflectionMapBlob::TypeMap).unwrap();
    assert_eq!(blob.flags, 5);
    assert!(header.blob(ReflectionMapBlob::InvokeMap).is_none());
    assert!(header.section(ReadyToRunSectionType::CompilerIdentifier).is_some());
    assert!(header.section(ReadyToRunSectionType::Unknown(7)).is_none());
}

#[test]
fn header_errors() {
    let mut pe = empty_image();
    let parse = |pe: &PeImage, rva: u32| {
        ReadyToRunHeader::parse(ImageView::new(pe, va(rva))).map(|h| h.number_of_sections)
    };
    assert_eq!(parse(&pe, 0x2700), Err(RtrError::BadSignature));
    assert_eq!(parse(&pe, 0x2800), Err(RtrError::Unreadable));
    put_header(&mut pe, 0x2700, &[]);
    assert_eq!(parse(&pe, 0x2700), Ok(0));
    put(&mut pe, fo(0x270c), &0x8000u16.to_le_bytes());
    assert_eq!(parse(&pe, 0x2700), Err(RtrError::TooManySections));
    // more sections than the image holds
    put(&mut pe, fo(0x270c), &0x7fffu16.to_le_bytes());
    assert_eq!(parse(&pe, 0x2700), Err(RtrError::Unreadable));
    // a header that is cut off by the end of the section
    put(&mut pe, fo(0x27f8), &0x0052_5452u32.to_le_bytes());
    assert_eq!(parse(&pe, 0x27f8), Err(RtrError::Unreadable));
}

#[test]
fn header_is_found_by_search() {
    let mut pe = empty_image();
    assert!(matches!(NativeAotBinary::load_pe(&pe), Err(LoadError::HeaderNotFound)));
    // a mark that is no header: too many sections
    put(&mut pe, fo(0x2010), &0x0052_5452u32.to_le_bytes());
    put(&mut pe, fo(0x2010 + 12), &0xffffu16.to_le_bytes());
    // a mark at an offset that no step reaches
    put_header(&mut pe, 0x2204, &[(100, 0, 1, 2)]);
    assert!(matches!(NativeAotBinary::load_pe(&pe), Err(LoadError::HeaderNotFound)));
    // headers in .data and in .rdata: the one in .rdata is found first
    put(&mut pe, 0xc00 + 0x20, &{
        let mut bytes = 0x0052_5452u32.to_le_bytes().to_vec();
        bytes.extend_from_slice(&[1, 0, 0, 0, 0, 0, 0, 0, 0, 0, 8, 0]);
        bytes
    });
    let binary = NativeAotBinary::load_pe(&pe).unwrap();
    assert_eq!(binary.rtr_header().major_version, 1);
    put_header(&mut pe, 0x2700, &[(313, 0, 1, 2)]);
    let binary = NativeAotBinary::load_pe(&pe).unwrap();
    assert_eq!(binary.rtr_header().major_version, 9);
    assert_eq!(binary.rtr_header().sections.len(), 1);
    // a known address
    let direct = NativeAotBinary::from_pe(&pe, va(0x4020)).unwrap();
    assert_eq!(direct.rtr_header().major_version, 1);
    assert!(matches!(NativeAotBinary::from_pe(&pe, va(0x4028)), Err(RtrError::BadSignature)));
}

#[test]
fn blobs_without_content_are_absent() {
    let mut pe = empty_image();
    put_header(
        &mut pe,
        0x2700,
        &[
            (301, 0, va(0x2400), va(0x2440)),
            (308, 0, va(0x2440), va(0x2430)),
            (313, 0, va(0x2480), va(0x2500)),
            (306, 0, 0x10, 0x20),
        ],
    );
    // index size 3 is no table header
    put(&mut pe, fo(0x2400), &[0x03]);
    let binary = binary_of(&pe);
    let header = binary.rtr_header();
    assert!(header.blob_hashtable(ReflectionMapBlob::TypeMap).is_none());
    assert!(header.blob_hashtable(ReflectionMapBlob::InvokeMap).is_none());
    assert!(header.blob_hashtable(ReflectionMapBlob::ArrayMap).is_none());
    assert!(header.common_fixups_table().is_none());
    assert!(header.metadata().is_none());
    put(&mut pe, fo(0x2400), &[0x00]);
    put(&mut pe, fo(0x2480), &0xdead_dffdu32.to_le_bytes());
    let binary = binary_of(&pe);
    assert!(binary.rtr_header().blob_hashtable(ReflectionMapBlob::TypeMap).is_some());
    assert!(binary.rtr_header().metadata().is_some());
}

// ---------------------------------------------------------------------------
// the scan
// ---------------------------------------------------------------------------

#[test]
fn root_is_the_first_table_that_looks_like_it() {
    let mut pe = image_with_header();
    assert!(matches!(binary_of(&pe).find_object_mt(), Err(ScanError::RootNotFound)));
    // candidates that fail one condition each
    put_mt(&mut pe, 0x2200, CLASS, 0x20, 0, 2, &[va(0x1000), va(0x1010), va(0x1020)], &[]);
    put_mt(&mut pe, 0x2240, CLASS, 0x18, 0, 3, &[va(0x1000), va(0x1010)], &[]);
    put_mt(&mut pe, 0x2280, CLASS, 0x18, 0, 4, &[va(0x1000), va(0x1010), va(0x2000)], &[]);
    put_mt(&mut pe, 0x22c0, CLASS, 0x18, va(0x2200), 5, &[va(0x1000), va(0x1010), va(0x1020)], &[]);
    put_mt(&mut pe, 0x2300, 0x10 << 26, 0x18, 0, 6, &[va(0x1000), va(0x1010), va(0x1020)], &[]);
    put_mt(&mut pe, 0x2340, CLASS, 0x18, 0, 7, &[va(0x1000), va(0x1010), va(0x1020)], &[0]);
    for (i, rva) in [0x2200u32, 0x2240, 0x2280, 0x22c0, 0x2300, 0x2340].iter().enumerate() {
        put(&mut pe, fo(0x2010 + 8 * i as u32), &va(*rva).to_le_bytes());
    }
    assert!(matches!(binary_of(&pe).find_object_mt(), Err(ScanError::RootNotFound)));
    // two that fit: the one whose address comes first in the data is taken
    put_mt(&mut pe, 0x2380, CLASS, 0x18, 0, 8, &[va(0x1000), va(0x1010), va(0x1020)], &[]);
    put_mt(&mut pe, 0x23c0, CLASS, 0x18, 0, 9, &[va(0x1000), va(0x1010), va(0x1020)], &[]);
    put(&mut pe, fo(0x2050), &va(0x23c0).to_le_bytes());
    put(&mut pe, fo(0x2058), &va(0x2380).to_le_bytes());
    let binary = binary_of(&pe);
    let root = binary.find_object_mt().unwrap();
    assert_eq!(root.va, va(0x23c0));
    assert_eq!(root.element_type, ElementType::Class);
    assert_eq!(root.base_size, 0x18);
    assert_eq!(root.related_type_address, 0);
    assert_eq!(root.vtable_addresses.len(), 3);
    assert!(root.iface_addresses.is_empty());
    assert!(root.vtable_addresses.iter().all(|slot| in_text(&pe, *slot)));
    assert!(is_root(&pe, &root));
}

#[test]
fn scan_needs_the_three_data_sections() {
    let mut pe = image_with_header();
    put_root(&mut pe);
    pe.sections[2].name = name8(".xdata");
    let binary = binary_of(&pe);
    assert_eq!(binary.find_object_mt().map(|t| t.va), Ok(va(ROOT)));
    assert!(matches!(binary.scan_method_tables(), Err(ScanError::MissingSection)));
    let mut pe = image_with_header();
    put_root(&mut pe);
    pe.sections[1].name = name8(".xdata");
    assert!(matches!(binary_of(&pe).find_object_mt(), Err(ScanError::MissingSection)));
    assert!(matches!(binary_of(&pe).scan_method_tables(), Err(ScanError::MissingSection)));
}

#[test]
fn scan_of_a_root_alone() {
    let mut pe = image_with_header();
    put_root(&mut pe);
    let tables = binary_of(&pe).scan_method_tables().unwrap();
    assert_eq!(tables.len(), 1);
    assert_eq!(tables[0].va, va(ROOT));
    assert_eq!(tables[0].related_type, None);
}

#[test]
fn scan_of_a_root_and_one_subtype() {
    let mut pe = image_with_header();
    put_root(&mut pe);
    put_mt(&mut pe, 0x2200, CLASS, 0x20, va(ROOT), 0x77, &[va(0x1000)], &[]);
    let tables = binary_of(&pe).scan_method_tables().unwrap();
    assert_eq!(tables.len(), 2);
    assert_eq!(tables[0].va, va(ROOT));
    assert_eq!(tables[1].va, va(0x2200));
    assert_eq!(tables[1].related_type, Some(tables[0].va));
    assert_eq!(tables[1].hashcode, 0x77);
}

#[test]
fn scan_of_a_chain_with_an_interface() {
    let mut pe = image_with_header();
    put_root(&mut pe);
    let (a, b, c, i) = (0x2200u32, 0x2300u32, 0x2400u32, 0x2500u32);
    // declared out of order in the data: the chain is C, then A, then B by address
    put_mt(&mut pe, a, CLASS, 0x20, va(ROOT), 0xa, &[va(0x1000)], &[]);
    put_mt(&mut pe, b, CLASS, 0x28, va(a), 0x3, &[], &[va(i), 0]);
    put_mt(&mut pe, c, CLASS, 0x30, va(b), 0xc, &[], &[]);
    put_mt(&mut pe, i, INTERFACE, 0, 0, 0x1, &[], &[]);
    let tables = binary_of(&pe).scan_method_tables().unwrap();
    let mut found: Vec<u64> = tables.iter().map(|t| t.va).collect();
    assert_eq!(found[0], va(ROOT));
    found.sort();
    assert_eq!(found, vec![va(ROOT), va(a), va(b), va(c), va(i)]);
    let at = |rva: u32| tables.iter().find(|t| t.va == va(rva)).unwrap();
    assert_eq!(at(a).related_type, Some(va(ROOT)));
    assert_eq!(at(b).related_type, Some(va(a)));
    assert_eq!(at(c).related_type, Some(va(b)));
    assert_eq!(at(i).related_type, None);
    assert_eq!(at(ROOT).related_type, None);
    // the interface of B is attached to the table that B derives from
    assert_eq!(at(a).interfaces, vec![va(i)]);
    assert!(at(b).interfaces.is_empty());
    assert!(at(ROOT).interfaces.is_empty());
    assert_eq!(at(i).element_type, ElementType::Interface);
    // every related table is among the tables
    for table in &tables {
        if let Some(related) = table.related_type {
            assert_eq!(related, table.related_type_address);
            assert!(tables.iter().any(|t| t.va == related));
        }
    }
}

#[test]
fn scan_finds_subtypes_that_lie_before_their_base() {
    let mut pe = image_with_header();
    put_root(&mut pe);
    // the deeper a type, the lower its address: each round finds one level
    let (a, b, c) = (0x2600u32, 0x2500u32, 0x2400u32);
    put_mt(&mut pe, a, CLASS, 0x20, va(ROOT), 0x1, &[], &[]);
    put_mt(&mut pe, b, CLASS, 0x20, va(a), 0x2, &[], &[]);
    put_mt(&mut pe, c, CLASS, 0x20, va(b), 0x3, &[], &[]);
    let tables = binary_of(&pe).scan_method_tables().unwrap();
    let found: Vec<u64> = tables.iter().map(|t| t.va).collect();
    assert_eq!(found, vec![va(ROOT), va(a), va(b), va(c)]);
}

#[test]
fn scan_finds_what_derives_from_an_interface_table() {
    let mut pe = image_with_header();
    put_root(&mut pe);
    // B derives from I, which is found only as the interface that A names; C derives from B
    let (c, b, a, i) = (0x2200u32, 0x2300u32, 0x2400u32, 0x2500u32);
    put_mt(&mut pe, a, CLASS, 0x20, va(ROOT), 0x1, &[], &[va(i)]);
    put_mt(&mut pe, i, INTERFACE, 0, 0, 0x2, &[], &[]);
    put_mt(&mut pe, b, CLASS, 0x20, va(i), 0x3, &[], &[]);
    put_mt(&mut pe, c, CLASS, 0x20, va(b), 0x4, &[], &[]);
    let tables = binary_of(&pe).scan_method_tables().unwrap();
    let found: Vec<u64> = tables.iter().map(|t| t.va).collect();
    // one round finds A and with it I, the next one B, the third one C
    assert_eq!(found, vec![va(ROOT), va(a), va(i), va(b), va(c)]);
    let at = |rva: u32| tables.iter().find(|t| t.va == va(rva)).unwrap();
    assert_eq!(at(i).related_type, None);
    assert_eq!(at(b).related_type, Some(va(i)));
    assert_eq!(at(c).related_type, Some(va(b)));
    assert_eq!(at(ROOT).interfaces, vec![va(i)]);
}

#[test]
fn scan_leaves_out_what_does_not_hang_on_the_root() {
    let mut pe = image_with_header();
    put_root(&mut pe);
    // a table whose base is no table, and one that cannot be read as a table
    put_mt(&mut pe, 0x2200, CLASS, 0x20, va(0x2600), 0x1, &[], &[]);
    put_mt(&mut pe, 0x2300, CLASS, 0x08, va(ROOT), 0x2, &[], &[]);
    // an interface that cannot be read is not attached
    put_mt(&mut pe, 0x2400, CLASS, 0x20, va(ROOT), 0x3, &[], &[va(0x2300), va(0x2800)]);
    let tables = binary_of(&pe).scan_method_tables().unwrap();
    let found: Vec<u64> = tables.iter().map(|t| t.va).collect();
    assert_eq!(found, vec![va(ROOT), va(0x2400)]);
    assert!(tables[0].interfaces.is_empty());
}
