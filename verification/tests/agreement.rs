use aot_experiments::pe::{PeImage, SectionHeader};
use pelite::pe64::{Pe, PeFile, PeObject};

const IMAGE_BASE: u64 = 0x1_4000_0000;
const SIZE_OF_IMAGE: u32 = 0x1_0000;
const SIZE_OF_HEADERS: u32 = 0x400;
const FILE_LEN: usize = 0x2000;

/// Name, virtual size, virtual address, size of raw data, pointer to raw data.
type Row = (&'static str, u32, u32, u32, u32);

/// Sections of which some are as a linker writes them and some are not:
/// raw data longer than the virtual range, a virtual range longer than
/// the raw data, ranges that overflow, ranges that overlap.
const ROWS: [Row; 9] = [
    (".text", 0x800, 0x1000, 0x800, 0x400),
    (".rdata", 0x300, 0x2000, 0x400, 0xc00),
    (".data", 0x1000, 0x3000, 0x200, 0x1000),
    (".bss", 0x1000, 0x4000, 0, 0),
    (".pdata", 0x100, 0x5000, 0x100, 0x1200),
    ("wraps", 0x100, 0xffff_ff80, 0x100, 0x1300),
    ("rawwraps", 0x100, 0x6000, 0xffff_ff00, 0x1400),
    (".data", 0x200, 0x3100, 0x200, 0x1600),
    ("12345678", 0x80, 0x7000, 0x100, 0x1800),
];

fn put16(bytes: &mut [u8], at: usize, value: u16) {
    bytes[at..at + 2].copy_from_slice(&value.to_le_bytes());
}

fn put32(bytes: &mut [u8], at: usize, value: u32) {
    bytes[at..at + 4].copy_from_slice(&value.to_le_bytes());
}

fn put64(bytes: &mut [u8], at: usize, value: u64) {
    bytes[at..at + 8].copy_from_slice(&value.to_le_bytes());
}

/// The bytes of an executable with the sections `ROWS`.
fn file() -> Vec<u8> {
    let mut bytes = vec![0u8; FILE_LEN];
    put16(&mut bytes, 0, 0x5a4d);
    put32(&mut bytes, 0x3c, 0x40);
    let nt = 0x40;
    put32(&mut bytes, nt, 0x0000_4550);
    put16(&mut bytes, nt + 4, 0x8664);
    put16(&mut bytes, nt + 6, ROWS.len() as u16);
    put16(&mut bytes, nt + 20, 112);
    put16(&mut bytes, nt + 22, 0x22);
    let optional = nt + 24;
    put16(&mut bytes, optional, 0x20b);
    put64(&mut bytes, optional + 24, IMAGE_BASE);
    put32(&mut bytes, optional + 32, 0x1000);
    put32(&mut bytes, optional + 36, 0x200);
    put32(&mut bytes, optional + 56, SIZE_OF_IMAGE);
    put32(&mut bytes, optional + 60, SIZE_OF_HEADERS);
    put32(&mut bytes, optional + 108, 0);
    let mut at = optional + 112;
    for (name, virtual_size, virtual_address, raw_size, raw) in ROWS {
        bytes[at..at + name.len()].copy_from_slice(name.as_bytes());
        put32(&mut bytes, at + 8, virtual_size);
        put32(&mut bytes, at + 12, virtual_address);
        put32(&mut bytes, at + 16, raw_size);
        put32(&mut bytes, at + 20, raw);
        at += 40;
    }
    for (i, byte) in bytes.iter_mut().enumerate().skip(SIZE_OF_HEADERS as usize) {
        *byte = (i % 251) as u8;
    }
    bytes
}

/// The plain values of what the loader has read.
fn image_of(pe: PeFile<'_>) -> PeImage {
    let optional_header = pe.optional_header();
    PeImage {
        image: pe.image().to_vec(),
        image_base: optional_header.ImageBase,
        size_of_image: optional_header.SizeOfImage,
        size_of_headers: optional_header.SizeOfHeaders,
        sections: pe
            .section_headers()
            .iter()
            .map(|section| SectionHeader {
                name: section.Name,
                virtual_address: section.VirtualAddress,
                virtual_size: section.VirtualSize,
                pointer_to_raw_data: section.PointerToRawData,
                size_of_raw_data: section.SizeOfRawData,
            })
            .collect(),
    }
}

/// Addresses around every border of the sections, and a sweep over the
/// image.
fn addresses() -> Vec<u32> {
    let mut all: Vec<u32> = (0..0x1_1000u32).step_by(7).collect();
    for (_, virtual_size, virtual_address, raw_size, raw) in ROWS {
        for edge in [
            virtual_address,
            virtual_address.wrapping_add(virtual_size),
            virtual_address.wrapping_add(raw_size),
            raw,
            raw.wrapping_add(raw_size),
            raw.wrapping_add(virtual_size),
        ] {
            for delta in [0u32, 1, 2, 0xffff_ffff, 0xffff_fffe] {
                all.push(edge.wrapping_add(delta));
            }
        }
    }
    all.extend([0, 1, SIZE_OF_HEADERS - 1, SIZE_OF_HEADERS, SIZE_OF_IMAGE - 1, SIZE_OF_IMAGE, u32::MAX]);
    all
}

#[test]
fn the_image_is_read_as_the_loader_reads_it() {
    let bytes = file();
    let pe = PeFile::from_bytes(&bytes).unwrap();
    let image = image_of(pe);
    assert_eq!(image.image_base, IMAGE_BASE);
    assert_eq!(image.size_of_image, SIZE_OF_IMAGE);
    assert_eq!(image.size_of_headers, SIZE_OF_HEADERS);
    assert_eq!(image.sections.len(), ROWS.len());
    assert_eq!(image.sections[1].virtual_address, 0x2000);
    assert_eq!(image.sections[1].pointer_to_raw_data, 0xc00);
}

#[test]
fn addresses_become_file_offsets_as_the_loader_has_it() {
    let bytes = file();
    let pe = PeFile::from_bytes(&bytes).unwrap();
    let image = image_of(pe);
    let mut stored = 0;
    for rva in addresses() {
        let expected = pe.rva_to_file_offset(rva).ok();
        assert_eq!(image.rva_to_file_offset(rva), expected, "rva {rva:#x}");
        if expected.is_some() {
            stored += 1;
        }
    }
    assert!(stored > 300);
    assert_eq!(image.rva_to_file_offset(0x2010), Some(0xc10));
    assert_eq!(image.rva_to_file_offset(0x3300), None);
}

#[test]
fn file_offsets_become_addresses_as_the_loader_has_it() {
    let bytes = file();
    let pe = PeFile::from_bytes(&bytes).unwrap();
    let image = image_of(pe);
    let mut mapped = 0;
    for offset in addresses() {
        let expected = pe.file_offset_to_rva(offset as usize).ok();
        assert_eq!(image.file_offset_to_rva(offset as usize), expected, "offset {offset:#x}");
        if expected.is_some() {
            mapped += 1;
        }
    }
    assert!(mapped > 300);
    assert_eq!(image.file_offset_to_rva(0xc10), Some(0x2010));
}

#[test]
fn virtual_addresses_are_taken_as_the_loader_takes_them() {
    let bytes = file();
    let pe = PeFile::from_bytes(&bytes).unwrap();
    let image = image_of(pe);
    for rva in addresses() {
        assert_eq!(image.rva_to_va(rva), pe.rva_to_va(rva).ok(), "rva {rva:#x}");
        for va in [rva as u64, IMAGE_BASE + rva as u64, IMAGE_BASE.wrapping_sub(rva as u64)] {
            assert_eq!(image.va_to_rva(va), pe.va_to_rva(va).ok(), "va {va:#x}");
            let expected = pe.va_to_rva(va).and_then(|rva| pe.rva_to_file_offset(rva)).ok();
            assert_eq!(image.va_to_file_offset(va), expected, "va {va:#x}");
        }
    }
    assert_eq!(image.va_to_rva(IMAGE_BASE + 0x2010), Some(0x2010));
    assert_eq!(image.va_to_rva(u64::MAX), None);
}

#[test]
fn sections_are_found_as_the_loader_finds_them() {
    let bytes = file();
    let pe = PeFile::from_bytes(&bytes).unwrap();
    let image = image_of(pe);
    let headers = pe.section_headers();
    let place = |found: Option<&pelite::pe64::headers::SectionHeader>| {
        found.map(|header| {
            headers
                .iter()
                .position(|other| std::ptr::eq(other, header))
                .unwrap()
        })
    };
    for name in [
        ".text", ".rdata", ".data", ".bss", ".pdata", "wraps", "rawwraps", "12345678", "123456789",
        "1234567", ".tex", ".text\0", "", ".managed", "hydrated",
    ] {
        assert_eq!(image.section_by_name(name.as_bytes()), place(headers.by_name(name)), "{name}");
    }
    assert_eq!(image.section_by_name(b".data"), Some(2));
    for rva in addresses() {
        assert_eq!(image.section_by_rva(rva), place(headers.by_rva(rva)), "rva {rva:#x}");
        for (index, section) in headers.iter().enumerate() {
            let range = section.virtual_range();
            assert_eq!(image.sections[index].holds_rva(rva), range.contains(&rva));
            let file = section.file_range();
            assert_eq!(image.sections[index].file_range(), (file.start, file.end));
        }
    }
    assert_eq!(image.section_by_rva(0x3150), Some(2));
}
