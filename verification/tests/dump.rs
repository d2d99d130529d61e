use aot_experiments::binary::{NativeAotBinary, ScanError};
use aot_experiments::error::AotError;
use aot_experiments::ida::HytaleDefinition;
use aot_experiments::native_format::encoding::encode_unsigned;
use aot_experiments::pe::{PeImage, SectionHeader};
use aot_experiments::report::dump::{
    check_required, dump, dump_ida, mapped_type_name, metadata_of, table_name, DumpError, Tables,
};
use aot_experiments::report::types::method_pointers;

const BASE: u64 = 0x40_0000;
const CLASS: u32 = 0x14 << 26;
const ROOT: u32 = 0x2100;
const T_TABLE: u32 = 0x2200;
const FIXUPS: u32 = 0x2300;
const METADATA: u32 = 0x2400;
const HEADER: u32 = 0x2700;
const TYPE_MAP: u32 = 0x3000;
const INVOKE_MAP: u32 = 0x4000;
const T_HASH: u32 = 0x1234_5678;

fn name8(name: &str) -> [u8; 8] {
    let mut stored = [0u8; 8];
    stored[..name.len()].copy_from_slice(name.as_bytes());
    stored
}

fn section(name: &str, rva: u32, size: u32, raw: u32) -> SectionHeader {
    SectionHeader {
        name: name8(name),
        virtual_address: rva,
        virtual_size: size,
        pointer_to_raw_data: raw,
        size_of_raw_data: size,
    }
}

fn va(rva: u32) -> u64 {
    BASE + rva as u64
}

/// The file offset of an address of the data sections.
fn fo(rva: u32) -> usize {
    match rva {
        0x2000..=0x27ff => (rva - 0x2000 + 0x300) as usize,
        0x3000..=0x30ff => (rva - 0x3000 + 0xb00) as usize,
        _ => (rva - 0x4000 + 0xc00) as usize,
    }
}

fn put(image: &mut PeImage, at: usize, bytes: &[u8]) {
    image.image[at..at + bytes.len()].copy_from_slice(bytes);
}

fn put_mt(image: &mut PeImage, rva: u32, base_size: u32, related: u64, hashcode: u32, vtable: &[u64]) {
    let mut bytes = Vec::new();
    bytes.extend_from_slice(&CLASS.to_le_bytes());
    bytes.extend_from_slice(&base_size.to_le_bytes());
    bytes.extend_from_slice(&related.to_le_bytes());
    bytes.extend_from_slice(&(vtable.len() as u16).to_le_bytes());
    bytes.extend_from_slice(&0u16.to_le_bytes());
    bytes.extend_from_slice(&hashcode.to_le_bytes());
    for slot in vtable {
        bytes.extend_from_slice(&slot.to_le_bytes());
    }
    put(image, fo(rva), &bytes);
}

fn rel2(delta: i64) -> [u8; 2] {
    assert!((-0x2000..0x2000).contains(&delta));
    let pattern = if delta < 0 { delta + 0x4000 } else { delta } as u32;
    [((pattern % 64) * 4 + 1) as u8, (pattern / 64) as u8]
}

/// A table with one bucket whose entries are the given low hash bytes with
/// the given payloads.
fn one_bucket(entries: &[(u8, Vec<u8>)]) -> Vec<u8> {
    let entries_start = 2usize;
    let payloads_start = entries_start + 3 * entries.len();
    let mut entry_bytes = Vec::new();
    let mut payload_bytes: Vec<u8> = Vec::new();
    for (low, payload) in entries {
        let rel_at = entries_start + entry_bytes.len() + 1;
        let payload_at = payloads_start + payload_bytes.len();
        entry_bytes.push(*low);
        entry_bytes.extend_from_slice(&rel2(payload_at as i64 - rel_at as i64));
        payload_bytes.extend_from_slice(payload);
    }
    let mut blob = vec![0u8, entries_start as u8, (entries_start + entry_bytes.len()) as u8];
    blob.extend(entry_bytes);
    blob.extend(payload_bytes);
    blob
}

fn unsigned(values: &[u32]) -> Vec<u8> {
    values.iter().flat_map(|v| encode_unsigned(*v)).collect()
}

struct Places {
    t: u32,
    run: u32,
}

/// Metadata with the scope `Asm`, the namespace `N`, the type `T` and its
/// method `Run`.
fn metadata() -> (Vec<u8>, Places) {
    let mut bytes = 0xdead_dffdu32.to_le_bytes().to_vec();
    bytes.resize(16, 0);
    let string = |bytes: &mut Vec<u8>, text: &str| {
        let at = bytes.len() as u32;
        bytes.extend(encode_unsigned(text.len() as u32));
        bytes.extend_from_slice(text.as_bytes());
        at
    };
    let s_asm = string(&mut bytes, "Asm");
    let s_n = string(&mut bytes, "N");
    let s_t = string(&mut bytes, "T");
    let s_run = string(&mut bytes, "Run");
    // the method: flags, impl flags, name, signature, three collections
    let run = bytes.len() as u32;
    bytes.extend(unsigned(&[6, 0, s_run, 0, 0, 0, 0]));
    // the namespaces: root, then N; a namespace is parent, name and three collections
    let root = bytes.len() as u32;
    let n = root + 6;
    let t = n + unsigned(&[(root << 7) | 0x2f, s_n, 1, 0, 0, 0]).len() as u32;
    bytes.extend(unsigned(&[0, 0, 0, 0, 1, n]));
    assert_eq!(bytes.len() as u32, n);
    bytes.extend(unsigned(&[(root << 7) | 0x2f, s_n, 1, t, 0, 0]));
    assert_eq!(bytes.len() as u32, t);
    // the type: flags, base, namespace, name, size, packing, enclosing, nested, methods, ...
    bytes.extend(unsigned(&[0, 0, n, s_t, 0, 0, 0, 0, 1, run, 0, 0, 0, 0, 0, 0]));
    let scope = bytes.len() as u32;
    bytes.extend(unsigned(&[0, s_asm, 0, 1, 2, 3, 4, 0, 0, root, 0, 0, 0, 0, 0, 0]));
    let header = unsigned(&[1, scope]);
    bytes[4..4 + header.len()].copy_from_slice(&header);
    (bytes, Places { t, run })
}

fn sample() -> PeImage {
    let mut image = PeImage {
        image: vec![0u8; 0xd00],
        image_base: BASE,
        size_of_image: 0x6000,
        size_of_headers: 0x200,
        sections: vec![
            section(".text", 0x1000, 0x100, 0x200),
            section(".rdata", 0x2000, 0x800, 0x300),
            section(".pdata", 0x3000, 0x100, 0xb00),
            section(".data", 0x4000, 0x100, 0xc00),
        ],
    };
    // method tables
    put(&mut image, fo(0x2008), &va(ROOT).to_le_bytes());
    put_mt(&mut image, ROOT, 0x18, 0, 1, &[va(0x1000), va(0x1010), va(0x1020)]);
    put_mt(&mut image, T_TABLE, 0x20, va(ROOT), T_HASH, &[va(0x1030)]);
    // references: to the table of T, to the address 0x1000, to the root
    let targets = [va(T_TABLE), 0x1000, va(ROOT)];
    for (i, target) in targets.iter().enumerate() {
        let slot = va(FIXUPS + 4 * i as u32);
        put(&mut image, fo(FIXUPS + 4 * i as u32), &((*target as i64 - slot as i64) as i32).to_le_bytes());
    }
    let (bytes, places) = metadata();
    put(&mut image, fo(METADATA), &bytes);
    // the type map knows the table of T; its second entry refers to another table
    let type_map = one_bucket(&[
        (0x78, unsigned(&[2, places.t])),
        (0x78, unsigned(&[0, places.t])),
    ]);
    put(&mut image, fo(TYPE_MAP), &type_map);
    // the invoke map: an entry point of Run, and an entry without the entry point flag
    let invoke_map = one_bucket(&[
        (0x01, unsigned(&[32, places.run, 0, 1])),
        (0x02, unsigned(&[4, places.run, 0, 2])),
    ]);
    put(&mut image, fo(INVOKE_MAP), &invoke_map);
    put_sections(&mut image, &[(301, TYPE_MAP, 0x100), (306, INVOKE_MAP, 0x100), (308, FIXUPS, 12), (313, METADATA, 0x300)]);
    image
}

fn put_sections(image: &mut PeImage, sections: &[(u32, u32, u32)]) {
    let mut bytes = Vec::new();
    bytes.extend_from_slice(&0x0052_5452u32.to_le_bytes());
    bytes.extend_from_slice(&[9, 0, 0, 0, 0, 0, 0, 0]);
    bytes.extend_from_slice(&(sections.len() as u16).to_le_bytes());
    bytes.extend_from_slice(&[24, 1]);
    for (tag, start, size) in sections {
        bytes.extend_from_slice(&tag.to_le_bytes());
        bytes.extend_from_slice(&0u32.to_le_bytes());
        bytes.extend_from_slice(&va(*start).to_le_bytes());
        bytes.extend_from_slice(&va(*start + *size).to_le_bytes());
    }
    put(image, fo(HEADER), &vec![0u8; 16 + 24 * 4]);
    put(image, fo(HEADER), &bytes);
}

fn required(names: &[&str]) -> Vec<String> {
    names.iter().map(|n| n.to_string()).collect()
}

fn structs_of(definition: &HytaleDefinition) -> Vec<(Vec<String>, u16, u16, u64)> {
    definition.mt_structs.iter().map(|s| (s.name.clone(), s.vtables, s.ifaces, s.address)).collect()
}

fn functions_of(definition: &HytaleDefinition) -> Vec<(String, u64)> {
    definition.functions.iter().map(|f| (f.name.clone(), f.address)).collect()
}

#[test]
fn definitions_replace_pipes_and_dots() {
    let mut definition = HytaleDefinition::new();
    definition.create_mt_struct(0x10, "A.B|C.D<E>_vtbl", 3, 1);
    definition.create_function(0x20, "A.B|C.Run");
    definition.create_function(0x30, "plain");
    assert_eq!(
        structs_of(&definition),
        vec![(vec!["A".to_string(), "B_C".to_string(), "D<E>_vtbl".to_string()], 3, 1, 0x10)]
    );
    assert_eq!(
        functions_of(&definition),
        vec![("A_B_C_Run".to_string(), 0x20), ("plain".to_string(), 0x30)]
    );
    let empty = HytaleDefinition::default();
    assert!(empty.mt_structs.is_empty() && empty.functions.is_empty());
}

#[test]
fn type_map_join() {
    let image = sample();
    let binary = NativeAotBinary::load_pe(&image).unwrap();
    let metadata = metadata_of(&binary).unwrap();
    let tables = Tables::gather(&binary, metadata).unwrap();
    assert_eq!(mapped_type_name(&tables, T_HASH, va(T_TABLE)), Ok(Some("N.T".to_string())));
    // another table with the same hashcode, and another hashcode
    assert_eq!(mapped_type_name(&tables, T_HASH, va(0x2280)), Ok(None));
    assert_eq!(mapped_type_name(&tables, T_HASH + 1, va(T_TABLE)), Ok(None));
    assert_eq!(mapped_type_name(&tables, 1, va(ROOT)), Ok(None));
    let method_tables = binary.scan_method_tables().unwrap();
    assert_eq!(method_tables.len(), 2);
    assert_eq!(table_name(&tables, &method_tables[1]), Ok("N.T_vtbl".to_string()));
    assert_eq!(table_name(&tables, &method_tables[0]), Ok("Class_402100_vtbl".to_string()));
}

#[test]
fn invoke_map_join() {
    let image = sample();
    let binary = NativeAotBinary::load_pe(&image).unwrap();
    let definition = dump_ida(&binary, &required(&["Asm"])).unwrap();
    assert_eq!(functions_of(&definition), vec![("N_T_Run".to_string(), 4096)]);
    assert_eq!(
        structs_of(&definition),
        vec![
            (vec!["Class_402100_vtbl".to_string()], 3, 0, va(ROOT)),
            (vec!["N".to_string(), "T_vtbl".to_string()], 1, 0, va(T_TABLE)),
        ]
    );
    // the same in steps
    let metadata = metadata_of(&binary).unwrap();
    assert_eq!(check_required(metadata, &required(&[])), Ok(()));
    let tables = Tables::gather(&binary, metadata).unwrap();
    let again = dump(&binary, &tables).unwrap();
    assert_eq!(functions_of(&again), functions_of(&definition));
    assert_eq!(structs_of(&again), structs_of(&definition));
}

#[test]
fn entry_points_of_the_invoke_map() {
    let image = sample();
    let binary = NativeAotBinary::load_pe(&image).unwrap();
    let metadata = metadata_of(&binary).unwrap();
    let tables = Tables::gather(&binary, metadata).unwrap();
    let pointers = method_pointers(&tables.invoke_map, &tables.fixups).unwrap();
    let (_, places) = self::metadata();
    assert_eq!(pointers.len(), 1);
    assert_eq!(pointers.get(&((0x28 << 25) | places.run)), Some(&0x1000));
}

#[test]
fn required_assemblies_must_be_there() {
    let image = sample();
    let binary = NativeAotBinary::load_pe(&image).unwrap();
    assert!(matches!(
        dump_ida(&binary, &required(&["Asm", "HytaleClient", "Other"])),
        Err(DumpError::MissingAssembly(1))
    ));
    assert!(matches!(dump_ida(&binary, &required(&["asm"])), Err(DumpError::MissingAssembly(0))));
    assert!(dump_ida(&binary, &required(&["Asm", "Asm"])).is_ok());
    let metadata = metadata_of(&binary).unwrap();
    assert_eq!(check_required(metadata, &required(&["X"])), Err(DumpError::MissingAssembly(0)));
}

#[test]
fn missing_blobs_are_told_apart() {
    let dump_of = |image: &PeImage| {
        let binary = NativeAotBinary::load_pe(image).unwrap();
        dump_ida(&binary, &required(&["Asm"])).map(|d| d.functions.len())
    };
    let mut image = sample();
    put_sections(&mut image, &[(301, TYPE_MAP, 0x100), (306, INVOKE_MAP, 0x100), (308, FIXUPS, 12)]);
    assert_eq!(dump_of(&image), Err(DumpError::MissingMetadata));
    put_sections(&mut image, &[(301, TYPE_MAP, 0x100), (306, INVOKE_MAP, 0x100), (313, METADATA, 0x300)]);
    assert_eq!(dump_of(&image), Err(DumpError::MissingFixups));
    put_sections(&mut image, &[(306, INVOKE_MAP, 0x100), (308, FIXUPS, 12), (313, METADATA, 0x300)]);
    assert_eq!(dump_of(&image), Err(DumpError::MissingTypeMap));
    put_sections(&mut image, &[(301, TYPE_MAP, 0x100), (308, FIXUPS, 12), (313, METADATA, 0x300)]);
    assert_eq!(dump_of(&image), Err(DumpError::MissingInvokeMap));
    // scopes that cannot be listed
    let mut image = sample();
    put(&mut image, fo(METADATA) + 4, &[0x3f]);
    assert_eq!(dump_of(&image), Err(DumpError::ScopesUnreadable));
    // no root
    let mut image = sample();
    put_mt(&mut image, ROOT, 0x20, 0, 1, &[va(0x1000), va(0x1010), va(0x1020)]);
    assert_eq!(dump_of(&image), Err(DumpError::Scan(ScanError::RootNotFound)));
    // a type map entry that is cut off
    let mut image = sample();
    let at = fo(TYPE_MAP) + 2 + 6;
    put(&mut image, at + 2, &[0x3f]);
    assert_eq!(dump_of(&image), Ok(1));
    put(&mut image, at, &[0x3f]);
    assert_eq!(dump_of(&image), Err(DumpError::Image(AotError::BadImage)));
}
