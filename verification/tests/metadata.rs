use std::collections::HashMap;

use aot_experiments::embedded_meta::flags::{
    MethodAttributes, MethodMemberAccess, SignatureCallingConvention, VtableLayout,
};
use aot_experiments::embedded_meta::handles::{
    BaseHandle, Handle, HandleType, MethodHandle, NamespaceDefinitionHandle,
    ScopeDefinitionHandle, TypeDefinitionHandle,
};
use aot_experiments::embedded_meta::names::{get_type_name_from_handle, ParentInfo};
use aot_experiments::embedded_meta::MetadataReader;
use aot_experiments::error::AotError;
use aot_experiments::native_format::encoding::{encode_signed, encode_unsigned};
use aot_experiments::native_format::reader::NativeReader;
use aot_experiments::pe::PeImage;
use aot_experiments::report::assemblies::get_assemblies;
use aot_experiments::report::types::{get_types, ListingContext};

const SCOPE: u8 = 0x38;
const NAMESPACE: u8 = 0x2f;
const TYPE_DEFINITION: u8 = 0x3a;
const TYPE_SPECIFICATION: u8 = 0x3e;
const TYPE_INSTANTIATION: u8 = 0x3c;
const BY_REFERENCE: u8 = 0x02;
const METHOD_VARIABLE: u8 = 0x2c;
const TYPE_VARIABLE: u8 = 0x3f;
const ARRAY_SIGNATURE: u8 = 0x01;

/// A metadata blob under construction. Records are written one behind the
/// other; handles that point ahead are written in a fixed width and filled
/// in later.
struct Blob {
    bytes: Vec<u8>,
}

impl Blob {
    fn new() -> Self {
        let mut bytes = 0xdead_dffdu32.to_le_bytes().to_vec();
        bytes.resize(32, 0);
        Blob { bytes }
    }

    fn here(&self) -> u32 {
        self.bytes.len() as u32
    }

    fn u(&mut self, value: u32) {
        self.bytes.extend(encode_unsigned(value));
    }

    fn i(&mut self, value: i32) {
        self.bytes.extend(encode_signed(value));
    }

    /// A typed handle in two bytes.
    fn h(&mut self, offset: u32) -> usize {
        let at = self.bytes.len();
        self.bytes.extend_from_slice(&[0, 0]);
        self.set_h(at, offset);
        at
    }

    fn set_h(&mut self, at: usize, offset: u32) {
        assert!(offset < 0x4000);
        self.bytes[at] = ((offset % 64) * 4 + 1) as u8;
        self.bytes[at + 1] = (offset / 64) as u8;
    }

    /// A handle of any kind, in the packed form, in three bytes.
    fn b(&mut self, kind: u8, offset: u32) -> usize {
        let at = self.bytes.len();
        self.bytes.extend_from_slice(&[0, 0, 0]);
        self.set_b(at, kind, offset);
        at
    }

    fn set_b(&mut self, at: usize, kind: u8, offset: u32) {
        let value = (offset << 7) | kind as u32;
        assert!(value < 0x20_0000);
        self.bytes[at] = ((value % 32) * 8 + 3) as u8;
        self.bytes[at + 1] = ((value / 32) % 256) as u8;
        self.bytes[at + 2] = (value / 8192) as u8;
    }

    fn coll(&mut self, offsets: &[u32]) -> usize {
        self.u(offsets.len() as u32);
        let at = self.bytes.len();
        for offset in offsets {
            self.h(*offset);
        }
        at
    }

    fn base_coll(&mut self, items: &[(u8, u32)]) {
        self.u(items.len() as u32);
        for (kind, offset) in items {
            self.b(*kind, *offset);
        }
    }

    fn byte_coll(&mut self, data: &[u8]) {
        self.u(data.len() as u32);
        self.bytes.extend_from_slice(data);
    }

    fn string(&mut self, text: &str) -> u32 {
        let at = self.here();
        self.u(text.len() as u32);
        self.bytes.extend_from_slice(text.as_bytes());
        at
    }

    fn generic_parameter(&mut self, number: u32, name: u32) -> u32 {
        let at = self.here();
        self.u(number);
        self.u(0);
        self.bytes.push(0);
        self.h(name);
        self.base_coll(&[]);
        self.coll(&[]);
        at
    }

    fn scopes(&mut self, offsets: &[u32]) {
        let mut header = Vec::new();
        header.extend(encode_unsigned(offsets.len() as u32));
        for offset in offsets {
            assert!(*offset < 0x4000);
            header.push(((offset % 64) * 4 + 1) as u8);
            header.push((offset / 64) as u8);
        }
        assert!(4 + header.len() <= 32);
        self.bytes[4..4 + header.len()].copy_from_slice(&header);
    }
}

/// The places of the records of the sample metadata.
struct Sample {
    bytes: Vec<u8>,
    scope: u32,
    second_scope: u32,
    root: u32,
    n1: u32,
    n2: u32,
    n: u32,
    t: u32,
    c: u32,
    m: u32,
    by_ref_u: u32,
    type_var_0: u32,
    method_var_0: u32,
    method_var_7: u32,
    instantiation: u32,
    specification: u32,
}

fn sample() -> Sample {
    let mut blob = Blob::new();
    let s_asm = blob.string("Asm");
    let s_other = blob.string("Other.Lib");
    let s_n1 = blob.string("N1");
    let s_n2 = blob.string("N2");
    let s_n = blob.string("N");
    let s_t = blob.string("T");
    let s_c = blob.string("C");
    let s_m = blob.string("M");
    let s_u = blob.string("U");
    let s_value = blob.string("value");
    let gp_t = blob.generic_parameter(0, s_t);
    let gp_u = blob.generic_parameter(0, s_u);

    // signatures
    let method_var_0 = blob.here();
    blob.i(0);
    let method_var_7 = blob.here();
    blob.i(7);
    let type_var_0 = blob.here();
    blob.i(0);
    let by_ref_u = blob.here();
    blob.b(METHOD_VARIABLE, method_var_0);

    // the type T in N1.N2, with one field of the type C
    let field_signature = blob.here();
    let field_type_at = blob.b(TYPE_DEFINITION, 0);
    let field = blob.here();
    blob.u(0);
    blob.h(s_value);
    blob.h(field_signature);
    blob.b(0, 0);
    blob.u(0);
    blob.coll(&[]);

    let t = blob.here();
    blob.u(0);
    blob.b(0, 0);
    let t_namespace_at = blob.h(0);
    blob.h(s_t);
    blob.u(8);
    blob.u(0);
    blob.h(0);
    blob.coll(&[]);
    blob.coll(&[]);
    blob.coll(&[field]);
    blob.coll(&[]);
    blob.coll(&[]);
    blob.coll(&[]);
    blob.base_coll(&[]);
    blob.coll(&[]);

    // the method M<U>(ref U) of C, which returns a C
    let signature = blob.here();
    blob.u(0x20);
    blob.i(1);
    let return_type_at = blob.b(TYPE_DEFINITION, 0);
    blob.base_coll(&[(BY_REFERENCE, by_ref_u)]);
    blob.base_coll(&[]);
    let m = blob.here();
    blob.u(0x0016);
    blob.u(0);
    blob.h(s_m);
    blob.h(signature);
    blob.coll(&[]);
    blob.coll(&[gp_u]);
    blob.coll(&[]);

    // the type C<T> in N, derived from T
    let c = blob.here();
    blob.u(0);
    blob.b(TYPE_DEFINITION, t);
    let c_namespace_at = blob.h(0);
    blob.h(s_c);
    blob.u(16);
    blob.u(0);
    blob.h(0);
    blob.coll(&[]);
    blob.coll(&[m]);
    blob.coll(&[]);
    blob.coll(&[]);
    blob.coll(&[]);
    blob.coll(&[gp_t]);
    blob.base_coll(&[]);
    blob.coll(&[]);
    blob.set_b(field_type_at, TYPE_DEFINITION, c);
    blob.set_b(return_type_at, TYPE_DEFINITION, c);

    // C<N1.N2.T, T> and a specification of it
    let instantiation = blob.here();
    blob.b(TYPE_DEFINITION, c);
    blob.base_coll(&[(TYPE_DEFINITION, t), (TYPE_VARIABLE, type_var_0)]);
    let specification = blob.here();
    blob.b(TYPE_INSTANTIATION, instantiation);

    // namespaces: the root holds N1 and N, N1 holds N2
    let root = blob.here();
    let root_parent_at = blob.b(SCOPE, 0);
    blob.h(0);
    blob.coll(&[]);
    blob.coll(&[]);
    let root_children_at = blob.coll(&[0, 0]);
    let n1 = blob.here();
    blob.b(NAMESPACE, root);
    blob.h(s_n1);
    blob.coll(&[]);
    blob.coll(&[]);
    let n1_children_at = blob.coll(&[0]);
    let n2 = blob.here();
    blob.b(NAMESPACE, n1);
    blob.h(s_n2);
    blob.coll(&[t]);
    blob.coll(&[]);
    blob.coll(&[]);
    let n = blob.here();
    blob.b(NAMESPACE, root);
    blob.h(s_n);
    blob.coll(&[c]);
    blob.coll(&[]);
    blob.coll(&[]);
    blob.set_h(root_children_at, n1);
    blob.set_h(root_children_at + 2, n);
    blob.set_h(n1_children_at, n2);
    blob.set_h(t_namespace_at, n2);
    blob.set_h(c_namespace_at, n);

    // scopes
    let scope = blob.here();
    blob.set_b(root_parent_at, SCOPE, scope);
    write_scope(&mut blob, s_asm, [1, 2, 3, 4], root);
    let bare = blob.here();
    blob.b(0, 0);
    blob.h(0);
    blob.coll(&[]);
    blob.coll(&[]);
    blob.coll(&[]);
    let second_scope = blob.here();
    write_scope(&mut blob, s_other, [10, 0, 65535, 7], bare);
    blob.scopes(&[scope, second_scope]);

    Sample {
        bytes: blob.bytes,
        scope,
        second_scope,
        root,
        n1,
        n2,
        n,
        t,
        c,
        m,
        by_ref_u,
        type_var_0,
        method_var_0,
        method_var_7,
        instantiation,
        specification,
    }
}

fn write_scope(blob: &mut Blob, name: u32, version: [u32; 4], root: u32) {
    blob.u(0);
    blob.h(name);
    blob.u(0x8004);
    for part in version {
        blob.u(part);
    }
    blob.byte_coll(&[1, 2, 3]);
    blob.h(0);
    blob.h(root);
    blob.h(0);
    blob.h(0);
    blob.coll(&[]);
    blob.h(0);
    blob.byte_coll(&[]);
    blob.coll(&[]);
}

fn packed(kind: u8, offset: u32) -> BaseHandle {
    BaseHandle::from_value((offset << 7) | kind as u32).unwrap()
}

fn typed<H: Handle>(offset: u32) -> H {
    H::from_value(offset).unwrap()
}

// ---------------------------------------------------------------------------
// handles and flags
// ---------------------------------------------------------------------------

#[test]
fn handle_kinds_have_numbers_and_names() {
    assert_eq!(HandleType::from_u8(0), Some(HandleType::Null));
    assert_eq!(HandleType::from_u8(0x28), Some(HandleType::Method));
    assert_eq!(HandleType::from_u8(0x3a), Some(HandleType::TypeDefinition));
    assert_eq!(HandleType::from_u8(0x3f), Some(HandleType::TypeVariableSignature));
    assert_eq!(HandleType::from_u8(0x40), None);
    assert_eq!(HandleType::from_u8(0xff), Some(HandleType::Invalid));
    assert_eq!(HandleType::Method.to_u8(), 0x28);
    for code in 0..=0x3fu8 {
        let kind = HandleType::from_u8(code).unwrap();
        assert_eq!(kind.to_u8(), code);
        assert_eq!(kind.name(), format!("{:?}", kind));
    }
}

#[test]
fn handles_split_into_kind_and_offset() {
    let handle = BaseHandle::from_raw((0x3a << 25) | 0x123);
    assert_eq!(handle.handle_type(), Some(HandleType::TypeDefinition));
    assert_eq!(handle.offset(), 0x123);
    assert!(!handle.is_nil());
    assert!(BaseHandle::from_raw(0x3a << 25).is_nil());
    assert_eq!(BaseHandle::from_raw(0x7f << 25).handle_type(), None);
    assert_eq!(handle.to_value(), (0x3a << 25) | 0x123);
    assert_eq!(handle.to_base().to_value(), handle.to_value());
}

#[test]
fn packed_handles_hold_the_kind_in_the_low_bits() {
    let handle = BaseHandle::from_value((0x123 << 7) | 0x3a).unwrap();
    assert_eq!(handle.to_value(), (0x3a << 25) | 0x123);
    let all = BaseHandle::from_value(u32::MAX).unwrap();
    assert_eq!(all.to_value(), u32::MAX);
    assert_eq!(BaseHandle::from_value(0).unwrap().to_value(), 0);
}

#[test]
fn typed_handles_accept_their_kind_and_the_null_kind() {
    let of_kind = MethodHandle::from_value((0x28 << 25) | 5).unwrap();
    assert_eq!(of_kind.to_value(), (0x28 << 25) | 5);
    let of_null = MethodHandle::from_value(5).unwrap();
    assert_eq!(of_null.to_value(), (0x28 << 25) | 5);
    assert_eq!(of_null.offset(), 5);
    assert!(!of_null.is_nil());
    assert!(MethodHandle::from_value(0).unwrap().is_nil());
    assert_eq!(of_null.to_base().handle_type(), Some(HandleType::Method));
    assert!(matches!(
        MethodHandle::from_value((0x3a << 25) | 5),
        Err(AotError::InvalidMetaHandle)
    ));
    assert!(matches!(MethodHandle::from_value(0x7f << 25), Err(AotError::InvalidMetaHandle)));
    let base = BaseHandle::from_raw((0x3a << 25) | 9);
    assert!(base.to_handle::<TypeDefinitionHandle>().is_ok());
    assert!(matches!(base.to_handle::<MethodHandle>(), Err(AotError::InvalidMetaHandle)));
}

#[test]
fn method_attribute_bits() {
    let attributes = MethodAttributes::new(0x0156);
    assert_eq!(attributes.raw(), 0x0156);
    assert_eq!(attributes.member_access(), MethodMemberAccess::Public);
    assert_eq!(attributes.vtable_layout(), VtableLayout::NewSlot);
    assert!(attributes.is_static());
    assert!(attributes.is_virtual());
    assert!(!attributes.is_abstract());
    assert!(!attributes.is_pinvoke());
    assert_eq!(attributes.reserved_bits(), 0);
    let other = MethodAttributes::new(0xffff_fc07 & !0x10);
    assert_eq!(other.member_access(), MethodMemberAccess::PrivateScope);
    assert_eq!(other.vtable_layout(), VtableLayout::ReuseSlot);
    assert!(!other.is_static());
    assert!(other.is_abstract());
    assert!(other.is_pinvoke());
    assert_eq!(other.reserved_bits(), 0xd000);
    assert_eq!(MethodAttributes::new(0x1000).reserved_bits(), 0x1000);
    let access = [
        MethodMemberAccess::PrivateScope,
        MethodMemberAccess::Private,
        MethodMemberAccess::FamAndAssem,
        MethodMemberAccess::Assembly,
        MethodMemberAccess::Family,
        MethodMemberAccess::FamOrAssem,
        MethodMemberAccess::Public,
        MethodMemberAccess::PrivateScope,
    ];
    for (raw, expected) in access.iter().enumerate() {
        assert_eq!(MethodAttributes::new(raw as u32).member_access(), *expected);
    }
}

#[test]
fn calling_conventions() {
    assert_eq!(SignatureCallingConvention::from_primitive(0x00), SignatureCallingConvention::Default);
    assert_eq!(SignatureCallingConvention::from_primitive(0x20), SignatureCallingConvention::HasThis);
    assert_eq!(SignatureCallingConvention::from_primitive(0x40), SignatureCallingConvention::ExplicitThis);
    assert_eq!(SignatureCallingConvention::from_primitive(0x05), SignatureCallingConvention::Vararg);
    assert_eq!(SignatureCallingConvention::from_primitive(0x01), SignatureCallingConvention::Cdecl);
    assert_eq!(SignatureCallingConvention::from_primitive(0x02), SignatureCallingConvention::StdCall);
    assert_eq!(SignatureCallingConvention::from_primitive(0x03), SignatureCallingConvention::ThisCall);
    assert_eq!(SignatureCallingConvention::from_primitive(0x04), SignatureCallingConvention::FastCall);
    assert_eq!(SignatureCallingConvention::from_primitive(0x09), SignatureCallingConvention::Unmanaged);
    assert_eq!(
        SignatureCallingConvention::from_primitive(0x0f),
        SignatureCallingConvention::UnmanagedCallingConventionMask
    );
    assert_eq!(SignatureCallingConvention::from_primitive(0x21), SignatureCallingConvention::Default);
    assert_eq!(SignatureCallingConvention::HasThis.name(), "HasThis");
}

// ---------------------------------------------------------------------------
// the reader and its records
// ---------------------------------------------------------------------------

#[test]
fn metadata_needs_its_signature() {
    assert!(matches!(MetadataReader::new(&[]), Err(AotError::BadImage)));
    assert!(matches!(MetadataReader::new(&[0xfd, 0xdf, 0xad]), Err(AotError::BadImage)));
    assert!(matches!(MetadataReader::new(&[0xfd, 0xdf, 0xad, 0xdf]), Err(AotError::BadImage)));
    let reader = MetadataReader::new(&[0xfd, 0xdf, 0xad, 0xde]).unwrap();
    assert!(matches!(reader.header().scope_definitions().count(), Err(AotError::BadImage)));
    assert!(matches!(get_assemblies(reader), Err(AotError::BadImage)));
    let sample = sample();
    let reader = MetadataReader::new(&sample.bytes).unwrap();
    assert_eq!(reader.header().scope_definitions().count(), Ok(2));
}

#[test]
fn scope_record_is_read_field_by_field() {
    let sample = sample();
    let reader = MetadataReader::new(&sample.bytes).unwrap();
    let scopes = reader.header().scope_definitions().handles().unwrap();
    assert_eq!(scopes.len(), 2);
    assert_eq!(scopes[0].offset(), sample.scope);
    assert_eq!(scopes[1].offset(), sample.second_scope);
    let scope = scopes[0].to_data(reader).unwrap();
    assert_eq!(scope.handle().offset(), sample.scope);
    assert_eq!(scope.flags, 0);
    assert_eq!(scope.name.to_data(reader).unwrap().value, "Asm");
    assert_eq!(scope.hash_algorithm, 0x8004);
    assert_eq!(
        (scope.major_version, scope.minor_version, scope.build_number, scope.revision_number),
        (1, 2, 3, 4)
    );
    assert_eq!(scope.public_key.count(), Ok(3));
    assert!(scope.culture.is_nil());
    assert_eq!(scope.root_namespace_definition.offset(), sample.root);
    assert_eq!(scope.custom_attributes.count(), Ok(0));
    assert_eq!(scope.mvid.count(), Ok(0));
}

#[test]
fn records_that_run_past_the_end_are_bad_images() {
    let sample = sample();
    let cut = &sample.bytes[..sample.scope as usize + 6];
    let reader = MetadataReader::new(cut).unwrap();
    let handle: ScopeDefinitionHandle = typed(sample.scope);
    assert!(matches!(handle.to_data(reader), Err(AotError::BadImage)));
    let beyond: ScopeDefinitionHandle = typed(0x3fff);
    assert!(matches!(beyond.to_data(reader), Err(AotError::BadImage)));
}

#[test]
fn records_with_a_handle_of_another_kind_are_refused() {
    // a type specification whose record holds a five-byte value with an invalid kind is fine,
    // but a namespace whose name is a handle of the kind of a method is not
    let mut blob = Blob::new();
    let namespace = blob.here();
    blob.b(0, 0);
    blob.u((0x28 << 25) | 5);
    blob.coll(&[]);
    blob.coll(&[]);
    blob.coll(&[]);
    let reader = MetadataReader::new(&blob.bytes).unwrap();
    let handle: NamespaceDefinitionHandle = typed(namespace);
    assert!(matches!(handle.to_data(reader), Err(AotError::InvalidMetaHandle)));
}

#[test]
fn collections_walk_their_handles() {
    let sample = sample();
    let reader = MetadataReader::new(&sample.bytes).unwrap();
    let root = typed::<NamespaceDefinitionHandle>(sample.root).to_data(reader).unwrap();
    assert!(root.name.is_nil());
    assert_eq!(root.parent_scope_or_namespace.handle_type(), Some(HandleType::ScopeDefinition));
    assert_eq!(root.parent_scope_or_namespace.offset(), sample.scope);
    let children = root.namespace_definitions;
    assert_eq!(children.count(), Ok(2));
    let offsets: Vec<u32> = children.handles().unwrap().iter().map(|h| h.offset()).collect();
    assert_eq!(offsets, vec![sample.n1, sample.n]);
    assert_eq!(children.all_handles().unwrap().len(), 2);
    assert_eq!(children.get(1).map(|h| h.offset()), Some(sample.n));
    assert!(children.get(2).is_none());
    let mut it = children.iter().unwrap();
    assert_eq!(it.remaining, 2);
    assert_eq!(it.next().unwrap().unwrap().offset(), sample.n1);
    assert_eq!(it.next().unwrap().unwrap().offset(), sample.n);
    assert!(it.next().is_none());
    assert!(root.type_definitions.handles().unwrap().is_empty());
}

#[test]
fn collections_pass_over_handles_of_another_kind() {
    let mut bytes = 0xdead_dffdu32.to_le_bytes().to_vec();
    // three values: a scope at 9, a method, a scope at 12
    bytes.extend(encode_unsigned(3));
    bytes.extend(encode_unsigned(9));
    bytes.extend(encode_unsigned((0x28 << 25) | 7));
    bytes.extend(encode_unsigned((0x38 << 25) | 12));
    let reader = MetadataReader::new(&bytes).unwrap();
    let scopes = reader.header().scope_definitions();
    let offsets: Vec<u32> = scopes.handles().unwrap().iter().map(|h| h.offset()).collect();
    assert_eq!(offsets, vec![9, 12]);
    assert!(matches!(scopes.all_handles(), Err(AotError::InvalidMetaHandle)));
    assert_eq!(scopes.get(0).map(|h| h.offset()), Some(9));
    assert!(scopes.get(1).is_none());
    assert_eq!(scopes.get(2).map(|h| h.offset()), Some(12));
    // a collection that announces more than it holds ends where the data ends
    let mut short = 0xdead_dffdu32.to_le_bytes().to_vec();
    short.extend(encode_unsigned(1000));
    short.extend(encode_unsigned(8));
    let reader = MetadataReader::new(&short).unwrap();
    let scopes = reader.header().scope_definitions();
    assert_eq!(scopes.handles().unwrap().len(), 1);
    assert!(matches!(scopes.all_handles(), Err(AotError::BadImage)));
    assert!(scopes.get(5).is_none());
}

#[test]
fn generic_reads_follow_the_type() {
    let mut bytes = vec![0x7f];
    bytes.extend(encode_unsigned(0x12345));
    bytes.extend(encode_unsigned(300));
    bytes.extend(encode_unsigned(2));
    bytes.extend_from_slice(b"hi");
    bytes.extend(encode_signed(-5));
    bytes.extend(encode_unsigned((7 << 7) | 0x3a));
    let reader = NativeReader::new(&bytes).unwrap();
    let mut offset = 0usize;
    assert_eq!(reader.read::<u8>(&mut offset), Ok(0x7f));
    assert_eq!(reader.read::<u16>(&mut offset), Ok(0x2345));
    assert_eq!(reader.read::<u32>(&mut offset), Ok(300));
    assert_eq!(reader.read::<String>(&mut offset), Ok("hi".to_string()));
    assert_eq!(reader.read::<i32>(&mut offset), Ok(-5));
    let handle = reader.read::<BaseHandle>(&mut offset).unwrap();
    assert_eq!(handle.handle_type(), Some(HandleType::TypeDefinition));
    assert_eq!(handle.offset(), 7);
    assert_eq!(offset, bytes.len());
    assert!(matches!(reader.read::<u32>(&mut offset), Err(AotError::BadImage)));
}

// ---------------------------------------------------------------------------
// assemblies, names, types
// ---------------------------------------------------------------------------

#[test]
fn assemblies_are_listed_with_their_versions() {
    let sample = sample();
    let reader = MetadataReader::new(&sample.bytes).unwrap();
    let assemblies = get_assemblies(reader).unwrap();
    let lines: Vec<String> = assemblies.iter().map(|a| a.line()).collect();
    assert_eq!(lines, vec!["Asm, Version=1.2.3.4", "Other.Lib, Version=10.0.65535.7"]);
    assert_eq!(assemblies[0].name, "Asm");
    assert_eq!(assemblies[1].build_number, 65535);
}

#[test]
fn minimal_scope() {
    let mut blob = Blob::new();
    let name = blob.string("Asm");
    let scope = blob.here();
    write_scope(&mut blob, name, [1, 2, 3, 4], 0);
    blob.scopes(&[scope]);
    let reader = MetadataReader::new(&blob.bytes).unwrap();
    let lines: Vec<String> = get_assemblies(reader).unwrap().iter().map(|a| a.line()).collect();
    assert_eq!(lines, vec!["Asm, Version=1.2.3.4"]);
}

#[test]
fn namespaced_type() {
    let sample = sample();
    let reader = MetadataReader::new(&sample.bytes).unwrap();
    let t = typed::<TypeDefinitionHandle>(sample.t).to_data(reader).unwrap();
    assert_eq!(t.get_full_name().unwrap(), "N1.N2.T");
    assert_eq!(t.get_full_name_with_generics().unwrap(), "N1.N2.T");
    let c = typed::<TypeDefinitionHandle>(sample.c).to_data(reader).unwrap();
    assert_eq!(c.get_full_name().unwrap(), "N.C");
    assert_eq!(c.get_full_name_with_generics().unwrap(), "N.C<T>");
}

#[test]
fn type_in_the_root_namespace_starts_with_a_dot() {
    let mut blob = Blob::new();
    let name = blob.string("Lonely");
    let root = blob.here();
    blob.b(0, 0);
    blob.h(0);
    blob.coll(&[]);
    blob.coll(&[]);
    blob.coll(&[]);
    let t = blob.here();
    blob.u(0);
    blob.b(0, 0);
    blob.h(root);
    blob.h(name);
    blob.u(0);
    blob.u(0);
    blob.h(0);
    for _ in 0..6 {
        blob.coll(&[]);
    }
    blob.base_coll(&[]);
    blob.coll(&[]);
    let reader = MetadataReader::new(&blob.bytes).unwrap();
    let t = typed::<TypeDefinitionHandle>(t).to_data(reader).unwrap();
    assert_eq!(t.get_full_name().unwrap(), ".Lonely");
}

#[test]
fn namespaces_in_a_circle_are_a_bad_image() {
    let mut blob = Blob::new();
    let name = blob.string("Loop");
    let namespace = blob.here();
    blob.b(NAMESPACE, namespace);
    blob.h(name);
    blob.coll(&[]);
    blob.coll(&[]);
    blob.coll(&[namespace]);
    let t = blob.here();
    blob.u(0);
    blob.b(0, 0);
    blob.h(namespace);
    blob.h(name);
    blob.u(0);
    blob.u(0);
    blob.h(0);
    for _ in 0..6 {
        blob.coll(&[]);
    }
    blob.base_coll(&[]);
    blob.coll(&[]);
    let scope = blob.here();
    write_scope(&mut blob, name, [0, 0, 0, 0], namespace);
    let reader = MetadataReader::new(&blob.bytes).unwrap();
    let t = typed::<TypeDefinitionHandle>(t).to_data(reader).unwrap();
    assert!(matches!(t.get_full_name(), Err(AotError::BadImage)));
    assert!(typed::<ScopeDefinitionHandle>(scope).to_data(reader).is_ok());
}

/// A namespace record without types whose child namespaces are `children`,
/// each written in one byte.
fn write_namespace(blob: &mut Blob, name: u32, types: &[u32], children: &[u32]) -> u32 {
    let at = blob.here();
    blob.b(0, 0);
    blob.h(name);
    blob.coll(types);
    blob.coll(&[]);
    blob.u(children.len() as u32);
    for child in children {
        assert!(*child < 0x80);
        blob.u(*child);
    }
    at
}

#[test]
fn a_walk_may_take_more_namespaces_than_the_data_has_bytes() {
    let mut blob = Blob::new();
    let name = blob.string("N");
    let name_of_t = blob.string("T");
    let t = blob.here();
    blob.u(0);
    blob.b(0, 0);
    let namespace_of_t = blob.h(0);
    blob.h(name_of_t);
    blob.u(0);
    blob.u(0);
    blob.h(0);
    for _ in 0..6 {
        blob.coll(&[]);
    }
    blob.base_coll(&[]);
    blob.coll(&[]);
    let leaf = write_namespace(&mut blob, name, &[t], &[]);
    blob.set_h(namespace_of_t, leaf);
    let middle = write_namespace(&mut blob, name, &[], &[leaf; 20]);
    let root = write_namespace(&mut blob, 0, &[], &[middle; 20]);
    let scope = blob.here();
    write_scope(&mut blob, name, [0, 0, 0, 0], root);
    assert!(blob.bytes.len() < 421);
    let reader = MetadataReader::new(&blob.bytes).unwrap();
    let scope = typed::<ScopeDefinitionHandle>(scope).to_data(reader).unwrap();
    // the root, 20 times the middle one, 400 times the leaf with its one type
    let types = scope.get_all_types().unwrap();
    assert_eq!(types.len(), 400);
    for found in &types {
        assert_eq!(found.name.to_data(reader).unwrap().value, "T");
    }
}

#[test]
fn references_to_nothing_are_passed_over_however_many() {
    let mut blob = Blob::new();
    let name = blob.string("N");
    // the record at the offset 1 is none of a namespace
    let root = write_namespace(&mut blob, name, &[], &[1; 100]);
    let scope = blob.here();
    write_scope(&mut blob, name, [0, 0, 0, 0], root);
    assert!(blob.bytes.len() < 200);
    let reader = MetadataReader::new(&blob.bytes).unwrap();
    assert!(typed::<NamespaceDefinitionHandle>(1).to_data(reader).is_err());
    let scope = typed::<ScopeDefinitionHandle>(scope).to_data(reader).unwrap();
    assert!(scope.get_all_types().unwrap().is_empty());
}

#[test]
fn all_types_of_a_scope() {
    let sample = sample();
    let reader = MetadataReader::new(&sample.bytes).unwrap();
    let scope = typed::<ScopeDefinitionHandle>(sample.scope).to_data(reader).unwrap();
    let names: Vec<String> =
        scope.get_all_types().unwrap().iter().map(|t| t.get_full_name().unwrap()).collect();
    // the namespace that was put on the stack last is gone through first
    assert_eq!(names, vec!["N.C", "N1.N2.T"]);
    let empty = typed::<ScopeDefinitionHandle>(sample.second_scope).to_data(reader).unwrap();
    assert!(empty.get_all_types().unwrap().is_empty());
}

#[test]
fn types_are_found_by_dotted_name() {
    let sample = sample();
    let reader = MetadataReader::new(&sample.bytes).unwrap();
    let root = typed::<NamespaceDefinitionHandle>(sample.root).to_data(reader).unwrap();
    assert_eq!(root.find_type("N1.N2.T").map(|t| t.handle().offset()), Some(sample.t));
    assert_eq!(root.find_type("N.C").map(|t| t.handle().offset()), Some(sample.c));
    assert!(root.find_type("N.T").is_none());
    assert!(root.find_type("N1.T").is_none());
    assert!(root.find_type("N3.T").is_none());
    assert!(root.find_type("T").is_none());
    assert!(root.find_type("").is_none());
    let n2 = typed::<NamespaceDefinitionHandle>(sample.n2).to_data(reader).unwrap();
    assert_eq!(n2.find_type("T").map(|t| t.handle().offset()), Some(sample.t));
    let n1 = typed::<NamespaceDefinitionHandle>(sample.n1).to_data(reader).unwrap();
    assert_eq!(n1.find_type("N2.T").map(|t| t.handle().offset()), Some(sample.t));
}

#[test]
fn generic_type_with_ref_parameter() {
    let sample = sample();
    let reader = MetadataReader::new(&sample.bytes).unwrap();
    let c = typed::<TypeDefinitionHandle>(sample.c).to_data(reader).unwrap();
    let m = typed::<MethodHandle>(sample.m).to_data(reader).unwrap();
    let inside = ParentInfo::both(&m, &c);
    let owner = get_type_name_from_handle(packed(TYPE_DEFINITION, sample.c), inside, reader).unwrap();
    let parameter = get_type_name_from_handle(packed(BY_REFERENCE, sample.by_ref_u), inside, reader).unwrap();
    let method = m.name.to_data(reader).unwrap().value;
    assert_eq!(format!("{owner}.{method}({parameter})"), "N.C.M(ref U)");
    let alone =
        get_type_name_from_handle(packed(TYPE_DEFINITION, sample.c), ParentInfo::none(), reader).unwrap();
    assert_eq!(alone, "N.C<T>");
    let signature = m.signature.to_data(reader).unwrap();
    assert_eq!(signature.calling_convention, SignatureCallingConvention::HasThis);
    assert_eq!(signature.generic_parameter_count, 1);
    assert_eq!(get_type_name_from_handle(signature.return_type, inside, reader).unwrap(), "N.C");
}

#[test]
fn signatures_are_rendered_by_kind() {
    let sample = sample();
    let reader = MetadataReader::new(&sample.bytes).unwrap();
    let c = typed::<TypeDefinitionHandle>(sample.c).to_data(reader).unwrap();
    let m = typed::<MethodHandle>(sample.m).to_data(reader).unwrap();
    let render = |kind: u8, offset: u32, parent: ParentInfo<'_>| {
        get_type_name_from_handle(packed(kind, offset), parent, reader)
    };
    let both = ParentInfo::both(&m, &c);
    let of_type = ParentInfo::typ(&c);
    let none = ParentInfo::none();
    assert!(none.has_none() && !none.has_method() && !none.has_type());
    assert!(!of_type.has_none() && !of_type.has_method() && of_type.has_type());
    assert!(both.has_method() && both.has_type());
    assert_eq!(both.get_method_generic(reader, 0), Some("U".to_string()));
    assert_eq!(both.get_method_generic(reader, 1), None);
    assert_eq!(both.get_type_generic(reader, 0), Some("T".to_string()));
    assert_eq!(of_type.get_method_generic(reader, 0), None);
    assert_eq!(none.get_type_generic(reader, 0), None);

    assert_eq!(render(TYPE_VARIABLE, sample.type_var_0, of_type).unwrap(), "T");
    assert_eq!(render(TYPE_VARIABLE, sample.type_var_0, none).unwrap(), "TypeVariableSignature");
    assert_eq!(render(METHOD_VARIABLE, sample.method_var_0, both).unwrap(), "U");
    assert_eq!(render(METHOD_VARIABLE, sample.method_var_7, both).unwrap(), "Unknown");
    assert_eq!(
        render(METHOD_VARIABLE, sample.method_var_0, of_type).unwrap(),
        "MethodTypeVariableSignature"
    );
    assert_eq!(render(BY_REFERENCE, sample.by_ref_u, of_type).unwrap(), "ref MethodTypeVariableSignature");
    assert_eq!(render(TYPE_INSTANTIATION, sample.instantiation, of_type).unwrap(), "N.C<N1.N2.T, T>");
    assert_eq!(
        render(TYPE_INSTANTIATION, sample.instantiation, none).unwrap(),
        "N.C<T><N1.N2.T, TypeVariableSignature>"
    );
    assert_eq!(render(TYPE_SPECIFICATION, sample.specification, of_type).unwrap(), "N.C<N1.N2.T, T>");
    assert_eq!(render(ARRAY_SIGNATURE, 5, none).unwrap(), "ArraySignature");
    assert_eq!(render(0, 0, none).unwrap(), "Null");
    assert_eq!(render(0x7f, 1, none).unwrap(), "Null");
    assert!(matches!(render(TYPE_DEFINITION, 0x3fff, none), Err(AotError::BadImage)));
}

#[test]
fn a_variable_with_a_negative_number_is_unknown() {
    let mut blob = Blob::new();
    let negative = blob.here();
    blob.i(-1);
    let sample = sample();
    let reader = MetadataReader::new(&sample.bytes).unwrap();
    let c = typed::<TypeDefinitionHandle>(sample.c).to_data(reader).unwrap();
    // the record of the variable lies in another blob, the generic parameters in the sample
    let other = MetadataReader::new(&blob.bytes).unwrap();
    let text = get_type_name_from_handle(packed(TYPE_VARIABLE, negative), ParentInfo::typ(&c), other);
    assert_eq!(text.unwrap(), "Unknown");
}

#[test]
fn signatures_are_rendered_however_deep_they_are_nested() {
    let mut blob = Blob::new();
    let mut inner = packed(ARRAY_SIGNATURE, 5);
    let mut places = Vec::new();
    for _ in 0..100 {
        let at = blob.here();
        let value = inner.to_value();
        blob.b((value >> 25) as u8, value & 0x1ff_ffff);
        inner = packed(BY_REFERENCE, at);
        places.push(at);
    }
    let outermost = blob.here();
    blob.b(BY_REFERENCE, places[99]);
    let specification = blob.here();
    blob.b(BY_REFERENCE, outermost);
    let reader = MetadataReader::new(&blob.bytes).unwrap();
    let text = get_type_name_from_handle(
        packed(TYPE_SPECIFICATION, specification),
        ParentInfo::none(),
        reader,
    );
    assert_eq!(text.unwrap(), format!("{}ArraySignature", "ref ".repeat(101)));
}

#[test]
fn signatures_that_contain_themselves_are_a_bad_image() {
    let mut blob = Blob::new();
    let specification = blob.here();
    blob.b(TYPE_SPECIFICATION, specification);
    let reader = MetadataReader::new(&blob.bytes).unwrap();
    let text = get_type_name_from_handle(packed(TYPE_SPECIFICATION, specification), ParentInfo::none(), reader);
    assert!(matches!(text, Err(AotError::BadImage)));
}

#[test]
fn listing_of_all_types() {
    let sample = sample();
    let reader = MetadataReader::new(&sample.bytes).unwrap();
    let pe = PeImage {
        image: Vec::new(),
        image_base: 0x40_0000,
        size_of_image: 0x6000,
        size_of_headers: 0x200,
        sections: Vec::new(),
    };
    let mut pointers = HashMap::new();
    let context = ListingContext { metadata: reader, pe: &pe, pointers: pointers.clone() };
    let (lines, outcome) = get_types(&context);
    assert!(outcome.is_ok());
    assert_eq!(
        lines,
        vec![
            "N.C<T> (N1.N2.T)",
            " - Methods:",
            "  * public N.C M<U>(ref U) // Conv: HasThis",
            "N1.N2.T",
            " - Fields:",
            "  * value (N.C)",
        ]
    );
    pointers.insert((0x28 << 25) | sample.m, 0x40_1000u64);
    let context = ListingContext { metadata: reader, pe: &pe, pointers: pointers.clone() };
    assert_eq!(get_types(&context).0[2], "  * public N.C M<U>(ref U) // RVA: 0x1000 Conv: HasThis");
    pointers.insert((0x28 << 25) | sample.m, 0x1000u64);
    let context = ListingContext { metadata: reader, pe: &pe, pointers };
    assert_eq!(get_types(&context).0[2], "  * public N.C M<U>(ref U) // VA: 0x1000 Conv: HasThis");
}

/// A type definition without members, called `name`, in `namespace`.
fn write_plain_type(blob: &mut Blob, namespace: u32, name: u32) -> u32 {
    let at = blob.here();
    blob.u(0);
    blob.b(0, 0);
    blob.h(namespace);
    blob.h(name);
    blob.u(0);
    blob.u(0);
    blob.h(0);
    for _ in 0..6 {
        blob.coll(&[]);
    }
    blob.base_coll(&[]);
    blob.coll(&[]);
    at
}

#[test]
fn a_listing_that_fails_keeps_the_lines_before_the_failure() {
    let mut blob = Blob::new();
    let good = blob.string("Good");
    let bad = blob.string("Bad");
    let ring_name = blob.string("Ring");
    // a namespace that is its own parent: the full name of a type in it has no end
    let ring = blob.here();
    blob.b(NAMESPACE, ring);
    blob.h(ring_name);
    blob.coll(&[]);
    blob.coll(&[]);
    blob.coll(&[]);
    let first = blob.here() + 40;
    let root = blob.here();
    blob.b(0, 0);
    blob.h(0);
    blob.coll(&[first, first + 20, first]);
    blob.coll(&[]);
    blob.coll(&[]);
    while blob.here() < first {
        blob.bytes.push(0);
    }
    assert_eq!(write_plain_type(&mut blob, root, good), first);
    assert_eq!(write_plain_type(&mut blob, ring, bad), first + 20);
    let scope = blob.here();
    write_scope(&mut blob, good, [0, 0, 0, 0], root);
    blob.scopes(&[scope]);
    let reader = MetadataReader::new(&blob.bytes).unwrap();
    let pe = PeImage {
        image: Vec::new(),
        image_base: 0x40_0000,
        size_of_image: 0x6000,
        size_of_headers: 0x200,
        sections: Vec::new(),
    };
    let context = ListingContext { metadata: reader, pe: &pe, pointers: HashMap::new() };
    let (lines, outcome) = get_types(&context);
    assert_eq!(lines, vec![".Good"]);
    assert!(matches!(outcome, Err(AotError::BadImage)));
}
