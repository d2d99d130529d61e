pub mod collections;
pub mod fields;
pub mod flags;
pub mod handles;
pub mod names;
pub mod utils;

use vstd::prelude::*;

use crate::embedded_meta::collections::{
    read_byte_collection, read_handle_collection, read_typed_collection,
    spec_read_byte_collection, spec_read_handle_collection, spec_read_typed_collection,
    ByteCollection, CustomAttributeHandleCollection, EventHandleCollection,
    FieldHandleCollection, GenericParameterHandleCollection, HandleCollection,
    MethodHandleCollection, NamespaceDefinitionHandleCollection, ParameterHandleCollection,
    PropertyHandleCollection, ScopeDefinitionHandleCollection, TypeDefinitionHandleCollection,
    TypeForwarderHandleCollection,
};
use crate::embedded_meta::fields::{
    read_attributes, read_byte, read_convention, read_i32, read_text, read_u16, read_u32,
    spec_read_attributes, spec_read_byte, spec_read_convention, spec_read_i32, spec_read_text,
    spec_read_u16, spec_read_u32,
};
use crate::embedded_meta::flags::{MethodAttributes, SignatureCallingConvention};
use crate::embedded_meta::handles::{
    read_base_handle, read_handle, spec_offset_bits, spec_read_base_handle, spec_read_handle,
    BaseHandle, ByReferenceSignatureHandle, ConstantStringValueHandle, FieldHandle,
    FieldSignatureHandle, GenericParameterHandle, MethodHandle, MethodSignatureHandle,
    MethodTypeVariableSignatureHandle, NamespaceDefinitionHandle, QualifiedMethodHandle,
    ScopeDefinitionHandle, TypeDefinitionHandle, TypeInstantiationSignatureHandle,
    TypeSpecificationHandle, TypeVariableSignatureHandle, TypedHandle,
};
use crate::error::AotError;
use crate::native_format::reader::NativeReader;

verus! {

/// The header of a blob of embedded metadata: the reader of the blob and
/// the collection of its scopes.
#[derive(Clone, Copy)]
pub struct MetadataHeader<'a> {
    pub reader: NativeReader<'a>,
    pub scope_definitions: ScopeDefinitionHandleCollection<'a>,
}

/// A reader of a blob of embedded metadata.
#[derive(Clone, Copy)]
pub struct MetadataReader<'a> {
    pub stream_reader: NativeReader<'a>,
    pub header: MetadataHeader<'a>,
}

/// Whether `data` starts with the mark of embedded metadata, the
/// little-endian number 0xDEADDFFD.
pub open spec fn spec_has_metadata_signature(data: Seq<u8>) -> bool {
    crate::native_format::reader::spec_read_u32(data, 0) == Some(0xDEADDFFDu32)
}

impl<'a> MetadataHeader<'a> {
    /// The mark that opens a blob of embedded metadata.
    pub const SIGNATURE: u32 = 0xDEADDFFD;

    /// Checks the mark at the start of the blob. The collection of scopes
    /// follows it at offset 4.
    pub fn decode(reader: NativeReader<'a>) -> (r: Result<Self, AotError>)
        ensures
            spec_has_metadata_signature(reader@) ==> r is Ok && r->Ok_0.reader == reader
                && r->Ok_0.scope_definitions.reader == reader && r->Ok_0.scope_definitions.offset
                == 4,
            !spec_has_metadata_signature(reader@) ==> r is Err && r->Err_0 == AotError::BadImage,
    {
        if reader.read_u32(0)? != Self::SIGNATURE {
            return Err(AotError::BadImage);
        }
        let collection = ScopeDefinitionHandleCollection::new(reader, 4);
        Ok(Self { reader, scope_definitions: collection })
    }

    /// The collection of the scopes of the blob.
    pub fn scope_definitions(&self) -> (scopes: ScopeDefinitionHandleCollection<'a>)
        ensures
            scopes == self.scope_definitions,
    {
        self.scope_definitions
    }
}

impl<'a> MetadataReader<'a> {
    /// A reader over `data`, which must be shorter than 2^30 bytes and start
    /// with the mark of embedded metadata.
    pub fn new(data: &'a [u8]) -> (r: Result<Self, AotError>)
        ensures
            data@.len() < 0x4000_0000 && spec_has_metadata_signature(data@) ==> r is Ok
                && r->Ok_0.stream_reader@ == data@ && r->Ok_0.header.reader
                == r->Ok_0.stream_reader && r->Ok_0.header.scope_definitions.reader
                == r->Ok_0.stream_reader && r->Ok_0.header.scope_definitions.offset == 4,
            !(data@.len() < 0x4000_0000 && spec_has_metadata_signature(data@)) ==> r is Err
                && r->Err_0 == AotError::BadImage,
    {
        let stream_reader = NativeReader::new(data)?;
        let header = MetadataHeader::decode(stream_reader)?;
        Ok(Self { stream_reader, header })
    }

    /// The header of the blob.
    pub fn header(&self) -> (header: MetadataHeader<'a>)
        ensures
            header == self.header,
    {
        self.header
    }
}

/// A string constant.
pub struct ConstantStringValue<'a> {
    pub reader: MetadataReader<'a>,
    pub handle: ConstantStringValueHandle,
    pub value: String,
}

/// The text of the string constant that `handle` points to in the metadata
/// of `reader`.
pub open spec fn spec_constant_string_value(
    reader: MetadataReader<'_>,
    handle: ConstantStringValueHandle,
) -> Result<Seq<char>, AotError> {
    spec_read_text(reader.stream_reader@, spec_offset_bits(handle.spec_bits())).0
}

impl<'a> ConstantStringValue<'a> {
    /// Reads the string constant that `handle` points to.
    pub fn new(reader: MetadataReader<'a>, handle: ConstantStringValueHandle) -> (r: Result<
        Self,
        AotError,
    >)
        ensures
            match spec_constant_string_value(reader, handle) {
                Ok(text) => r is Ok && r->Ok_0.reader == reader && r->Ok_0.handle == handle
                    && r->Ok_0.value@ == text,
                Err(e) => r is Err && r->Err_0 == e,
            },
    {
        let stream = reader.stream_reader;
        let mut offset: usize = handle.offset() as usize;
        let value = read_text(&stream, &mut offset)?;
        Ok(Self { reader, handle, value })
    }

    /// The handle that the record was read from.
    pub fn handle(&self) -> (handle: ConstantStringValueHandle)
        ensures
            handle == self.handle,
    {
        self.handle
    }
}

impl TypedHandle<0x1a> {
    /// The record that the handle points to.
    pub fn to_data<'a>(self, reader: MetadataReader<'a>) -> (r: Result<
        ConstantStringValue<'a>,
        AotError,
    >)
        ensures
            match spec_constant_string_value(reader, self) {
                Ok(text) => r is Ok && r->Ok_0.reader == reader && r->Ok_0.handle == self
                    && r->Ok_0.value@ == text,
                Err(e) => r is Err && r->Err_0 == e,
            },
    {
        ConstantStringValue::new(reader, self)
    }
}

/// An assembly: its name, version and keys, its root namespace and its
/// entry point.
#[derive(Clone, Copy)]
pub struct ScopeDefinition<'a> {
    pub reader: MetadataReader<'a>,
    pub handle: ScopeDefinitionHandle,
    pub flags: u32,
    pub name: ConstantStringValueHandle,
    pub hash_algorithm: u32,
    pub major_version: u16,
    pub minor_version: u16,
    pub build_number: u16,
    pub revision_number: u16,
    pub public_key: ByteCollection<'a>,
    pub culture: ConstantStringValueHandle,
    pub root_namespace_definition: NamespaceDefinitionHandle,
    pub entrypoint: QualifiedMethodHandle,
    pub global_module_type: TypeDefinitionHandle,
    pub custom_attributes: CustomAttributeHandleCollection<'a>,
    pub module_name: ConstantStringValueHandle,
    pub mvid: ByteCollection<'a>,
    pub module_custom_attributes: CustomAttributeHandleCollection<'a>,
}

/// The record that `handle` points to in the metadata of `reader`: its
/// fields follow one another from the offset of the handle on, and the
/// first that cannot be read decides the error.
#[verifier::opaque]
pub open spec fn spec_scope_definition<'a>(
    reader: MetadataReader<'a>,
    handle: ScopeDefinitionHandle,
) -> Result<ScopeDefinition<'a>, AotError> {
    let data = reader.stream_reader@;
    let stream = reader.stream_reader;
    let flags = spec_read_u32(data, spec_offset_bits(handle.spec_bits()));
    let name = spec_read_handle::<0x1a>(data, flags.1);
    let hash_algorithm = spec_read_u32(data, name.1);
    let major_version = spec_read_u16(data, hash_algorithm.1);
    let minor_version = spec_read_u16(data, major_version.1);
    let build_number = spec_read_u16(data, minor_version.1);
    let revision_number = spec_read_u16(data, build_number.1);
    let public_key = spec_read_byte_collection(stream, revision_number.1);
    let culture = spec_read_handle::<0x1a>(data, public_key.1);
    let root_namespace_definition = spec_read_handle::<0x2f>(data, culture.1);
    let entrypoint = spec_read_handle::<0x36>(data, root_namespace_definition.1);
    let global_module_type = spec_read_handle::<0x3a>(data, entrypoint.1);
    let custom_attributes = spec_read_typed_collection::<0x21>(stream, global_module_type.1);
    let module_name = spec_read_handle::<0x1a>(data, custom_attributes.1);
    let mvid = spec_read_byte_collection(stream, module_name.1);
    let module_custom_attributes = spec_read_typed_collection::<0x21>(stream, mvid.1);
    if flags.0 is Err {
        Err(flags.0->Err_0)
    } else if name.0 is Err {
        Err(name.0->Err_0)
    } else if hash_algorithm.0 is Err {
        Err(hash_algorithm.0->Err_0)
    } else if major_version.0 is Err {
        Err(major_version.0->Err_0)
    } else if minor_version.0 is Err {
        Err(minor_version.0->Err_0)
    } else if build_number.0 is Err {
        Err(build_number.0->Err_0)
    } else if revision_number.0 is Err {
        Err(revision_number.0->Err_0)
    } else if public_key.0 is Err {
        Err(public_key.0->Err_0)
    } else if culture.0 is Err {
        Err(culture.0->Err_0)
    } else if root_namespace_definition.0 is Err {
        Err(root_namespace_definition.0->Err_0)
    } else if entrypoint.0 is Err {
        Err(entrypoint.0->Err_0)
    } else if global_module_type.0 is Err {
        Err(global_module_type.0->Err_0)
    } else if custom_attributes.0 is Err {
        Err(custom_attributes.0->Err_0)
    } else if module_name.0 is Err {
        Err(module_name.0->Err_0)
    } else if mvid.0 is Err {
        Err(mvid.0->Err_0)
    } else if module_custom_attributes.0 is Err {
        Err(module_custom_attributes.0->Err_0)
    } else {
        Ok(
            ScopeDefinition {
                reader,
                handle,
                flags: flags.0->Ok_0,
                name: name.0->Ok_0,
                hash_algorithm: hash_algorithm.0->Ok_0,
                major_version: major_version.0->Ok_0,
                minor_version: minor_version.0->Ok_0,
                build_number: build_number.0->Ok_0,
                revision_number: revision_number.0->Ok_0,
                public_key: public_key.0->Ok_0,
                culture: culture.0->Ok_0,
                root_namespace_definition: root_namespace_definition.0->Ok_0,
                entrypoint: entrypoint.0->Ok_0,
                global_module_type: global_module_type.0->Ok_0,
                custom_attributes: custom_attributes.0->Ok_0,
                module_name: module_name.0->Ok_0,
                mvid: mvid.0->Ok_0,
                module_custom_attributes: module_custom_attributes.0->Ok_0,
            },
        )
    }
}

impl<'a> ScopeDefinition<'a> {
    /// Reads the record that `handle` points to.
    pub fn new(reader: MetadataReader<'a>, handle: ScopeDefinitionHandle) -> (r: Result<
        Self,
        AotError,
    >)
        ensures
            r == spec_scope_definition(reader, handle),
    {
        reveal(spec_scope_definition);
        let stream = reader.stream_reader;
        let mut cursor: usize = handle.offset() as usize;
        let flags = read_u32(&stream, &mut cursor)?;
        let name = read_handle::<0x1a>(&stream, &mut cursor)?;
        let hash_algorithm = read_u32(&stream, &mut cursor)?;
        let major_version = read_u16(&stream, &mut cursor)?;
        let minor_version = read_u16(&stream, &mut cursor)?;
        let build_number = read_u16(&stream, &mut cursor)?;
        let revision_number = read_u16(&stream, &mut cursor)?;
        let public_key = read_byte_collection(&stream, &mut cursor)?;
        let culture = read_handle::<0x1a>(&stream, &mut cursor)?;
        let root_namespace_definition = read_handle::<0x2f>(&stream, &mut cursor)?;
        let entrypoint = read_handle::<0x36>(&stream, &mut cursor)?;
        let global_module_type = read_handle::<0x3a>(&stream, &mut cursor)?;
        let custom_attributes = read_typed_collection::<0x21>(&stream, &mut cursor)?;
        let module_name = read_handle::<0x1a>(&stream, &mut cursor)?;
        let mvid = read_byte_collection(&stream, &mut cursor)?;
        let module_custom_attributes = read_typed_collection::<0x21>(&stream, &mut cursor)?;
        Ok(
            Self {
                reader,
                handle,
                flags,
                name,
                hash_algorithm,
                major_version,
                minor_version,
                build_number,
                revision_number,
                public_key,
                culture,
                root_namespace_definition,
                entrypoint,
                global_module_type,
                custom_attributes,
                module_name,
                mvid,
                module_custom_attributes,
            },
        )
    }

    /// The handle that the record was read from.
    pub fn handle(&self) -> (handle: ScopeDefinitionHandle)
        ensures
            handle == self.handle,
    {
        self.handle
    }
}

impl TypedHandle<0x38> {
    /// The record that the handle points to.
    pub fn to_data<'a>(self, reader: MetadataReader<'a>) -> (r: Result<
        ScopeDefinition<'a>,
        AotError,
    >)
        ensures
            r == spec_scope_definition(reader, self),
    {
        ScopeDefinition::new(reader, self)
    }
}

/// A namespace: its parent, which is a scope or a namespace, its name, and
/// the types and namespaces it holds.
#[derive(Clone, Copy)]
pub struct NamespaceDefinition<'a> {
    pub reader: MetadataReader<'a>,
    pub handle: NamespaceDefinitionHandle,
    pub parent_scope_or_namespace: BaseHandle,
    pub name: ConstantStringValueHandle,
    pub type_definitions: TypeDefinitionHandleCollection<'a>,
    pub type_forwarders: TypeForwarderHandleCollection<'a>,
    pub namespace_definitions: NamespaceDefinitionHandleCollection<'a>,
}

/// The record that `handle` points to in the metadata of `reader`: its
/// fields follow one another from the offset of the handle on, and the
/// first that cannot be read decides the error.
#[verifier::opaque]
pub open spec fn spec_namespace_definition<'a>(
    reader: MetadataReader<'a>,
    handle: NamespaceDefinitionHandle,
) -> Result<NamespaceDefinition<'a>, AotError> {
    let data = reader.stream_reader@;
    let stream = reader.stream_reader;
    let parent_scope_or_namespace = spec_read_base_handle(data, spec_offset_bits(handle.spec_bits()));
    let name = spec_read_handle::<0x1a>(data, parent_scope_or_namespace.1);
    let type_definitions = spec_read_typed_collection::<0x3a>(stream, name.1);
    let type_forwarders = spec_read_typed_collection::<0x3b>(stream, type_definitions.1);
    let namespace_definitions = spec_read_typed_collection::<0x2f>(stream, type_forwarders.1);
    if parent_scope_or_namespace.0 is Err {
        Err(parent_scope_or_namespace.0->Err_0)
    } else if name.0 is Err {
        Err(name.0->Err_0)
    } else if type_definitions.0 is Err {
        Err(type_definitions.0->Err_0)
    } else if type_forwarders.0 is Err {
        Err(type_forwarders.0->Err_0)
    } else if namespace_definitions.0 is Err {
        Err(namespace_definitions.0->Err_0)
    } else {
        Ok(
            NamespaceDefinition {
                reader,
                handle,
                parent_scope_or_namespace: parent_scope_or_namespace.0->Ok_0,
                name: name.0->Ok_0,
                type_definitions: type_definitions.0->Ok_0,
                type_forwarders: type_forwarders.0->Ok_0,
                namespace_definitions: namespace_definitions.0->Ok_0,
            },
        )
    }
}

impl<'a> NamespaceDefinition<'a> {
    /// Reads the record that `handle` points to.
    pub fn new(reader: MetadataReader<'a>, handle: NamespaceDefinitionHandle) -> (r: Result<
        Self,
        AotError,
    >)
        ensures
            r == spec_namespace_definition(reader, handle),
    {
        reveal(spec_namespace_definition);
        let stream = reader.stream_reader;
        let mut cursor: usize = handle.offset() as usize;
        let parent_scope_or_namespace = read_base_handle(&stream, &mut cursor)?;
        let name = read_handle::<0x1a>(&stream, &mut cursor)?;
        let type_definitions = read_typed_collection::<0x3a>(&stream, &mut cursor)?;
        let type_forwarders = read_typed_collection::<0x3b>(&stream, &mut cursor)?;
        let namespace_definitions = read_typed_collection::<0x2f>(&stream, &mut cursor)?;
        Ok(
            Self {
                reader,
                handle,
                parent_scope_or_namespace,
                name,
                type_definitions,
                type_forwarders,
                namespace_definitions,
            },
        )
    }

    /// The handle that the record was read from.
    pub fn handle(&self) -> (handle: NamespaceDefinitionHandle)
        ensures
            handle == self.handle,
    {
        self.handle
    }
}

impl TypedHandle<0x2f> {
    /// The record that the handle points to.
    pub fn to_data<'a>(self, reader: MetadataReader<'a>) -> (r: Result<
        NamespaceDefinition<'a>,
        AotError,
    >)
        ensures
            r == spec_namespace_definition(reader, self),
    {
        NamespaceDefinition::new(reader, self)
    }
}

/// A type: its base type, namespace and name, its layout, and its members.
#[derive(Clone, Copy)]
pub struct TypeDefinition<'a> {
    pub reader: MetadataReader<'a>,
    pub handle: TypeDefinitionHandle,
    pub flags: u32,
    pub base_type: BaseHandle,
    pub namespace_definition: NamespaceDefinitionHandle,
    pub name: ConstantStringValueHandle,
    pub size: u32,
    pub packing_size: u16,
    pub enclosing_type: TypeDefinitionHandle,
    pub nested_types: TypeDefinitionHandleCollection<'a>,
    pub methods: MethodHandleCollection<'a>,
    pub fields: FieldHandleCollection<'a>,
    pub properties: PropertyHandleCollection<'a>,
    pub events: EventHandleCollection<'a>,
    pub generic_parameters: GenericParameterHandleCollection<'a>,
    pub interfaces: HandleCollection<'a>,
    pub custom_attributes: CustomAttributeHandleCollection<'a>,
}

/// The record that `handle` points to in the metadata of `reader`: its
/// fields follow one another from the offset of the handle on, and the
/// first that cannot be read decides the error.
#[verifier::opaque]
pub open spec fn spec_type_definition<'a>(
    reader: MetadataReader<'a>,
    handle: TypeDefinitionHandle,
) -> Result<TypeDefinition<'a>, AotError> {
    let data = reader.stream_reader@;
    let stream = reader.stream_reader;
    let flags = spec_read_u32(data, spec_offset_bits(handle.spec_bits()));
    let base_type = spec_read_base_handle(data, flags.1);
    let namespace_definition = spec_read_handle::<0x2f>(data, base_type.1);
    let name = spec_read_handle::<0x1a>(data, namespace_definition.1);
    let size = spec_read_u32(data, name.1);
    let packing_size = spec_read_u16(data, size.1);
    let enclosing_type = spec_read_handle::<0x3a>(data, packing_size.1);
    let nested_types = spec_read_typed_collection::<0x3a>(stream, enclosing_type.1);
    let methods = spec_read_typed_collection::<0x28>(stream, nested_types.1);
    let fields = spec_read_typed_collection::<0x23>(stream, methods.1);
    let properties = spec_read_typed_collection::<0x33>(stream, fields.1);
    let events = spec_read_typed_collection::<0x22>(stream, properties.1);
    let generic_parameters = spec_read_typed_collection::<0x26>(stream, events.1);
    let interfaces = spec_read_handle_collection(stream, generic_parameters.1);
    let custom_attributes = spec_read_typed_collection::<0x21>(stream, interfaces.1);
    if flags.0 is Err {
        Err(flags.0->Err_0)
    } else if base_type.0 is Err {
        Err(base_type.0->Err_0)
    } else if namespace_definition.0 is Err {
        Err(namespace_definition.0->Err_0)
    } else if name.0 is Err {
        Err(name.0->Err_0)
    } else if size.0 is Err {
        Err(size.0->Err_0)
    } else if packing_size.0 is Err {
        Err(packing_size.0->Err_0)
    } else if enclosing_type.0 is Err {
        Err(enclosing_type.0->Err_0)
    } else if nested_types.0 is Err {
        Err(nested_types.0->Err_0)
    } else if methods.0 is Err {
        Err(methods.0->Err_0)
    } else if fields.0 is Err {
        Err(fields.0->Err_0)
    } else if properties.0 is Err {
        Err(properties.0->Err_0)
    } else if events.0 is Err {
        Err(events.0->Err_0)
    } else if generic_parameters.0 is Err {
        Err(generic_parameters.0->Err_0)
    } else if interfaces.0 is Err {
        Err(interfaces.0->Err_0)
    } else if custom_attributes.0 is Err {
        Err(custom_attributes.0->Err_0)
    } else {
        Ok(
            TypeDefinition {
                reader,
                handle,
                flags: flags.0->Ok_0,
                base_type: base_type.0->Ok_0,
                namespace_definition: namespace_definition.0->Ok_0,
                name: name.0->Ok_0,
                size: size.0->Ok_0,
                packing_size: packing_size.0->Ok_0,
                enclosing_type: enclosing_type.0->Ok_0,
                nested_types: nested_types.0->Ok_0,
                methods: methods.0->Ok_0,
                fields: fields.0->Ok_0,
                properties: properties.0->Ok_0,
                events: events.0->Ok_0,
                generic_parameters: generic_parameters.0->Ok_0,
                interfaces: interfaces.0->Ok_0,
                custom_attributes: custom_attributes.0->Ok_0,
            },
        )
    }
}

impl<'a> TypeDefinition<'a> {
    /// Reads the record that `handle` points to.
    pub fn new(reader: MetadataReader<'a>, handle: TypeDefinitionHandle) -> (r: Result<
        Self,
        AotError,
    >)
        ensures
            r == spec_type_definition(reader, handle),
    {
        reveal(spec_type_definition);
        let stream = reader.stream_reader;
        let mut cursor: usize = handle.offset() as usize;
        let flags = read_u32(&stream, &mut cursor)?;
        let base_type = read_base_handle(&stream, &mut cursor)?;
        let namespace_definition = read_handle::<0x2f>(&stream, &mut cursor)?;
        let name = read_handle::<0x1a>(&stream, &mut cursor)?;
        let size = read_u32(&stream, &mut cursor)?;
        let packing_size = read_u16(&stream, &mut cursor)?;
        let enclosing_type = read_handle::<0x3a>(&stream, &mut cursor)?;
        let nested_types = read_typed_collection::<0x3a>(&stream, &mut cursor)?;
        let methods = read_typed_collection::<0x28>(&stream, &mut cursor)?;
        let fields = read_typed_collection::<0x23>(&stream, &mut cursor)?;
        let properties = read_typed_collection::<0x33>(&stream, &mut cursor)?;
        let events = read_typed_collection::<0x22>(&stream, &mut cursor)?;
        let generic_parameters = read_typed_collection::<0x26>(&stream, &mut cursor)?;
        let interfaces = read_handle_collection(&stream, &mut cursor)?;
        let custom_attributes = read_typed_collection::<0x21>(&stream, &mut cursor)?;
        Ok(
            Self {
                reader,
                handle,
                flags,
                base_type,
                namespace_definition,
                name,
                size,
                packing_size,
                enclosing_type,
                nested_types,
                methods,
                fields,
                properties,
                events,
                generic_parameters,
                interfaces,
                custom_attributes,
            },
        )
    }

    /// The handle that the record was read from.
    pub fn handle(&self) -> (handle: TypeDefinitionHandle)
        ensures
            handle == self.handle,
    {
        self.handle
    }
}

impl TypedHandle<0x3a> {
    /// The record that the handle points to.
    pub fn to_data<'a>(self, reader: MetadataReader<'a>) -> (r: Result<
        TypeDefinition<'a>,
        AotError,
    >)
        ensures
            r == spec_type_definition(reader, self),
    {
        TypeDefinition::new(reader, self)
    }
}

/// A method: its attribute bits, name and signature, and its parameters.
#[derive(Clone, Copy)]
pub struct Method<'a> {
    pub reader: MetadataReader<'a>,
    pub handle: MethodHandle,
    pub flags: MethodAttributes,
    pub impl_flags: u32,
    pub name: ConstantStringValueHandle,
    pub signature: MethodSignatureHandle,
    pub parameters: ParameterHandleCollection<'a>,
    pub generic_parameters: GenericParameterHandleCollection<'a>,
    pub custom_attributes: CustomAttributeHandleCollection<'a>,
}

/// The record that `handle` points to in the metadata of `reader`: its
/// fields follow one another from the offset of the handle on, and the
/// first that cannot be read decides the error.
#[verifier::opaque]
pub open spec fn spec_method<'a>(
    reader: MetadataReader<'a>,
    handle: MethodHandle,
) -> Result<Method<'a>, AotError> {
    let data = reader.stream_reader@;
    let stream = reader.stream_reader;
    let flags = spec_read_attributes(data, spec_offset_bits(handle.spec_bits()));
    let impl_flags = spec_read_u32(data, flags.1);
    let name = spec_read_handle::<0x1a>(data, impl_flags.1);
    let signature = spec_read_handle::<0x2b>(data, name.1);
    let parameters = spec_read_typed_collection::<0x31>(stream, signature.1);
    let generic_parameters = spec_read_typed_collection::<0x26>(stream, parameters.1);
    let custom_attributes = spec_read_typed_collection::<0x21>(stream, generic_parameters.1);
    if flags.0 is Err {
        Err(flags.0->Err_0)
    } else if impl_flags.0 is Err {
        Err(impl_flags.0->Err_0)
    } else if name.0 is Err {
        Err(name.0->Err_0)
    } else if signature.0 is Err {
        Err(signature.0->Err_0)
    } else if parameters.0 is Err {
        Err(parameters.0->Err_0)
    } else if generic_parameters.0 is Err {
        Err(generic_parameters.0->Err_0)
    } else if custom_attributes.0 is Err {
        Err(custom_attributes.0->Err_0)
    } else {
        Ok(
            Method {
                reader,
                handle,
                flags: flags.0->Ok_0,
                impl_flags: impl_flags.0->Ok_0,
                name: name.0->Ok_0,
                signature: signature.0->Ok_0,
                parameters: parameters.0->Ok_0,
                generic_parameters: generic_parameters.0->Ok_0,
                custom_attributes: custom_attributes.0->Ok_0,
            },
        )
    }
}

impl<'a> Method<'a> {
    /// Reads the record that `handle` points to.
    pub fn new(reader: MetadataReader<'a>, handle: MethodHandle) -> (r: Result<
        Self,
        AotError,
    >)
        ensures
            r == spec_method(reader, handle),
    {
        reveal(spec_method);
        let stream = reader.stream_reader;
        let mut cursor: usize = handle.offset() as usize;
        let flags = read_attributes(&stream, &mut cursor)?;
        let impl_flags = read_u32(&stream, &mut cursor)?;
        let name = read_handle::<0x1a>(&stream, &mut cursor)?;
        let signature = read_handle::<0x2b>(&stream, &mut cursor)?;
        let parameters = read_typed_collection::<0x31>(&stream, &mut cursor)?;
        let generic_parameters = read_typed_collection::<0x26>(&stream, &mut cursor)?;
        let custom_attributes = read_typed_collection::<0x21>(&stream, &mut cursor)?;
        Ok(
            Self {
                reader,
                handle,
                flags,
                impl_flags,
                name,
                signature,
                parameters,
                generic_parameters,
                custom_attributes,
            },
        )
    }

    /// The handle that the record was read from.
    pub fn handle(&self) -> (handle: MethodHandle)
        ensures
            handle == self.handle,
    {
        self.handle
    }
}

impl TypedHandle<0x28> {
    /// The record that the handle points to.
    pub fn to_data<'a>(self, reader: MetadataReader<'a>) -> (r: Result<
        Method<'a>,
        AotError,
    >)
        ensures
            r == spec_method(reader, self),
    {
        Method::new(reader, self)
    }
}

/// A field: its name and signature.
#[derive(Clone, Copy)]
pub struct Field<'a> {
    pub reader: MetadataReader<'a>,
    pub handle: FieldHandle,
    pub flags: u32,
    pub name: ConstantStringValueHandle,
    pub signature: FieldSignatureHandle,
    pub default_value: BaseHandle,
    pub offset: u32,
    pub custom_attributes: CustomAttributeHandleCollection<'a>,
}

/// The record that `handle` points to in the metadata of `reader`: its
/// fields follow one another from the offset of the handle on, and the
/// first that cannot be read decides the error.
#[verifier::opaque]
pub open spec fn spec_field<'a>(
    reader: MetadataReader<'a>,
    handle: FieldHandle,
) -> Result<Field<'a>, AotError> {
    let data = reader.stream_reader@;
    let stream = reader.stream_reader;
    let flags = spec_read_u32(data, spec_offset_bits(handle.spec_bits()));
    let name = spec_read_handle::<0x1a>(data, flags.1);
    let signature = spec_read_handle::<0x24>(data, name.1);
    let default_value = spec_read_base_handle(data, signature.1);
    let offset = spec_read_u32(data, default_value.1);
    let custom_attributes = spec_read_typed_collection::<0x21>(stream, offset.1);
    if flags.0 is Err {
        Err(flags.0->Err_0)
    } else if name.0 is Err {
        Err(name.0->Err_0)
    } else if signature.0 is Err {
        Err(signature.0->Err_0)
    } else if default_value.0 is Err {
        Err(default_value.0->Err_0)
    } else if offset.0 is Err {
        Err(offset.0->Err_0)
    } else if custom_attributes.0 is Err {
        Err(custom_attributes.0->Err_0)
    } else {
        Ok(
            Field {
                reader,
                handle,
                flags: flags.0->Ok_0,
                name: name.0->Ok_0,
                signature: signature.0->Ok_0,
                default_value: default_value.0->Ok_0,
                offset: offset.0->Ok_0,
                custom_attributes: custom_attributes.0->Ok_0,
            },
        )
    }
}

impl<'a> Field<'a> {
    /// Reads the record that `handle` points to.
    pub fn new(reader: MetadataReader<'a>, handle: FieldHandle) -> (r: Result<
        Self,
        AotError,
    >)
        ensures
            r == spec_field(reader, handle),
    {
        reveal(spec_field);
        let stream = reader.stream_reader;
        let mut cursor: usize = handle.offset() as usize;
        let flags = read_u32(&stream, &mut cursor)?;
        let name = read_handle::<0x1a>(&stream, &mut cursor)?;
        let signature = read_handle::<0x24>(&stream, &mut cursor)?;
        let default_value = read_base_handle(&stream, &mut cursor)?;
        let offset = read_u32(&stream, &mut cursor)?;
        let custom_attributes = read_typed_collection::<0x21>(&stream, &mut cursor)?;
        Ok(
            Self {
                reader,
                handle,
                flags,
                name,
                signature,
                default_value,
                offset,
                custom_attributes,
            },
        )
    }

    /// The handle that the record was read from.
    pub fn handle(&self) -> (handle: FieldHandle)
        ensures
            handle == self.handle,
    {
        self.handle
    }
}

impl TypedHandle<0x23> {
    /// The record that the handle points to.
    pub fn to_data<'a>(self, reader: MetadataReader<'a>) -> (r: Result<
        Field<'a>,
        AotError,
    >)
        ensures
            r == spec_field(reader, self),
    {
        Field::new(reader, self)
    }
}

/// The signature of a field: its type.
#[derive(Clone, Copy)]
pub struct FieldSignature<'a> {
    pub reader: MetadataReader<'a>,
    pub handle: FieldSignatureHandle,
    pub type_handle: BaseHandle,
}

/// The record that `handle` points to in the metadata of `reader`: its
/// fields follow one another from the offset of the handle on, and the
/// first that cannot be read decides the error.
#[verifier::opaque]
pub open spec fn spec_field_signature<'a>(
    reader: MetadataReader<'a>,
    handle: FieldSignatureHandle,
) -> Result<FieldSignature<'a>, AotError> {
    let data = reader.stream_reader@;
    let type_handle = spec_read_base_handle(data, spec_offset_bits(handle.spec_bits()));
    if type_handle.0 is Err {
        Err(type_handle.0->Err_0)
    } else {
        Ok(
            FieldSignature {
                reader,
                handle,
                type_handle: type_handle.0->Ok_0,
            },
        )
    }
}

impl<'a> FieldSignature<'a> {
    /// Reads the record that `handle` points to.
    pub fn new(reader: MetadataReader<'a>, handle: FieldSignatureHandle) -> (r: Result<
        Self,
        AotError,
    >)
        ensures
            r == spec_field_signature(reader, handle),
    {
        reveal(spec_field_signature);
        let stream = reader.stream_reader;
        let mut cursor: usize = handle.offset() as usize;
        let type_handle = read_base_handle(&stream, &mut cursor)?;
        Ok(Self { reader, handle, type_handle })
    }

    /// The handle that the record was read from.
    pub fn handle(&self) -> (handle: FieldSignatureHandle)
        ensures
            handle == self.handle,
    {
        self.handle
    }
}

impl TypedHandle<0x24> {
    /// The record that the handle points to.
    pub fn to_data<'a>(self, reader: MetadataReader<'a>) -> (r: Result<
        FieldSignature<'a>,
        AotError,
    >)
        ensures
            r == spec_field_signature(reader, self),
    {
        FieldSignature::new(reader, self)
    }
}

/// The signature of a method: calling convention, count of generic
/// parameters, return type and parameter types.
#[derive(Clone, Copy)]
pub struct MethodSignature<'a> {
    pub reader: MetadataReader<'a>,
    pub handle: MethodSignatureHandle,
    pub calling_convention: SignatureCallingConvention,
    pub generic_parameter_count: i32,
    pub return_type: BaseHandle,
    pub parameters: HandleCollection<'a>,
    pub var_arg_parameters: HandleCollection<'a>,
}

/// The record that `handle` points to in the metadata of `reader`: its
/// fields follow one another from the offset of the handle on, and the
/// first that cannot be read decides the error.
#[verifier::opaque]
pub open spec fn spec_method_signature<'a>(
    reader: MetadataReader<'a>,
    handle: MethodSignatureHandle,
) -> Result<MethodSignature<'a>, AotError> {
    let data = reader.stream_reader@;
    let stream = reader.stream_reader;
    let calling_convention = spec_read_convention(data, spec_offset_bits(handle.spec_bits()));
    let generic_parameter_count = spec_read_i32(data, calling_convention.1);
    let return_type = spec_read_base_handle(data, generic_parameter_count.1);
    let parameters = spec_read_handle_collection(stream, return_type.1);
    let var_arg_parameters = spec_read_handle_collection(stream, parameters.1);
    if calling_convention.0 is Err {
        Err(calling_convention.0->Err_0)
    } else if generic_parameter_count.0 is Err {
        Err(generic_parameter_count.0->Err_0)
    } else if return_type.0 is Err {
        Err(return_type.0->Err_0)
    } else if parameters.0 is Err {
        Err(parameters.0->Err_0)
    } else if var_arg_parameters.0 is Err {
        Err(var_arg_parameters.0->Err_0)
    } else {
        Ok(
            MethodSignature {
                reader,
                handle,
                calling_convention: calling_convention.0->Ok_0,
                generic_parameter_count: generic_parameter_count.0->Ok_0,
                return_type: return_type.0->Ok_0,
                parameters: parameters.0->Ok_0,
                var_arg_parameters: var_arg_parameters.0->Ok_0,
            },
        )
    }
}

impl<'a> MethodSignature<'a> {
    /// Reads the record that `handle` points to.
    pub fn new(reader: MetadataReader<'a>, handle: MethodSignatureHandle) -> (r: Result<
        Self,
        AotError,
    >)
        ensures
            r == spec_method_signature(reader, handle),
    {
        reveal(spec_method_signature);
        let stream = reader.stream_reader;
        let mut cursor: usize = handle.offset() as usize;
        let calling_convention = read_convention(&stream, &mut cursor)?;
        let generic_parameter_count = read_i32(&stream, &mut cursor)?;
        let return_type = read_base_handle(&stream, &mut cursor)?;
        let parameters = read_handle_collection(&stream, &mut cursor)?;
        let var_arg_parameters = read_handle_collection(&stream, &mut cursor)?;
        Ok(
            Self {
                reader,
                handle,
                calling_convention,
                generic_parameter_count,
                return_type,
                parameters,
                var_arg_parameters,
            },
        )
    }

    /// The handle that the record was read from.
    pub fn handle(&self) -> (handle: MethodSignatureHandle)
        ensures
            handle == self.handle,
    {
        self.handle
    }
}

impl TypedHandle<0x2b> {
    /// The record that the handle points to.
    pub fn to_data<'a>(self, reader: MetadataReader<'a>) -> (r: Result<
        MethodSignature<'a>,
        AotError,
    >)
        ensures
            r == spec_method_signature(reader, self),
    {
        MethodSignature::new(reader, self)
    }
}

/// A type given by a signature.
#[derive(Clone, Copy)]
pub struct TypeSpecification<'a> {
    pub reader: MetadataReader<'a>,
    pub handle: TypeSpecificationHandle,
    pub signature: BaseHandle,
}

/// The record that `handle` points to in the metadata of `reader`: its
/// fields follow one another from the offset of the handle on, and the
/// first that cannot be read decides the error.
#[verifier::opaque]
pub open spec fn spec_type_specification<'a>(
    reader: MetadataReader<'a>,
    handle: TypeSpecificationHandle,
) -> Result<TypeSpecification<'a>, AotError> {
    let data = reader.stream_reader@;
    let signature = spec_read_base_handle(data, spec_offset_bits(handle.spec_bits()));
    if signature.0 is Err {
        Err(signature.0->Err_0)
    } else {
        Ok(
            TypeSpecification {
                reader,
                handle,
                signature: signature.0->Ok_0,
            },
        )
    }
}

impl<'a> TypeSpecification<'a> {
    /// Reads the record that `handle` points to.
    pub fn new(reader: MetadataReader<'a>, handle: TypeSpecificationHandle) -> (r: Result<
        Self,
        AotError,
    >)
        ensures
            r == spec_type_specification(reader, handle),
    {
        reveal(spec_type_specification);
        let stream = reader.stream_reader;
        let mut cursor: usize = handle.offset() as usize;
        let signature = read_base_handle(&stream, &mut cursor)?;
        Ok(Self { reader, handle, signature })
    }

    /// The handle that the record was read from.
    pub fn handle(&self) -> (handle: TypeSpecificationHandle)
        ensures
            handle == self.handle,
    {
        self.handle
    }
}

impl TypedHandle<0x3e> {
    /// The record that the handle points to.
    pub fn to_data<'a>(self, reader: MetadataReader<'a>) -> (r: Result<
        TypeSpecification<'a>,
        AotError,
    >)
        ensures
            r == spec_type_specification(reader, self),
    {
        TypeSpecification::new(reader, self)
    }
}

/// A generic type with its arguments.
#[derive(Clone, Copy)]
pub struct TypeInstantiationSignature<'a> {
    pub reader: MetadataReader<'a>,
    pub handle: TypeInstantiationSignatureHandle,
    pub generic_type: BaseHandle,
    pub generic_args: HandleCollection<'a>,
}

/// The record that `handle` points to in the metadata of `reader`: its
/// fields follow one another from the offset of the handle on, and the
/// first that cannot be read decides the error.
#[verifier::opaque]
pub open spec fn spec_type_instantiation_signature<'a>(
    reader: MetadataReader<'a>,
    handle: TypeInstantiationSignatureHandle,
) -> Result<TypeInstantiationSignature<'a>, AotError> {
    let data = reader.stream_reader@;
    let stream = reader.stream_reader;
    let generic_type = spec_read_base_handle(data, spec_offset_bits(handle.spec_bits()));
    let generic_args = spec_read_handle_collection(stream, generic_type.1);
    if generic_type.0 is Err {
        Err(generic_type.0->Err_0)
    } else if generic_args.0 is Err {
        Err(generic_args.0->Err_0)
    } else {
        Ok(
            TypeInstantiationSignature {
                reader,
                handle,
                generic_type: generic_type.0->Ok_0,
                generic_args: generic_args.0->Ok_0,
            },
        )
    }
}

impl<'a> TypeInstantiationSignature<'a> {
    /// Reads the record that `handle` points to.
    pub fn new(reader: MetadataReader<'a>, handle: TypeInstantiationSignatureHandle) -> (r: Result<
        Self,
        AotError,
    >)
        ensures
            r == spec_type_instantiation_signature(reader, handle),
    {
        reveal(spec_type_instantiation_signature);
        let stream = reader.stream_reader;
        let mut cursor: usize = handle.offset() as usize;
        let generic_type = read_base_handle(&stream, &mut cursor)?;
        let generic_args = read_handle_collection(&stream, &mut cursor)?;
        Ok(Self { reader, handle, generic_type, generic_args })
    }

    /// The handle that the record was read from.
    pub fn handle(&self) -> (handle: TypeInstantiationSignatureHandle)
        ensures
            handle == self.handle,
    {
        self.handle
    }
}

impl TypedHandle<0x3c> {
    /// The record that the handle points to.
    pub fn to_data<'a>(self, reader: MetadataReader<'a>) -> (r: Result<
        TypeInstantiationSignature<'a>,
        AotError,
    >)
        ensures
            r == spec_type_instantiation_signature(reader, self),
    {
        TypeInstantiationSignature::new(reader, self)
    }
}

/// A reference to a value of a type.
#[derive(Clone, Copy)]
pub struct ByReferenceSignature<'a> {
    pub reader: MetadataReader<'a>,
    pub handle: ByReferenceSignatureHandle,
    pub type_handle: BaseHandle,
}

/// The record that `handle` points to in the metadata of `reader`: its
/// fields follow one another from the offset of the handle on, and the
/// first that cannot be read decides the error.
#[verifier::opaque]
pub open spec fn spec_by_reference_signature<'a>(
    reader: MetadataReader<'a>,
    handle: ByReferenceSignatureHandle,
) -> Result<ByReferenceSignature<'a>, AotError> {
    let data = reader.stream_reader@;
    let type_handle = spec_read_base_handle(data, spec_offset_bits(handle.spec_bits()));
    if type_handle.0 is Err {
        Err(type_handle.0->Err_0)
    } else {
        Ok(
            ByReferenceSignature {
                reader,
                handle,
                type_handle: type_handle.0->Ok_0,
            },
        )
    }
}

impl<'a> ByReferenceSignature<'a> {
    /// Reads the record that `handle` points to.
    pub fn new(reader: MetadataReader<'a>, handle: ByReferenceSignatureHandle) -> (r: Result<
        Self,
        AotError,
    >)
        ensures
            r == spec_by_reference_signature(reader, handle),
    {
        reveal(spec_by_reference_signature);
        let stream = reader.stream_reader;
        let mut cursor: usize = handle.offset() as usize;
        let type_handle = read_base_handle(&stream, &mut cursor)?;
        Ok(Self { reader, handle, type_handle })
    }

    /// The handle that the record was read from.
    pub fn handle(&self) -> (handle: ByReferenceSignatureHandle)
        ensures
            handle == self.handle,
    {
        self.handle
    }
}

impl TypedHandle<0x02> {
    /// The record that the handle points to.
    pub fn to_data<'a>(self, reader: MetadataReader<'a>) -> (r: Result<
        ByReferenceSignature<'a>,
        AotError,
    >)
        ensures
            r == spec_by_reference_signature(reader, self),
    {
        ByReferenceSignature::new(reader, self)
    }
}

/// The generic parameter of the enclosing method with a given number.
#[derive(Clone, Copy)]
pub struct MethodTypeVariableSignature<'a> {
    pub reader: MetadataReader<'a>,
    pub handle: MethodTypeVariableSignatureHandle,
    pub number: i32,
}

/// The record that `handle` points to in the metadata of `reader`: its
/// fields follow one another from the offset of the handle on, and the
/// first that cannot be read decides the error.
#[verifier::opaque]
pub open spec fn spec_method_type_variable_signature<'a>(
    reader: MetadataReader<'a>,
    handle: MethodTypeVariableSignatureHandle,
) -> Result<MethodTypeVariableSignature<'a>, AotError> {
    let data = reader.stream_reader@;
    let number = spec_read_i32(data, spec_offset_bits(handle.spec_bits()));
    if number.0 is Err {
        Err(number.0->Err_0)
    } else {
        Ok(
            MethodTypeVariableSignature {
                reader,
                handle,
                number: number.0->Ok_0,
            },
        )
    }
}

impl<'a> MethodTypeVariableSignature<'a> {
    /// Reads the record that `handle` points to.
    pub fn new(reader: MetadataReader<'a>, handle: MethodTypeVariableSignatureHandle) -> (r: Result<
        Self,
        AotError,
    >)
        ensures
            r == spec_method_type_variable_signature(reader, handle),
    {
        reveal(spec_method_type_variable_signature);
        let stream = reader.stream_reader;
        let mut cursor: usize = handle.offset() as usize;
        let number = read_i32(&stream, &mut cursor)?;
        Ok(Self { reader, handle, number })
    }

    /// The handle that the record was read from.
    pub fn handle(&self) -> (handle: MethodTypeVariableSignatureHandle)
        ensures
            handle == self.handle,
    {
        self.handle
    }
}

impl TypedHandle<0x2c> {
    /// The record that the handle points to.
    pub fn to_data<'a>(self, reader: MetadataReader<'a>) -> (r: Result<
        MethodTypeVariableSignature<'a>,
        AotError,
    >)
        ensures
            r == spec_method_type_variable_signature(reader, self),
    {
        MethodTypeVariableSignature::new(reader, self)
    }
}

/// The generic parameter of the enclosing type with a given number.
#[derive(Clone, Copy)]
pub struct TypeVariableSignature<'a> {
    pub reader: MetadataReader<'a>,
    pub handle: TypeVariableSignatureHandle,
    pub number: i32,
}

/// The record that `handle` points to in the metadata of `reader`: its
/// fields follow one another from the offset of the handle on, and the
/// first that cannot be read decides the error.
#[verifier::opaque]
pub open spec fn spec_type_variable_signature<'a>(
    reader: MetadataReader<'a>,
    handle: TypeVariableSignatureHandle,
) -> Result<TypeVariableSignature<'a>, AotError> {
    let data = reader.stream_reader@;
    let number = spec_read_i32(data, spec_offset_bits(handle.spec_bits()));
    if number.0 is Err {
        Err(number.0->Err_0)
    } else {
        Ok(
            TypeVariableSignature {
                reader,
                handle,
                number: number.0->Ok_0,
            },
        )
    }
}

impl<'a> TypeVariableSignature<'a> {
    /// Reads the record that `handle` points to.
    pub fn new(reader: MetadataReader<'a>, handle: TypeVariableSignatureHandle) -> (r: Result<
        Self,
        AotError,
    >)
        ensures
            r == spec_type_variable_signature(reader, handle),
    {
        reveal(spec_type_variable_signature);
        let stream = reader.stream_reader;
        let mut cursor: usize = handle.offset() as usize;
        let number = read_i32(&stream, &mut cursor)?;
        Ok(Self { reader, handle, number })
    }

    /// The handle that the record was read from.
    pub fn handle(&self) -> (handle: TypeVariableSignatureHandle)
        ensures
            handle == self.handle,
    {
        self.handle
    }
}

impl TypedHandle<0x3f> {
    /// The record that the handle points to.
    pub fn to_data<'a>(self, reader: MetadataReader<'a>) -> (r: Result<
        TypeVariableSignature<'a>,
        AotError,
    >)
        ensures
            r == spec_type_variable_signature(reader, self),
    {
        TypeVariableSignature::new(reader, self)
    }
}

/// A generic parameter: its number and its name.
#[derive(Clone, Copy)]
pub struct GenericParameter<'a> {
    pub reader: MetadataReader<'a>,
    pub handle: GenericParameterHandle,
    pub number: u16,
    pub flags: u32,
    pub kind: u8,
    pub name: ConstantStringValueHandle,
    pub constraints: HandleCollection<'a>,
    pub custom_attributes: CustomAttributeHandleCollection<'a>,
}

/// The record that `handle` points to in the metadata of `reader`: its
/// fields follow one another from the offset of the handle on, and the
/// first that cannot be read decides the error.
#[verifier::opaque]
pub open spec fn spec_generic_parameter<'a>(
    reader: MetadataReader<'a>,
    handle: GenericParameterHandle,
) -> Result<GenericParameter<'a>, AotError> {
    let data = reader.stream_reader@;
    let stream = reader.stream_reader;
    let number = spec_read_u16(data, spec_offset_bits(handle.spec_bits()));
    let flags = spec_read_u32(data, number.1);
    let kind = spec_read_byte(data, flags.1);
    let name = spec_read_handle::<0x1a>(data, kind.1);
    let constraints = spec_read_handle_collection(stream, name.1);
    let custom_attributes = spec_read_typed_collection::<0x21>(stream, constraints.1);
    if number.0 is Err {
        Err(number.0->Err_0)
    } else if flags.0 is Err {
        Err(flags.0->Err_0)
    } else if kind.0 is Err {
        Err(kind.0->Err_0)
    } else if name.0 is Err {
        Err(name.0->Err_0)
    } else if constraints.0 is Err {
        Err(constraints.0->Err_0)
    } else if custom_attributes.0 is Err {
        Err(custom_attributes.0->Err_0)
    } else {
        Ok(
            GenericParameter {
                reader,
                handle,
                number: number.0->Ok_0,
                flags: flags.0->Ok_0,
                kind: kind.0->Ok_0,
                name: name.0->Ok_0,
                constraints: constraints.0->Ok_0,
                custom_attributes: custom_attributes.0->Ok_0,
            },
        )
    }
}

impl<'a> GenericParameter<'a> {
    /// Reads the record that `handle` points to.
    pub fn new(reader: MetadataReader<'a>, handle: GenericParameterHandle) -> (r: Result<
        Self,
        AotError,
    >)
        ensures
            r == spec_generic_parameter(reader, handle),
    {
        reveal(spec_generic_parameter);
        let stream = reader.stream_reader;
        let mut cursor: usize = handle.offset() as usize;
        let number = read_u16(&stream, &mut cursor)?;
        let flags = read_u32(&stream, &mut cursor)?;
        let kind = read_byte(&stream, &mut cursor)?;
        let name = read_handle::<0x1a>(&stream, &mut cursor)?;
        let constraints = read_handle_collection(&stream, &mut cursor)?;
        let custom_attributes = read_typed_collection::<0x21>(&stream, &mut cursor)?;
        Ok(Self { reader, handle, number, flags, kind, name, constraints, custom_attributes })
    }

    /// The handle that the record was read from.
    pub fn handle(&self) -> (handle: GenericParameterHandle)
        ensures
            handle == self.handle,
    {
        self.handle
    }
}

impl TypedHandle<0x26> {
    /// The record that the handle points to.
    pub fn to_data<'a>(self, reader: MetadataReader<'a>) -> (r: Result<
        GenericParameter<'a>,
        AotError,
    >)
        ensures
            r == spec_generic_parameter(reader, self),
    {
        GenericParameter::new(reader, self)
    }
}

} // verus!
