use vstd::prelude::*;
use vstd::string::StringExecFns;

use crate::embedded_meta::collections::{
    spec_base_collection, spec_behind, spec_typed_handle_at, GenericParameterHandleCollection,
};
use crate::embedded_meta::handles::{
    spec_handle_type_from_code, spec_kind_code, BaseHandle, ByReferenceSignatureHandle, Handle,
    HandleType, MethodTypeVariableSignatureHandle, TypeDefinitionHandle,
    TypeInstantiationSignatureHandle, TypeSpecificationHandle, TypeVariableSignatureHandle,
};
use crate::embedded_meta::utils::{spec_full_name, spec_full_name_with_generics};
use crate::embedded_meta::{
    spec_by_reference_signature, spec_constant_string_value, spec_generic_parameter,
    spec_method_type_variable_signature, spec_type_definition, spec_type_instantiation_signature,
    spec_type_specification, spec_type_variable_signature, MetadataReader, Method, TypeDefinition,
};
use crate::error::AotError;
use crate::native_format::reader::spec_decode_unsigned;
use crate::text::{join, spec_join, spec_texts};

verus! {

/// How deep the signatures that `reader` holds can be nested: three times
/// the number of its bytes. A signature that holds another one is of one of
/// three kinds and begins at one of the bytes, so one that is nested deeper
/// passes the same handle twice on its way down: it lies inside itself and
/// has no end.
pub open spec fn spec_max_nesting(reader: MetadataReader<'_>) -> nat {
    (3 * reader.stream_reader@.len()) as nat
}

/// How deep the signatures that `reader` holds can be nested.
fn max_nesting(reader: MetadataReader<'_>) -> (depth: usize)
    ensures
        depth == spec_max_nesting(reader),
{
    3 * reader.stream_reader.len()
}

/// What a signature is rendered inside of: a method, a type, both or
/// neither. The generic parameters of the two give the type variables of
/// the signature their names.
#[derive(Clone, Copy)]
pub struct ParentInfo<'a> {
    pub method: Option<Method<'a>>,
    pub typ: Option<TypeDefinition<'a>>,
}

/// The name of the `index`-th generic parameter of `collection`: `None`
/// where there is no such parameter or where it cannot be read.
pub open spec fn spec_generic_name_at(
    reader: MetadataReader<'_>,
    collection: GenericParameterHandleCollection<'_>,
    index: nat,
) -> Option<Seq<char>> {
    match spec_decode_unsigned(collection.reader@, collection.offset as int) {
        None => None,
        Some((count, start)) => match spec_typed_handle_at::<0x26>(
            collection.reader@,
            start,
            count as nat,
            index,
        ) {
            None => None,
            Some(handle) => match spec_generic_parameter(reader, handle) {
                Err(_) => None,
                Ok(parameter) => match spec_constant_string_value(reader, parameter.name) {
                    Err(_) => None,
                    Ok(name) => Some(name),
                },
            },
        },
    }
}

/// The index that the number of a type variable stands for. A negative
/// number stands for an index that no collection has.
pub open spec fn spec_variable_index(number: i32) -> nat {
    if number < 0 {
        (number + 0x1_0000_0000_0000_0000) as nat
    } else {
        number as nat
    }
}

/// The name of a type variable: the name of the generic parameter that it
/// stands for, or `Unknown`.
pub open spec fn spec_variable_name(name: Option<Seq<char>>) -> Seq<char> {
    match name {
        Some(name) => name,
        None => "Unknown"@,
    }
}

/// The kind of `handle`, or the null kind where its bits name none.
pub open spec fn spec_kind_or_null(handle: BaseHandle) -> HandleType {
    match spec_handle_type_from_code(spec_kind_code(handle.0)) {
        Some(kind) => kind,
        None => HandleType::Null,
    }
}

impl<'a> ParentInfo<'a> {
    /// Whether there is neither a method nor a type.
    pub open spec fn spec_has_none(&self) -> bool {
        self.method is None && self.typ is None
    }

    /// The name of the `index`-th generic parameter of the method.
    pub open spec fn spec_method_generic(&self, reader: MetadataReader<'_>, index: nat) -> Option<
        Seq<char>,
    > {
        match self.method {
            None => None,
            Some(method) => spec_generic_name_at(reader, method.generic_parameters, index),
        }
    }

    /// The name of the `index`-th generic parameter of the type.
    pub open spec fn spec_type_generic(&self, reader: MetadataReader<'_>, index: nat) -> Option<
        Seq<char>,
    > {
        match self.typ {
            None => None,
            Some(typ) => spec_generic_name_at(reader, typ.generic_parameters, index),
        }
    }

    /// Neither a method nor a type.
    pub fn none() -> (parent: Self)
        ensures
            parent.method is None,
            parent.typ is None,
    {
        Self { method: None, typ: None }
    }

    /// The type `typ` and no method.
    pub fn typ(typ: &TypeDefinition<'a>) -> (parent: Self)
        ensures
            parent.method is None,
            parent.typ == Some(*typ),
    {
        Self { method: None, typ: Some(*typ) }
    }

    /// The method `method` of the type `typ`.
    pub fn both(method: &Method<'a>, typ: &TypeDefinition<'a>) -> (parent: Self)
        ensures
            parent.method == Some(*method),
            parent.typ == Some(*typ),
    {
        Self { method: Some(*method), typ: Some(*typ) }
    }

    pub fn has_none(&self) -> (none: bool)
        ensures
            none == self.spec_has_none(),
    {
        self.method.is_none() && self.typ.is_none()
    }

    pub fn has_method(&self) -> (has: bool)
        ensures
            has == self.method is Some,
    {
        self.method.is_some()
    }

    pub fn has_type(&self) -> (has: bool)
        ensures
            has == self.typ is Some,
    {
        self.typ.is_some()
    }

    /// The name of the `index`-th generic parameter of the method.
    pub fn get_method_generic(&self, reader: MetadataReader<'a>, index: usize) -> (r: Option<
        String,
    >)
        ensures
            match self.spec_method_generic(reader, index as nat) {
                Some(name) => r is Some && r->Some_0@ == name,
                None => r is None,
            },
    {
        match &self.method {
            None => None,
            Some(method) => generic_name_at(reader, &method.generic_parameters, index),
        }
    }

    /// The name of the `index`-th generic parameter of the type.
    pub fn get_type_generic(&self, reader: MetadataReader<'a>, index: usize) -> (r: Option<String>)
        ensures
            match self.spec_type_generic(reader, index as nat) {
                Some(name) => r is Some && r->Some_0@ == name,
                None => r is None,
            },
    {
        match &self.typ {
            None => None,
            Some(typ) => generic_name_at(reader, &typ.generic_parameters, index),
        }
    }
}

/// The name of the `index`-th generic parameter of `collection`.
pub fn generic_name_at<'a>(
    reader: MetadataReader<'a>,
    collection: &GenericParameterHandleCollection<'_>,
    index: usize,
) -> (r: Option<String>)
    ensures
        match spec_generic_name_at(reader, *collection, index as nat) {
            Some(name) => r is Some && r->Some_0@ == name,
            None => r is None,
        },
{
    let handle = match collection.get(index) {
        Some(handle) => handle,
        None => {
            return None;
        },
    };
    let parameter = match handle.to_data(reader) {
        Ok(parameter) => parameter,
        Err(_) => {
            return None;
        },
    };
    match parameter.name.to_data(reader) {
        Ok(name) => Some(name.value),
        Err(_) => None,
    }
}

/// How the type that `handle` points to is written inside `parent`, with
/// signatures nested no deeper than `depth`.
///
/// A type definition is written by its full name, with its generic
/// parameters only where there is no parent. A type specification is
/// written as its signature. An instantiation is written as the generic
/// type followed by the arguments in angle brackets. A reference is written
/// with `ref ` in front. A type variable of the method or of the type is
/// written by the name of the generic parameter of the parent with its
/// number, or as `Unknown`. Everything else is written by the name of its
/// kind.
pub open spec fn spec_type_name(
    reader: MetadataReader<'_>,
    handle: BaseHandle,
    parent: ParentInfo<'_>,
    depth: nat,
) -> Result<Seq<char>, AotError>
    decreases depth, 0nat,
{
    let kind = spec_handle_type_from_code(spec_kind_code(handle.0));
    if kind == Some(HandleType::TypeDefinition) {
        match TypeDefinitionHandle::spec_from_value(handle.0) {
            Err(e) => Err(e),
            Ok(typed) => match spec_type_definition(reader, typed) {
                Err(e) => Err(e),
                Ok(definition) => if parent.spec_has_none() {
                    spec_full_name_with_generics(definition)
                } else {
                    spec_full_name(definition)
                },
            },
        }
    } else if kind == Some(HandleType::TypeSpecification) {
        match TypeSpecificationHandle::spec_from_value(handle.0) {
            Err(e) => Err(e),
            Ok(typed) => match spec_type_specification(reader, typed) {
                Err(e) => Err(e),
                Ok(specification) => if depth == 0 {
                    Err(AotError::BadImage)
                } else {
                    spec_type_name(reader, specification.signature, parent, (depth - 1) as nat)
                },
            },
        }
    } else if kind == Some(HandleType::TypeInstantiationSignature) {
        match TypeInstantiationSignatureHandle::spec_from_value(handle.0) {
            Err(e) => Err(e),
            Ok(typed) => match spec_type_instantiation_signature(reader, typed) {
                Err(e) => Err(e),
                Ok(instantiation) => if depth == 0 {
                    Err(AotError::BadImage)
                } else {
                    match spec_type_name(
                        reader,
                        instantiation.generic_type,
                        parent,
                        (depth - 1) as nat,
                    ) {
                        Err(e) => Err(e),
                        Ok(generic) => match spec_base_collection(
                            instantiation.generic_args.reader@,
                            instantiation.generic_args.offset as int,
                        ) {
                            Err(e) => Err(e),
                            Ok(arguments) => match spec_type_names(
                                reader,
                                arguments,
                                0,
                                parent,
                                (depth - 1) as nat,
                            ) {
                                Err(e) => Err(e),
                                Ok(names) => Ok(generic + "<"@ + spec_join(names, ", "@) + ">"@),
                            },
                        },
                    }
                },
            },
        }
    } else if kind == Some(HandleType::ByReferenceSignature) {
        match ByReferenceSignatureHandle::spec_from_value(handle.0) {
            Err(e) => Err(e),
            Ok(typed) => match spec_by_reference_signature(reader, typed) {
                Err(e) => Err(e),
                Ok(reference) => if depth == 0 {
                    Err(AotError::BadImage)
                } else {
                    match spec_type_name(
                        reader,
                        reference.type_handle,
                        parent,
                        (depth - 1) as nat,
                    ) {
                        Err(e) => Err(e),
                        Ok(name) => Ok("ref "@ + name),
                    }
                },
            },
        }
    } else if kind == Some(HandleType::MethodTypeVariableSignature) && parent.method is Some {
        match MethodTypeVariableSignatureHandle::spec_from_value(handle.0) {
            Err(e) => Err(e),
            Ok(typed) => match spec_method_type_variable_signature(reader, typed) {
                Err(e) => Err(e),
                Ok(variable) => Ok(
                    spec_variable_name(
                        parent.spec_method_generic(reader, spec_variable_index(variable.number)),
                    ),
                ),
            },
        }
    } else if kind == Some(HandleType::TypeVariableSignature) && parent.typ is Some {
        match TypeVariableSignatureHandle::spec_from_value(handle.0) {
            Err(e) => Err(e),
            Ok(typed) => match spec_type_variable_signature(reader, typed) {
                Err(e) => Err(e),
                Ok(variable) => Ok(
                    spec_variable_name(
                        parent.spec_type_generic(reader, spec_variable_index(variable.number)),
                    ),
                ),
            },
        }
    } else {
        Ok(spec_kind_or_null(handle).spec_name())
    }
}

/// How the types that `handles` point to, from the `from`-th on, are
/// written inside `parent`.
pub open spec fn spec_type_names(
    reader: MetadataReader<'_>,
    handles: Seq<BaseHandle>,
    from: int,
    parent: ParentInfo<'_>,
    depth: nat,
) -> Result<Seq<Seq<char>>, AotError>
    decreases depth, (handles.len() - from + 1) as nat,
{
    if from < 0 || from >= handles.len() {
        Ok(Seq::empty())
    } else {
        match spec_type_name(reader, handles[from], parent, depth) {
            Err(e) => Err(e),
            Ok(name) => match spec_type_names(reader, handles, from + 1, parent, depth) {
                Err(e) => Err(e),
                Ok(names) => Ok(seq![name] + names),
            },
        }
    }
}

/// A name that can be written with signatures nested no deeper than `depth`
/// is written the same where they may be nested deeper.
pub proof fn lemma_name_is_the_same_nested_deeper(
    reader: MetadataReader<'_>,
    handle: BaseHandle,
    parent: ParentInfo<'_>,
    depth: nat,
    more: nat,
)
    requires
        spec_type_name(reader, handle, parent, depth) is Ok,
        more >= depth,
    ensures
        spec_type_name(reader, handle, parent, more) == spec_type_name(
            reader,
            handle,
            parent,
            depth,
        ),
    decreases depth, 0nat,
{
    let kind = spec_handle_type_from_code(spec_kind_code(handle.0));
    if kind == Some(HandleType::TypeSpecification) {
        match TypeSpecificationHandle::spec_from_value(handle.0) {
            Err(_) => {},
            Ok(typed) => match spec_type_specification(reader, typed) {
                Err(_) => {},
                Ok(specification) => {
                    lemma_name_is_the_same_nested_deeper(
                        reader,
                        specification.signature,
                        parent,
                        (depth - 1) as nat,
                        (more - 1) as nat,
                    );
                },
            },
        }
    } else if kind == Some(HandleType::TypeInstantiationSignature) {
        match TypeInstantiationSignatureHandle::spec_from_value(handle.0) {
            Err(_) => {},
            Ok(typed) => match spec_type_instantiation_signature(reader, typed) {
                Err(_) => {},
                Ok(instantiation) => {
                    lemma_name_is_the_same_nested_deeper(
                        reader,
                        instantiation.generic_type,
                        parent,
                        (depth - 1) as nat,
                        (more - 1) as nat,
                    );
                    match spec_base_collection(
                        instantiation.generic_args.reader@,
                        instantiation.generic_args.offset as int,
                    ) {
                        Err(_) => {},
                        Ok(arguments) => {
                            lemma_names_are_the_same_nested_deeper(
                                reader,
                                arguments,
                                0,
                                parent,
                                (depth - 1) as nat,
                                (more - 1) as nat,
                            );
                        },
                    }
                },
            },
        }
    } else if kind == Some(HandleType::ByReferenceSignature) {
        match ByReferenceSignatureHandle::spec_from_value(handle.0) {
            Err(_) => {},
            Ok(typed) => match spec_by_reference_signature(reader, typed) {
                Err(_) => {},
                Ok(reference) => {
                    lemma_name_is_the_same_nested_deeper(
                        reader,
                        reference.type_handle,
                        parent,
                        (depth - 1) as nat,
                        (more - 1) as nat,
                    );
                },
            },
        }
    }
}

/// Names that can be written with signatures nested no deeper than `depth`
/// are written the same where they may be nested deeper.
pub proof fn lemma_names_are_the_same_nested_deeper(
    reader: MetadataReader<'_>,
    handles: Seq<BaseHandle>,
    from: int,
    parent: ParentInfo<'_>,
    depth: nat,
    more: nat,
)
    requires
        spec_type_names(reader, handles, from, parent, depth) is Ok,
        more >= depth,
    ensures
        spec_type_names(reader, handles, from, parent, more) == spec_type_names(
            reader,
            handles,
            from,
            parent,
            depth,
        ),
    decreases depth, (handles.len() - from + 1) as nat,
{
    if 0 <= from < handles.len() {
        lemma_name_is_the_same_nested_deeper(reader, handles[from], parent, depth, more);
        lemma_names_are_the_same_nested_deeper(reader, handles, from + 1, parent, depth, more);
    }
}

/// The index that the number of a type variable stands for, as far as a
/// machine word holds it.
fn variable_index(number: i32) -> (index: Option<usize>)
    ensures
        match index {
            Some(index) => index == spec_variable_index(number),
            None => spec_variable_index(number) >= 0x8000_0000,
        },
{
    if number < 0 {
        None
    } else {
        Some(number as usize)
    }
}

/// The name of a type variable.
fn variable_name(name: Option<String>) -> (text: String)
    ensures
        text@ == spec_variable_name(
            match name {
                Some(name) => Some(name@),
                None => None,
            },
        ),
{
    match name {
        Some(name) => name,
        None => String::from_str("Unknown"),
    }
}

/// No collection holds a value at an index above its count.
proof fn lemma_no_handle_beyond_count(data: Seq<u8>, offset: int, remaining: nat, index: nat)
    requires
        index >= remaining,
    ensures
        spec_typed_handle_at::<0x26>(data, offset, remaining, index) is None,
    decreases remaining,
{
    if remaining > 0 {
        match spec_decode_unsigned(data, offset) {
            None => {},
            Some((_, next)) => {
                lemma_no_handle_beyond_count(
                    data,
                    next,
                    (remaining - 1) as nat,
                    (index - 1) as nat,
                );
            },
        }
    }
}

/// How the types that `handles` point to are written inside `parent`.
fn render_types(
    reader: MetadataReader<'_>,
    handles: &Vec<BaseHandle>,
    parent: ParentInfo<'_>,
    depth: usize,
) -> (r: Result<Vec<String>, AotError>)
    ensures
        match spec_type_names(reader, handles@, 0, parent, depth as nat) {
            Ok(names) => r is Ok && spec_texts(r->Ok_0@) == names,
            Err(e) => r is Err && r->Err_0 == e,
        },
    decreases depth, 1nat,
{
    let mut names: Vec<String> = Vec::new();
    let mut i: usize = 0;
    let ghost total = spec_type_names(reader, handles@, 0, parent, depth as nat);
    assert(spec_behind(spec_texts(names@), total) =~= total) by {
        if total is Ok {
            assert(spec_texts(names@) + total->Ok_0 =~= total->Ok_0);
        }
    }
    while i < handles.len()
        invariant
            i <= handles@.len(),
            total == spec_type_names(reader, handles@, 0, parent, depth as nat),
            spec_behind(
                spec_texts(names@),
                spec_type_names(reader, handles@, i as int, parent, depth as nat),
            ) == total,
        decreases handles@.len() - i,
    {
        let ghost collected = spec_texts(names@);
        let name = render_type(reader, handles[i], parent, depth)?;
        let ghost text = name@;
        names.push(name);
        proof {
            assert(spec_texts(names@) =~= collected + seq![text]);
            let rest = spec_type_names(reader, handles@, i + 1, parent, depth as nat);
            if rest is Ok {
                assert(spec_texts(names@) + rest->Ok_0 =~= collected + (seq![text] + rest->Ok_0));
            }
        }
        i = i + 1;
    }
    assert(spec_texts(names@) + Seq::<Seq<char>>::empty() =~= spec_texts(names@));
    Ok(names)
}

/// How the type that `handle` points to is written inside `parent`, with
/// signatures nested no deeper than `depth`.
fn render_type(reader: MetadataReader<'_>, handle: BaseHandle, parent: ParentInfo<'_>, depth: usize)
    -> (r: Result<String, AotError>)
    ensures
        match spec_type_name(reader, handle, parent, depth as nat) {
            Ok(name) => r is Ok && r->Ok_0@ == name,
            Err(e) => r is Err && r->Err_0 == e,
        },
    decreases depth, 0nat,
{
    match handle.handle_type() {
        Some(HandleType::TypeDefinition) => {
            let definition = handle.to_handle::<TypeDefinitionHandle>()?.to_data(reader)?;
            if parent.has_none() {
                definition.get_full_name_with_generics()
            } else {
                definition.get_full_name()
            }
        },
        Some(HandleType::TypeSpecification) => {
            let specification = handle.to_handle::<TypeSpecificationHandle>()?.to_data(reader)?;
            if depth == 0 {
                return Err(AotError::BadImage);
            }
            render_type(reader, specification.signature, parent, depth - 1)
        },
        Some(HandleType::TypeInstantiationSignature) => {
            let instantiation = handle.to_handle::<TypeInstantiationSignatureHandle>()?.to_data(
                reader,
            )?;
            if depth == 0 {
                return Err(AotError::BadImage);
            }
            let mut name = render_type(reader, instantiation.generic_type, parent, depth - 1)?;
            let arguments = instantiation.generic_args.handles()?;
            let names = render_types(reader, &arguments, parent, depth - 1)?;
            let inner = join(&names, ", ");
            name.append("<");
            name.append(inner.as_str());
            name.append(">");
            Ok(name)
        },
        Some(HandleType::ByReferenceSignature) => {
            let reference = handle.to_handle::<ByReferenceSignatureHandle>()?.to_data(reader)?;
            if depth == 0 {
                return Err(AotError::BadImage);
            }
            let inner = render_type(reader, reference.type_handle, parent, depth - 1)?;
            let mut name = String::from_str("ref ");
            name.append(inner.as_str());
            Ok(name)
        },
        Some(HandleType::MethodTypeVariableSignature) => {
            if parent.has_method() {
                let variable = handle.to_handle::<MethodTypeVariableSignatureHandle>()?.to_data(
                    reader,
                )?;
                Ok(variable_name(method_generic(reader, parent, variable.number)))
            } else {
                Ok(String::from_str(HandleType::MethodTypeVariableSignature.name()))
            }
        },
        Some(HandleType::TypeVariableSignature) => {
            if parent.has_type() {
                let variable = handle.to_handle::<TypeVariableSignatureHandle>()?.to_data(
                    reader,
                )?;
                Ok(variable_name(type_generic(reader, parent, variable.number)))
            } else {
                Ok(String::from_str(HandleType::TypeVariableSignature.name()))
            }
        },
        Some(kind) => Ok(String::from_str(kind.name())),
        None => Ok(String::from_str(HandleType::Null.name())),
    }
}

/// The name of the generic parameter of the method of `parent` that the
/// type variable with the number `number` stands for.
fn method_generic(reader: MetadataReader<'_>, parent: ParentInfo<'_>, number: i32) -> (r: Option<
    String,
>)
    ensures
        match parent.spec_method_generic(reader, spec_variable_index(number)) {
            Some(name) => r is Some && r->Some_0@ == name,
            None => r is None,
        },
{
    match &parent.method {
        None => None,
        Some(method) => variable_generic(reader, &method.generic_parameters, number),
    }
}

/// The name of the generic parameter of the type of `parent` that the type
/// variable with the number `number` stands for.
fn type_generic(reader: MetadataReader<'_>, parent: ParentInfo<'_>, number: i32) -> (r: Option<
    String,
>)
    ensures
        match parent.spec_type_generic(reader, spec_variable_index(number)) {
            Some(name) => r is Some && r->Some_0@ == name,
            None => r is None,
        },
{
    match &parent.typ {
        None => None,
        Some(typ) => variable_generic(reader, &typ.generic_parameters, number),
    }
}

/// The name of the generic parameter of `collection` that the type variable
/// with the number `number` stands for.
fn variable_generic(
    reader: MetadataReader<'_>,
    collection: &GenericParameterHandleCollection<'_>,
    number: i32,
) -> (r: Option<String>)
    ensures
        match spec_generic_name_at(reader, *collection, spec_variable_index(number)) {
            Some(name) => r is Some && r->Some_0@ == name,
            None => r is None,
        },
{
    match variable_index(number) {
        Some(index) => generic_name_at(reader, collection, index),
        None => {
            proof {
                match spec_decode_unsigned(collection.reader@, collection.offset as int) {
                    None => {},
                    Some((count, start)) => {
                        lemma_no_handle_beyond_count(
                            collection.reader@,
                            start,
                            count as nat,
                            spec_variable_index(number),
                        );
                    },
                }
            }
            None
        },
    }
}

/// How the type that `handle` points to is written inside `parent`. Only a
/// signature that lies inside itself is nested deeper than
/// `spec_max_nesting` allows, and is refused.
pub fn get_type_name_from_handle(
    handle: BaseHandle,
    parent: ParentInfo<'_>,
    reader: MetadataReader<'_>,
) -> (r: Result<String, AotError>)
    ensures
        match spec_type_name(reader, handle, parent, spec_max_nesting(reader)) {
            Ok(name) => r is Ok && r->Ok_0@ == name,
            Err(e) => r is Err && r->Err_0 == e,
        },
{
    render_type(reader, handle, parent, max_nesting(reader))
}

} // verus!
