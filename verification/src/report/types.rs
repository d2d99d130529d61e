use std::collections::HashMap;
use vstd::prelude::*;
use vstd::string::StringExecFns;

use crate::embedded_meta::collections::{spec_base_collection, spec_typed_collection};
use crate::embedded_meta::flags::{spec_has_bit, spec_member_access, MethodMemberAccess};
use crate::embedded_meta::handles::{
    spec_offset_bits, BaseHandle, FieldHandle, Handle, MethodHandle, ScopeDefinitionHandle,
};
use crate::embedded_meta::names::{
    get_type_name_from_handle, spec_max_nesting, spec_type_name, ParentInfo,
};
use crate::embedded_meta::utils::{
    generic_names, generics_suffix, spec_full_name_with_generics, spec_scope_types,
    spec_generic_names, spec_generics_suffix,
};
use crate::embedded_meta::{
    spec_constant_string_value, spec_field, spec_field_signature, spec_method,
    spec_method_signature, spec_scope_definition, MetadataReader, Method, MethodSignature,
    TypeDefinition,
};
use crate::error::AotError;
use crate::native_format::hashtable::{spec_offsets, NativeHashtable};
use crate::native_format::parser::NativeParser;
use crate::native_format::reader::spec_decode_unsigned;
use crate::native_format::ref_table::ExternalReferencesTable;
use crate::pe::PeImage;
use crate::text::{join, spec_hex, spec_join, spec_texts, to_hex};

verus! {

/// What a listing of the types of an image is made from: the metadata, the
/// image, and the entry points of the methods, by the bits of their handles.
pub struct ListingContext<'a> {
    pub metadata: MetadataReader<'a>,
    pub pe: &'a PeImage,
    pub pointers: HashMap<u32, u64>,
}

// ---------------------------------------------------------------------------
// The entry points of the methods
// ---------------------------------------------------------------------------

/// What the invoke map entry whose payload lies at `payload` says: the bits
/// of the handle of a method and the address of its entry point. The
/// payload holds flags, a handle, the index of a reference that is not
/// looked at, and the index of the reference to the entry point. Nothing is
/// said where the bit 32 of the flags is not set, where the handle is none
/// of a method, and where the reference leads nowhere.
pub open spec fn spec_pointer_entry(
    data: Seq<u8>,
    fixups: ExternalReferencesTable<'_>,
    payload: int,
) -> Result<Option<(u32, u64)>, AotError> {
    match spec_decode_unsigned(data, payload) {
        None => Err(AotError::BadImage),
        Some((flags, second)) => match spec_decode_unsigned(data, second) {
            None => Err(AotError::BadImage),
            Some((raw, third)) => match spec_decode_unsigned(data, third) {
                None => Err(AotError::BadImage),
                Some((_, fourth)) => match spec_decode_unsigned(data, fourth) {
                    None => Err(AotError::BadImage),
                    Some((index, _)) => if !spec_has_bit(flags, 32) {
                        Ok(None)
                    } else {
                        match MethodHandle::spec_from_value(raw) {
                            Err(_) => Ok(None),
                            Ok(handle) => match fixups.spec_get(index) {
                                None => Ok(None),
                                Some(va) => Ok(Some((handle.spec_bits(), va))),
                            },
                        }
                    },
                },
            },
        }
    }
}

/// `pointers` with what the invoke map entries at `payloads`, from the
/// `from`-th on, say. A later entry for a method replaces an earlier one.
pub open spec fn spec_pointers(
    data: Seq<u8>,
    fixups: ExternalReferencesTable<'_>,
    payloads: Seq<int>,
    from: int,
    pointers: Map<u32, u64>,
) -> Result<Map<u32, u64>, AotError>
    decreases payloads.len() - from,
{
    if from < 0 || from >= payloads.len() {
        Ok(pointers)
    } else {
        match spec_pointer_entry(data, fixups, payloads[from]) {
            Err(e) => Err(e),
            Ok(Some((handle, va))) => spec_pointers(
                data,
                fixups,
                payloads,
                from + 1,
                pointers.insert(handle, va),
            ),
            Ok(None) => spec_pointers(data, fixups, payloads, from + 1, pointers),
        }
    }
}

/// What the invoke map entry at which `parser` stands says.
fn pointer_entry(fixups: &ExternalReferencesTable<'_>, parser: NativeParser<'_>) -> (r: Result<
    Option<(u32, u64)>,
    AotError,
>)
    ensures
        r == spec_pointer_entry(parser.reader@, *fixups, parser.offset as int),
{
    let mut parser = parser;
    let flags = parser.get_unsigned()?;
    let raw = parser.get_unsigned()?;
    let _ = parser.get_unsigned()?;
    let index = parser.get_unsigned()?;
    assert((flags & 32 != 0) == ((flags / 32) % 2 == 1)) by (bit_vector);
    if flags & 32 == 0 {
        return Ok(None);
    }
    let handle = match BaseHandle::from_raw(raw).to_handle::<MethodHandle>() {
        Ok(handle) => handle,
        Err(_) => {
            return Ok(None);
        },
    };
    match fixups.get_va_from_index(index) {
        Some(va) => Ok(Some((handle.to_value(), va))),
        None => Ok(None),
    }
}

/// `pointers` with what the invoke map entries `entries` say.
fn collect_pointers(fixups: &ExternalReferencesTable<'_>, entries: &Vec<NativeParser<'_>>, data: Ghost<
    Seq<u8>,
>) -> (r: Result<HashMap<u32, u64>, AotError>)
    requires
        forall|k: int| 0 <= k < entries@.len() ==> (#[trigger] entries@[k]).reader@ == data@,
    ensures
        match spec_pointers(data@, *fixups, spec_offsets(entries@), 0, Map::empty()) {
            Ok(pointers) => r is Ok && r->Ok_0@ == pointers,
            Err(e) => r is Err && r->Err_0 == e,
        },
{
    broadcast use vstd::std_specs::hash::group_hash_axioms;

    let ghost payloads = spec_offsets(entries@);
    let mut pointers: HashMap<u32, u64> = HashMap::new();
    let ghost total = spec_pointers(data@, *fixups, payloads, 0, Map::empty());
    let mut i: usize = 0;
    while i < entries.len()
        invariant
            i <= entries@.len(),
            payloads == spec_offsets(entries@),
            total == spec_pointers(data@, *fixups, payloads, 0, Map::empty()),
            forall|k: int| 0 <= k < entries@.len() ==> (#[trigger] entries@[k]).reader@ == data@,
            spec_pointers(data@, *fixups, payloads, i as int, pointers@) == total,
        decreases entries@.len() - i,
    {
        assert(payloads[i as int] == entries@[i as int].offset);
        match pointer_entry(fixups, entries[i]) {
            Err(e) => {
                return Err(e);
            },
            Ok(Some((handle, va))) => {
                pointers.insert(handle, va);
            },
            Ok(None) => {},
        }
        i = i + 1;
    }
    Ok(pointers)
}

/// The entry points of the methods that the invoke map `invoke_map` knows.
pub fn method_pointers(invoke_map: &NativeHashtable<'_>, fixups: &ExternalReferencesTable<'_>)
    -> (r: Result<HashMap<u32, u64>, AotError>)
    ensures
        match invoke_map.bounds(0) {
            None => r is Err && r->Err_0 == AotError::BadImage,
            Some((start, end)) => match spec_pointers(
                invoke_map.data(),
                *fixups,
                crate::native_format::hashtable::spec_all_seq(
                    invoke_map.data(),
                    invoke_map.base(),
                    invoke_map.index_size(),
                    invoke_map.mask(),
                    0,
                    start,
                    end,
                ),
                0,
                Map::empty(),
            ) {
                Ok(pointers) => r is Ok && r->Ok_0@ == pointers,
                Err(e) => r is Err && r->Err_0 == e,
            },
        },
{
    let entries = invoke_map.enumerate_all()?.collect();
    collect_pointers(fixups, &entries, Ghost(invoke_map.data()))
}

// ---------------------------------------------------------------------------
// The lines of a type
// ---------------------------------------------------------------------------

/// What a listing gives: the lines that were listed, and the error that
/// ended it, if one did.
pub type Partial = (Seq<Seq<char>>, Option<AotError>);

/// `found` followed by the listing `rest`.
pub open spec fn spec_after(found: Seq<Seq<char>>, rest: Partial) -> Partial {
    (found + rest.0, rest.1)
}

/// The listing `first`, and behind it the listing `rest` where no error
/// ended the first.
pub open spec fn spec_then(first: Partial, rest: Partial) -> Partial {
    if first.1 is Some {
        first
    } else {
        spec_after(first.0, rest)
    }
}

/// The listing that the error `e` ends before its first line.
pub open spec fn spec_fails(e: AotError) -> Partial {
    (Seq::empty(), Some(e))
}

/// The listing without lines and without an error.
pub open spec fn spec_nothing() -> Partial {
    (Seq::empty(), None)
}

/// `type_text` in place of an error.
pub open spec fn spec_or_text(rendered: Result<Seq<char>, AotError>, otherwise: Seq<char>) -> Seq<
    char,
> {
    match rendered {
        Ok(text) => text,
        Err(_) => otherwise,
    }
}

/// The line of the field that `handle` points to: its name and, in round
/// brackets, its type. A field that cannot be read has no line.
#[verifier::opaque]
pub open spec fn spec_field_line(
    metadata: MetadataReader<'_>,
    typ: TypeDefinition<'_>,
    handle: FieldHandle,
) -> Result<Option<Seq<char>>, AotError> {
    match spec_field(metadata, handle) {
        Err(_) => Ok(None),
        Ok(field) => match spec_constant_string_value(metadata, field.name) {
            Err(e) => Err(e),
            Ok(name) => match spec_field_signature(metadata, field.signature) {
                Err(e) => Err(e),
                Ok(signature) => Ok(
                    Some(
                        "  * "@ + name + " ("@ + spec_or_text(
                            spec_type_name(
                                metadata,
                                signature.type_handle,
                                (ParentInfo { method: None, typ: Some(typ) }),
                                spec_max_nesting(metadata),
                            ),
                            "Unknown TypeDefinition"@,
                        ) + ")"@,
                    ),
                ),
            },
        },
    }
}

/// The lines of the fields `handles` from the `from`-th on.
pub open spec fn spec_field_lines(
    metadata: MetadataReader<'_>,
    typ: TypeDefinition<'_>,
    handles: Seq<FieldHandle>,
    from: int,
) -> Partial
    decreases handles.len() - from,
{
    if from < 0 || from >= handles.len() {
        spec_nothing()
    } else {
        match spec_field_line(metadata, typ, handles[from]) {
            Err(e) => spec_fails(e),
            Ok(Some(line)) => spec_after(
                seq![line],
                spec_field_lines(metadata, typ, handles, from + 1),
            ),
            Ok(None) => spec_field_lines(metadata, typ, handles, from + 1),
        }
    }
}

/// The lines that list the fields of `typ`: a heading and one line for each
/// field; nothing where the type says it has no fields.
pub open spec fn spec_fields_section(metadata: MetadataReader<'_>, typ: TypeDefinition<'_>)
    -> Partial {
    match spec_decode_unsigned(typ.fields.reader@, typ.fields.offset as int) {
        None => spec_nothing(),
        Some((count, _)) => if count == 0 {
            spec_nothing()
        } else {
            match spec_typed_collection::<0x23>(typ.fields.reader@, typ.fields.offset as int) {
                Err(_) => spec_nothing(),
                Ok(handles) => spec_after(
                    seq![" - Fields:"@],
                    spec_field_lines(metadata, typ, handles, 0),
                ),
            }
        },
    }
}

/// How the member access `access` is written in front of a method.
pub open spec fn spec_access_text(access: MethodMemberAccess) -> Seq<char> {
    match access {
        MethodMemberAccess::Assembly => "internal "@,
        MethodMemberAccess::FamAndAssem => "private protected "@,
        MethodMemberAccess::FamOrAssem => "internal protected "@,
        MethodMemberAccess::Family => "protected "@,
        MethodMemberAccess::Private => "private "@,
        MethodMemberAccess::PrivateScope => ""@,
        MethodMemberAccess::Public => "public "@,
    }
}

/// How the types of the parameters `handles`, from the `from`-th on, are
/// written; `<unknown>` stands for one that cannot be written.
pub open spec fn spec_parameter_texts(
    metadata: MetadataReader<'_>,
    parent: ParentInfo<'_>,
    handles: Seq<BaseHandle>,
    from: int,
) -> Seq<Seq<char>>
    decreases handles.len() - from,
{
    if from < 0 || from >= handles.len() {
        Seq::empty()
    } else {
        seq![
            spec_or_text(
                spec_type_name(metadata, handles[from], parent, spec_max_nesting(metadata)),
                "<unknown>"@,
            ),
        ] + spec_parameter_texts(metadata, parent, handles, from + 1)
    }
}

/// What stands between the round brackets of a method: the types of its
/// parameters, separated by a comma and a blank; nothing where the
/// parameters cannot be listed.
pub open spec fn spec_parameters_text(
    metadata: MetadataReader<'_>,
    parent: ParentInfo<'_>,
    signature: MethodSignature<'_>,
) -> Seq<char> {
    match spec_base_collection(
        signature.parameters.reader@,
        signature.parameters.offset as int,
    ) {
        Err(_) => Seq::empty(),
        Ok(handles) => spec_join(spec_parameter_texts(metadata, parent, handles, 0), ", "@),
    }
}

/// Where the method with the handle bits `handle` starts: its address
/// relative to the image base, or its address where that is outside the
/// image; nothing where no entry point is known.
pub open spec fn spec_location_text(pe: &PeImage, pointers: Map<u32, u64>, handle: u32) -> Seq<
    char,
> {
    if pointers.contains_key(handle) {
        match pe.spec_va_to_rva(pointers[handle]) {
            Some(rva) => " RVA: 0x"@ + spec_hex(rva as nat),
            None => " VA: 0x"@ + spec_hex(pointers[handle] as nat),
        }
    } else {
        Seq::empty()
    }
}

/// How the return type of `signature` is written: `void` where there is
/// none.
pub open spec fn spec_return_text(
    metadata: MetadataReader<'_>,
    parent: ParentInfo<'_>,
    signature: MethodSignature<'_>,
) -> Result<Seq<char>, AotError> {
    if spec_offset_bits(signature.return_type.0) == 0 {
        Ok("void"@)
    } else {
        spec_type_name(metadata, signature.return_type, parent, spec_max_nesting(metadata))
    }
}

/// The line of `method` with the signature `signature`: access, return
/// type, name, generic parameters, the parameter types in round brackets,
/// and, behind two slashes, where the method starts and its calling
/// convention.
#[verifier::opaque]
pub open spec fn spec_method_text(
    context: ListingContext<'_>,
    typ: TypeDefinition<'_>,
    method: Method<'_>,
    signature: MethodSignature<'_>,
    name: Seq<char>,
) -> Result<Seq<char>, AotError> {
    let parent = ParentInfo { method: Some(method), typ: Some(typ) };
    match spec_return_text(context.metadata, parent, signature) {
        Err(e) => Err(e),
        Ok(result_text) => Ok(
            "  * "@ + spec_access_text(spec_member_access(method.flags.0 as int % 8)) + result_text
                + " "@ + name + spec_generics_suffix(
                spec_generic_names(context.metadata, method.generic_parameters),
            ) + "("@ + spec_parameters_text(context.metadata, parent, signature) + ") //"@
                + spec_location_text(context.pe, context.pointers@, method.handle.spec_bits())
                + " Conv: "@ + signature.calling_convention.spec_name(),
        ),
    }
}

/// The line of the method that `handle` points to. A method that cannot be
/// read has no line, nor has one whose signature cannot be read.
#[verifier::opaque]
pub open spec fn spec_method_line(
    context: ListingContext<'_>,
    typ: TypeDefinition<'_>,
    handle: MethodHandle,
) -> Result<Option<Seq<char>>, AotError> {
    match spec_method(context.metadata, handle) {
        Err(_) => Ok(None),
        Ok(method) => match spec_constant_string_value(context.metadata, method.name) {
            Err(e) => Err(e),
            Ok(name) => match spec_method_signature(context.metadata, method.signature) {
                Err(_) => Ok(None),
                Ok(signature) => match spec_method_text(context, typ, method, signature, name) {
                    Err(e) => Err(e),
                    Ok(line) => Ok(Some(line)),
                },
            },
        },
    }
}

/// The lines of the methods `handles` from the `from`-th on.
pub open spec fn spec_method_lines(
    context: ListingContext<'_>,
    typ: TypeDefinition<'_>,
    handles: Seq<MethodHandle>,
    from: int,
) -> Partial
    decreases handles.len() - from,
{
    if from < 0 || from >= handles.len() {
        spec_nothing()
    } else {
        match spec_method_line(context, typ, handles[from]) {
            Err(e) => spec_fails(e),
            Ok(Some(line)) => spec_after(
                seq![line],
                spec_method_lines(context, typ, handles, from + 1),
            ),
            Ok(None) => spec_method_lines(context, typ, handles, from + 1),
        }
    }
}

/// The lines that list the methods of `typ`: a heading and one line for
/// each method; nothing where the type says it has no methods.
pub open spec fn spec_methods_section(context: ListingContext<'_>, typ: TypeDefinition<'_>)
    -> Partial {
    match spec_decode_unsigned(typ.methods.reader@, typ.methods.offset as int) {
        None => spec_nothing(),
        Some((count, _)) => if count == 0 {
            spec_nothing()
        } else {
            match spec_typed_collection::<0x28>(typ.methods.reader@, typ.methods.offset as int) {
                Err(_) => spec_nothing(),
                Ok(handles) => spec_after(
                    seq![" - Methods:"@],
                    spec_method_lines(context, typ, handles, 0),
                ),
            }
        },
    }
}

/// The first line of `typ`: its full name with generic parameters and,
/// where it has a base type, that type in round brackets.
pub open spec fn spec_heading(metadata: MetadataReader<'_>, typ: TypeDefinition<'_>) -> Result<
    Seq<char>,
    AotError,
> {
    match spec_full_name_with_generics(typ) {
        Err(e) => Err(e),
        Ok(name) => if spec_offset_bits(typ.base_type.0) == 0 {
            Ok(name)
        } else {
            match spec_type_name(
                metadata,
                typ.base_type,
                (ParentInfo { method: None, typ: Some(typ) }),
                spec_max_nesting(metadata),
            ) {
                Err(e) => Err(e),
                Ok(base) => Ok(name + " ("@ + base + ")"@),
            }
        },
    }
}

/// The lines of `typ`: its heading, its fields and its methods. Where one
/// of them cannot be written, the lines end before it.
pub open spec fn spec_type_lines(context: ListingContext<'_>, typ: TypeDefinition<'_>) -> Partial {
    match spec_heading(context.metadata, typ) {
        Err(e) => spec_fails(e),
        Ok(heading) => spec_after(
            seq![heading],
            spec_then(spec_fields_section(context.metadata, typ), spec_methods_section(context, typ)),
        ),
    }
}

/// The lines of the types `types` from the `from`-th on.
pub open spec fn spec_types_lines(
    context: ListingContext<'_>,
    types: Seq<TypeDefinition<'_>>,
    from: int,
) -> Partial
    decreases types.len() - from,
{
    if from < 0 || from >= types.len() {
        spec_nothing()
    } else {
        spec_then(spec_type_lines(context, types[from]), spec_types_lines(context, types, from + 1))
    }
}

/// The lines of the types of the scope that `handle` points to; none where
/// the scope cannot be read.
#[verifier::opaque]
pub open spec fn spec_scope_lines(context: ListingContext<'_>, handle: ScopeDefinitionHandle)
    -> Partial {
    match spec_scope_definition(context.metadata, handle) {
        Err(_) => spec_nothing(),
        Ok(scope) => match spec_scope_types(scope) {
            Err(e) => spec_fails(e),
            Ok(types) => spec_types_lines(context, types, 0),
        },
    }
}

/// The lines of the types of the scopes `handles` from the `from`-th on.
pub open spec fn spec_scopes_lines(
    context: ListingContext<'_>,
    handles: Seq<ScopeDefinitionHandle>,
    from: int,
) -> Partial
    decreases handles.len() - from,
{
    if from < 0 || from >= handles.len() {
        spec_nothing()
    } else {
        spec_then(
            spec_scope_lines(context, handles[from]),
            spec_scopes_lines(context, handles, from + 1),
        )
    }
}

/// The listing of all types of the metadata of `context`, scope after
/// scope: the lines, and the error that ended the listing, if one did.
pub open spec fn spec_listing(context: ListingContext<'_>) -> Partial {
    match spec_typed_collection::<0x38>(
        context.metadata.header.scope_definitions.reader@,
        context.metadata.header.scope_definitions.offset as int,
    ) {
        Err(e) => spec_fails(e),
        Ok(handles) => spec_scopes_lines(context, handles, 0),
    }
}

/// Whether `r` is the outcome of a listing that `error` ended, or that
/// nothing ended.
pub open spec fn spec_ended(r: Result<(), AotError>, error: Option<AotError>) -> bool {
    match error {
        None => r is Ok,
        Some(e) => r is Err && r->Err_0 == e,
    }
}

/// `rendered`, or `otherwise` in place of an error.
fn or_text(rendered: Result<String, AotError>, otherwise: &str) -> (text: String)
    ensures
        text@ == spec_or_text(
            match rendered {
                Ok(text) => Ok(text@),
                Err(e) => Err(e),
            },
            otherwise@,
        ),
{
    match rendered {
        Ok(text) => text,
        Err(_) => String::from_str(otherwise),
    }
}

/// The line of the field that `handle` points to.
fn field_line(metadata: MetadataReader<'_>, typ: &TypeDefinition<'_>, handle: FieldHandle) -> (r:
    Result<Option<String>, AotError>)
    ensures
        match spec_field_line(metadata, *typ, handle) {
            Err(e) => r is Err && r->Err_0 == e,
            Ok(Some(line)) => r is Ok && r->Ok_0 is Some && r->Ok_0->Some_0@ == line,
            Ok(None) => r is Ok && r->Ok_0 is None,
        },
{
    reveal(spec_field_line);
    let field = match handle.to_data(metadata) {
        Ok(field) => field,
        Err(_) => {
            return Ok(None);
        },
    };
    let name = field.name.to_data(metadata)?;
    let signature = field.signature.to_data(metadata)?;
    let type_text = or_text(
        get_type_name_from_handle(signature.type_handle, ParentInfo::typ(typ), metadata),
        "Unknown TypeDefinition",
    );
    let mut line = String::from_str("  * ");
    line.append(name.value.as_str());
    line.append(" (");
    line.append(type_text.as_str());
    line.append(")");
    Ok(Some(line))
}

/// Appends to `lines` the lines of the fields `handles`.
fn field_lines(
    metadata: MetadataReader<'_>,
    typ: &TypeDefinition<'_>,
    handles: &Vec<FieldHandle>,
    lines: &mut Vec<String>,
)
    -> (r: Result<(), AotError>)
    ensures
        spec_texts(final(lines)@) == spec_texts(old(lines)@) + spec_field_lines(
            metadata, *typ,
            handles@,
            0,
        ).0,
        spec_ended(r, spec_field_lines(metadata, *typ, handles@, 0).1),
{
    let ghost start = spec_texts(lines@);
    let ghost total = spec_field_lines(metadata, *typ, handles@, 0);
    let ghost added = Seq::<Seq<char>>::empty();
    assert(start + added =~= start);
    assert(added + total.0 =~= total.0);
    let mut i: usize = 0;
    while i < handles.len()
        invariant
            i <= handles@.len(),
            start == spec_texts(old(lines)@),
            total == spec_field_lines(metadata, *typ, handles@, 0),
            spec_texts(lines@) == start + added,
            spec_after(added, spec_field_lines(metadata, *typ, handles@, i as int)) == total,
        decreases handles@.len() - i,
    {
        let ghost before = spec_texts(lines@);
        match field_line(metadata, typ, handles[i]) {
            Err(e) => {
                assert(added + Seq::<Seq<char>>::empty() =~= added);
                return Err(e);
            },
            Ok(Some(line)) => {
                let ghost text = line@;
                lines.push(line);
                proof {
                    assert(spec_texts(lines@) =~= before.push(text));
                    let rest = spec_field_lines(metadata, *typ, handles@, i + 1);
                    assert(added.push(text) + rest.0 =~= added + (seq![text] + rest.0));
                    assert(start + added.push(text) =~= (start + added).push(text));
                    added = added.push(text);
                }
            },
            Ok(None) => {},
        }
        i = i + 1;
    }
    assert(added + Seq::<Seq<char>>::empty() =~= added);
    Ok(())
}

/// Appends to `lines` the lines that list the fields of `typ`.
fn fields_section(metadata: MetadataReader<'_>, typ: &TypeDefinition<'_>, lines: &mut Vec<String>)
    -> (r: Result<(), AotError>)
    ensures
        spec_texts(final(lines)@) == spec_texts(old(lines)@) + spec_fields_section(metadata, *typ).0,
        spec_ended(r, spec_fields_section(metadata, *typ).1),
{
    let ghost start = spec_texts(lines@);
    assert(start + Seq::<Seq<char>>::empty() =~= start);
    match typ.fields.count() {
        Ok(count) => {
            if count == 0 {
                return Ok(());
            }
        },
        Err(_) => {
            return Ok(());
        },
    }
    let handles = match typ.fields.handles() {
        Ok(handles) => handles,
        Err(_) => {
            return Ok(());
        },
    };
    lines.push(String::from_str(" - Fields:"));
    assert(spec_texts(lines@) =~= start + seq![" - Fields:"@]);
    let r = field_lines(metadata, typ, &handles, lines);
    proof {
        let rest = spec_field_lines(metadata, *typ, handles@, 0);
        assert((start + seq![" - Fields:"@]) + rest.0 =~= start + (seq![" - Fields:"@] + rest.0));
    }
    r
}

/// How the member access `access` is written in front of a method.
fn access_text(access: MethodMemberAccess) -> (text: &'static str)
    ensures
        text@ == spec_access_text(access),
{
    match access {
        MethodMemberAccess::Assembly => "internal ",
        MethodMemberAccess::FamAndAssem => "private protected ",
        MethodMemberAccess::FamOrAssem => "internal protected ",
        MethodMemberAccess::Family => "protected ",
        MethodMemberAccess::Private => "private ",
        MethodMemberAccess::PrivateScope => "",
        MethodMemberAccess::Public => "public ",
    }
}

/// What stands between the round brackets of a method.
fn parameters_text(
    metadata: MetadataReader<'_>,
    parent: ParentInfo<'_>,
    signature: &MethodSignature<'_>,
) -> (text: String)
    ensures
        text@ == spec_parameters_text(metadata, parent, *signature),
{
    let handles = match signature.parameters.handles() {
        Ok(handles) => handles,
        Err(_) => {
            return String::new();
        },
    };
    let mut texts: Vec<String> = Vec::new();
    let mut i: usize = 0;
    let ghost total = spec_parameter_texts(metadata, parent, handles@, 0);
    assert(spec_texts(texts@) + total =~= total);
    while i < handles.len()
        invariant
            i <= handles@.len(),
            total == spec_parameter_texts(metadata, parent, handles@, 0),
            spec_texts(texts@) + spec_parameter_texts(metadata, parent, handles@, i as int)
                == total,
        decreases handles@.len() - i,
    {
        let ghost before = spec_texts(texts@);
        let text = or_text(get_type_name_from_handle(handles[i], parent, metadata), "<unknown>");
        let ghost view = text@;
        texts.push(text);
        assert(spec_texts(texts@) =~= before.push(view));
        assert(spec_texts(texts@) + spec_parameter_texts(metadata, parent, handles@, i + 1)
            =~= before + (seq![view] + spec_parameter_texts(metadata, parent, handles@, i + 1)));
        i = i + 1;
    }
    assert(spec_texts(texts@) + Seq::<Seq<char>>::empty() =~= spec_texts(texts@));
    join(&texts, ", ")
}

/// Where the method with the handle bits `handle` starts.
fn location_text(context: &ListingContext<'_>, handle: u32) -> (text: String)
    ensures
        text@ == spec_location_text(context.pe, context.pointers@, handle),
{
    broadcast use vstd::std_specs::hash::group_hash_axioms;

    match context.pointers.get(&handle) {
        Some(va) => {
            let va: u64 = *va;
            match context.pe.va_to_rva(va) {
                Some(rva) => {
                    let mut text = String::from_str(" RVA: 0x");
                    text.append(to_hex(rva as u64).as_str());
                    text
                },
                None => {
                    let mut text = String::from_str(" VA: 0x");
                    text.append(to_hex(va).as_str());
                    text
                },
            }
        },
        None => String::new(),
    }
}

/// How the return type of `signature` is written.
fn return_text(
    metadata: MetadataReader<'_>,
    parent: ParentInfo<'_>,
    signature: &MethodSignature<'_>,
) -> (r: Result<String, AotError>)
    ensures
        match spec_return_text(metadata, parent, *signature) {
            Ok(text) => r is Ok && r->Ok_0@ == text,
            Err(e) => r is Err && r->Err_0 == e,
        },
{
    if signature.return_type.is_nil() {
        Ok(String::from_str("void"))
    } else {
        get_type_name_from_handle(signature.return_type, parent, metadata)
    }
}

/// The line of `method` with the signature `signature`.
fn method_text(
    context: &ListingContext<'_>,
    typ: &TypeDefinition<'_>,
    method: &Method<'_>,
    signature: &MethodSignature<'_>,
    name: &String,
) -> (r: Result<String, AotError>)
    ensures
        match spec_method_text(*context, *typ, *method, *signature, name@) {
            Ok(line) => r is Ok && r->Ok_0@ == line,
            Err(e) => r is Err && r->Err_0 == e,
        },
{
    reveal(spec_method_text);
    let parent = ParentInfo::both(method, typ);
    let generics = generics_suffix(&generic_names(context.metadata, &method.generic_parameters));
    let result_text = return_text(context.metadata, parent, signature)?;
    let parameters = parameters_text(context.metadata, parent, signature);
    let location = location_text(context, method.handle.to_value());
    let mut line = String::from_str("  * ");
    line.append(access_text(method.flags.member_access()));
    line.append(result_text.as_str());
    line.append(" ");
    line.append(name.as_str());
    line.append(generics.as_str());
    line.append("(");
    line.append(parameters.as_str());
    line.append(") //");
    line.append(location.as_str());
    line.append(" Conv: ");
    line.append(signature.calling_convention.name());
    Ok(line)
}

/// The line of the method that `handle` points to.
fn method_line(context: &ListingContext<'_>, typ: &TypeDefinition<'_>, handle: MethodHandle) -> (r:
    Result<Option<String>, AotError>)
    ensures
        match spec_method_line(*context, *typ, handle) {
            Err(e) => r is Err && r->Err_0 == e,
            Ok(Some(line)) => r is Ok && r->Ok_0 is Some && r->Ok_0->Some_0@ == line,
            Ok(None) => r is Ok && r->Ok_0 is None,
        },
{
    reveal(spec_method_line);
    let method = match handle.to_data(context.metadata) {
        Ok(method) => method,
        Err(_) => {
            return Ok(None);
        },
    };
    let name = method.name.to_data(context.metadata)?;
    let signature = match method.signature.to_data(context.metadata) {
        Ok(signature) => signature,
        Err(_) => {
            return Ok(None);
        },
    };
    let line = method_text(context, typ, &method, &signature, &name.value)?;
    Ok(Some(line))
}

/// Appends to `lines` the lines of the methods `handles`.
fn method_lines(
    context: &ListingContext<'_>,
    typ: &TypeDefinition<'_>,
    handles: &Vec<MethodHandle>,
    lines: &mut Vec<String>,
)
    -> (r: Result<(), AotError>)
    ensures
        spec_texts(final(lines)@) == spec_texts(old(lines)@) + spec_method_lines(
            *context, *typ,
            handles@,
            0,
        ).0,
        spec_ended(r, spec_method_lines(*context, *typ, handles@, 0).1),
{
    let ghost start = spec_texts(lines@);
    let ghost total = spec_method_lines(*context, *typ, handles@, 0);
    let ghost added = Seq::<Seq<char>>::empty();
    assert(start + added =~= start);
    assert(added + total.0 =~= total.0);
    let mut i: usize = 0;
    while i < handles.len()
        invariant
            i <= handles@.len(),
            start == spec_texts(old(lines)@),
            total == spec_method_lines(*context, *typ, handles@, 0),
            spec_texts(lines@) == start + added,
            spec_after(added, spec_method_lines(*context, *typ, handles@, i as int)) == total,
        decreases handles@.len() - i,
    {
        let ghost before = spec_texts(lines@);
        match method_line(context, typ, handles[i]) {
            Err(e) => {
                assert(added + Seq::<Seq<char>>::empty() =~= added);
                return Err(e);
            },
            Ok(Some(line)) => {
                let ghost text = line@;
                lines.push(line);
                proof {
                    assert(spec_texts(lines@) =~= before.push(text));
                    let rest = spec_method_lines(*context, *typ, handles@, i + 1);
                    assert(added.push(text) + rest.0 =~= added + (seq![text] + rest.0));
                    assert(start + added.push(text) =~= (start + added).push(text));
                    added = added.push(text);
                }
            },
            Ok(None) => {},
        }
        i = i + 1;
    }
    assert(added + Seq::<Seq<char>>::empty() =~= added);
    Ok(())
}

/// Appends to `lines` the lines that list the methods of `typ`.
fn methods_section(context: &ListingContext<'_>, typ: &TypeDefinition<'_>, lines: &mut Vec<String>)
    -> (r: Result<(), AotError>)
    ensures
        spec_texts(final(lines)@) == spec_texts(old(lines)@) + spec_methods_section(*context, *typ).0,
        spec_ended(r, spec_methods_section(*context, *typ).1),
{
    let ghost start = spec_texts(lines@);
    assert(start + Seq::<Seq<char>>::empty() =~= start);
    match typ.methods.count() {
        Ok(count) => {
            if count == 0 {
                return Ok(());
            }
        },
        Err(_) => {
            return Ok(());
        },
    }
    let handles = match typ.methods.handles() {
        Ok(handles) => handles,
        Err(_) => {
            return Ok(());
        },
    };
    lines.push(String::from_str(" - Methods:"));
    assert(spec_texts(lines@) =~= start + seq![" - Methods:"@]);
    let r = method_lines(context, typ, &handles, lines);
    proof {
        let rest = spec_method_lines(*context, *typ, handles@, 0);
        assert((start + seq![" - Methods:"@]) + rest.0 =~= start + (seq![" - Methods:"@] + rest.0));
    }
    r
}

/// The first line of `typ`.
fn heading(metadata: MetadataReader<'_>, typ: &TypeDefinition<'_>) -> (r: Result<String, AotError>)
    ensures
        match spec_heading(metadata, *typ) {
            Ok(line) => r is Ok && r->Ok_0@ == line,
            Err(e) => r is Err && r->Err_0 == e,
        },
{
    let mut line = typ.get_full_name_with_generics()?;
    if !typ.base_type.is_nil() {
        let base = get_type_name_from_handle(typ.base_type, ParentInfo::typ(typ), metadata)?;
        line.append(" (");
        line.append(base.as_str());
        line.append(")");
    }
    Ok(line)
}

/// Appends to `lines` the lines of `typ`, as far as they can be written.
fn type_lines(
    context: &ListingContext<'_>,
    typ: &TypeDefinition<'_>,
    lines: &mut Vec<String>,
) -> (r:
    Result<(), AotError>)
    ensures
        spec_texts(final(lines)@) == spec_texts(old(lines)@) + spec_type_lines(*context, *typ).0,
        spec_ended(r, spec_type_lines(*context, *typ).1),
{
    let ghost start = spec_texts(lines@);
    let first = match heading(context.metadata, typ) {
        Ok(first) => first,
        Err(e) => {
            assert(start + Seq::<Seq<char>>::empty() =~= start);
            return Err(e);
        },
    };
    let ghost text = first@;
    lines.push(first);
    assert(spec_texts(lines@) =~= start + seq![text]);
    let ghost fields = spec_fields_section(context.metadata, *typ);
    let ghost methods = spec_methods_section(*context, *typ);
    match fields_section(context.metadata, typ, lines) {
        Ok(()) => {},
        Err(e) => {
            assert((start + seq![text]) + fields.0 =~= start + (seq![text] + fields.0));
            return Err(e);
        },
    }
    let r = methods_section(context, typ, lines);
    proof {
        assert(((start + seq![text]) + fields.0) + methods.0 =~= start + (seq![text] + (fields.0
            + methods.0)));
    }
    r
}

/// Appends to `lines` the lines of the types `types`, as far as they can
/// be written.
fn types_lines(
    context: &ListingContext<'_>,
    types: &Vec<TypeDefinition<'_>>,
    lines: &mut Vec<String>,
)
    -> (r: Result<(), AotError>)
    ensures
        spec_texts(final(lines)@) == spec_texts(old(lines)@) + spec_types_lines(
            *context,
            types@,
            0,
        ).0,
        spec_ended(r, spec_types_lines(*context, types@, 0).1),
{
    let ghost start = spec_texts(lines@);
    let ghost total = spec_types_lines(*context, types@, 0);
    let ghost added = Seq::<Seq<char>>::empty();
    assert(start + added =~= start);
    assert(added + total.0 =~= total.0);
    let mut i: usize = 0;
    while i < types.len()
        invariant
            i <= types@.len(),
            start == spec_texts(old(lines)@),
            total == spec_types_lines(*context, types@, 0),
            spec_texts(lines@) == start + added,
            spec_after(added, spec_types_lines(*context, types@, i as int)) == total,
        decreases types@.len() - i,
    {
        let ghost more = spec_type_lines(*context, types@[i as int]);
        let ghost rest = spec_types_lines(*context, types@, i + 1);
        let r = type_lines(context, &types[i], lines);
        proof {
            assert(start + (added + more.0) =~= (start + added) + more.0);
            assert((added + more.0) + rest.0 =~= added + (more.0 + rest.0));
            added = added + more.0;
        }
        match r {
            Err(e) => {
                return Err(e);
            },
            Ok(()) => {},
        }
        i = i + 1;
    }
    assert(added + Seq::<Seq<char>>::empty() =~= added);
    Ok(())
}

/// Appends to `lines` the lines of the types of the scope that `handle`
/// points to, as far as they can be written.
fn scope_lines(context: &ListingContext<'_>, handle: ScopeDefinitionHandle, lines: &mut Vec<String>)
    -> (r: Result<(), AotError>)
    ensures
        spec_texts(final(lines)@) == spec_texts(old(lines)@) + spec_scope_lines(
            *context,
            handle,
        ).0,
        spec_ended(r, spec_scope_lines(*context, handle).1),
{
    reveal(spec_scope_lines);
    let ghost start = spec_texts(lines@);
    assert(start + Seq::<Seq<char>>::empty() =~= start);
    match handle.to_data(context.metadata) {
        Err(_) => Ok(()),
        Ok(scope) => {
            match scope.get_all_types() {
                Err(e) => Err(e),
                Ok(types) => types_lines(context, &types, lines),
            }
        },
    }
}

/// Appends to `lines` the lines of the types of the scopes `handles`, as
/// far as they can be written.
fn scopes_lines(
    context: &ListingContext<'_>,
    handles: &Vec<ScopeDefinitionHandle>,
    lines: &mut Vec<String>,
) -> (r: Result<(), AotError>)
    ensures
        spec_texts(final(lines)@) == spec_texts(old(lines)@) + spec_scopes_lines(
            *context,
            handles@,
            0,
        ).0,
        spec_ended(r, spec_scopes_lines(*context, handles@, 0).1),
{
    let ghost start = spec_texts(lines@);
    let ghost total = spec_scopes_lines(*context, handles@, 0);
    let ghost added = Seq::<Seq<char>>::empty();
    assert(start + added =~= start);
    assert(added + total.0 =~= total.0);
    let mut i: usize = 0;
    while i < handles.len()
        invariant
            i <= handles@.len(),
            start == spec_texts(old(lines)@),
            total == spec_scopes_lines(*context, handles@, 0),
            spec_texts(lines@) == start + added,
            spec_after(added, spec_scopes_lines(*context, handles@, i as int)) == total,
        decreases handles@.len() - i,
    {
        let ghost more = spec_scope_lines(*context, handles@[i as int]);
        let ghost rest = spec_scopes_lines(*context, handles@, i + 1);
        let r = scope_lines(context, handles[i], lines);
        proof {
            assert(start + (added + more.0) =~= (start + added) + more.0);
            assert((added + more.0) + rest.0 =~= added + (more.0 + rest.0));
            added = added + more.0;
        }
        match r {
            Err(e) => {
                return Err(e);
            },
            Ok(()) => {},
        }
        i = i + 1;
    }
    assert(added + Seq::<Seq<char>>::empty() =~= added);
    Ok(())
}

/// The listing of all types of the metadata of `context`: for each type a
/// heading with its name and base type, then its fields and its methods.
/// Where something cannot be written, the listing ends there: the lines up
/// to it are returned together with the error.
pub fn get_types(context: &ListingContext<'_>) -> (r: (Vec<String>, Result<(), AotError>))
    ensures
        spec_texts(r.0@) == spec_listing(*context).0,
        spec_ended(r.1, spec_listing(*context).1),
{
    let mut lines: Vec<String> = Vec::new();
    assert(spec_texts(lines@) =~= Seq::<Seq<char>>::empty());
    let handles = match context.metadata.header().scope_definitions().handles() {
        Ok(handles) => handles,
        Err(e) => {
            return (lines, Err(e));
        },
    };
    let outcome = scopes_lines(context, &handles, &mut lines);
    proof {
        let all = spec_scopes_lines(*context, handles@, 0).0;
        assert(Seq::<Seq<char>>::empty() + all =~= all);
    }
    (lines, outcome)
}

} // verus!
