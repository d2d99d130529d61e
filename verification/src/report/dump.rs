use vstd::prelude::*;
use vstd::string::StringExecFns;

use crate::binary::headers::mt::{MethodTable, MethodTableView};
use crate::binary::headers::rtr::{
    spec_find_section, ReadyToRunHeader, ReadyToRunSectionType, ReflectionMapBlob,
};
use crate::binary::scan::{spec_scan, spec_views};
use crate::binary::{NativeAotBinary, ScanError};
use crate::native_format::hashtable::spec_table_header;
use crate::native_format::spec_bytes_at;
use crate::report::assemblies::{
    get_assemblies, spec_assemblies, spec_assembly_views, Assembly, AssemblyView,
};
use crate::embedded_meta::spec_has_metadata_signature;
use crate::ida::HytaleDefinitionView;
use crate::text::spec_texts;
use crate::embedded_meta::collections::spec_behind;
use crate::embedded_meta::handles::{BaseHandle, Handle, MethodHandle, TypeDefinitionHandle};
use crate::embedded_meta::utils::spec_full_name_with_generics;
use crate::embedded_meta::{
    spec_constant_string_value, spec_method, spec_type_definition, MetadataReader,
};
use crate::error::AotError;
use crate::ida::{
    spec_function_name, spec_struct_name, FunctionView, HytaleDefinition, MtStructView,
};
use crate::native_format::hashtable::{
    spec_all_seq, spec_bucket_of, spec_hash_pattern, spec_lookup_seq, spec_low_hash,
    spec_offsets, NativeHashtable,
};
use crate::native_format::parser::NativeParser;
use crate::native_format::reader::{spec_decode_unsigned, spec_signed_32};
use crate::native_format::ref_table::ExternalReferencesTable;
use crate::embedded_meta::flags::spec_has_bit;
use crate::text::{spec_hex, to_hex};

verus! {

/// The blobs that the names of method tables and functions are taken from:
/// the map from types to their metadata, the map of the methods that can be
/// invoked, the table of references that both point through, and the
/// metadata.
pub struct Tables<'a> {
    pub type_map: NativeHashtable<'a>,
    pub invoke_map: NativeHashtable<'a>,
    pub fixups: ExternalReferencesTable<'a>,
    pub metadata: MetadataReader<'a>,
}

/// The hashcode with the bit pattern `pattern`.
pub open spec fn spec_as_signed(pattern: u32) -> i32 {
    spec_signed_32(pattern as int) as i32
}

/// What the type map entry whose payload lies at `payload` says of the
/// method table at `va`: the name of its type, with generic parameters,
/// where the entry refers to that table and to a type definition that can
/// be read; nothing where it refers to something else. The payload holds
/// the index of a reference and a handle.
pub open spec fn spec_entry_type_name(tables: Tables<'_>, payload: int, va: u64) -> Result<
    Option<Seq<char>>,
    AotError,
> {
    let data = tables.type_map.data();
    match spec_decode_unsigned(data, payload) {
        None => Err(AotError::BadImage),
        Some((index, next)) => if tables.fixups.spec_get(index) != Some(va) {
            Ok(None)
        } else {
            match spec_decode_unsigned(data, next) {
                None => Err(AotError::BadImage),
                Some((raw, _)) => match TypeDefinitionHandle::spec_from_value(raw) {
                    Err(_) => Ok(None),
                    Ok(handle) => match spec_type_definition(tables.metadata, handle) {
                        Err(_) => Ok(None),
                        Ok(definition) => match spec_full_name_with_generics(definition) {
                            Err(e) => Err(e),
                            Ok(name) => Ok(Some(name)),
                        },
                    },
                },
            }
        },
    }
}

/// What the first of the type map entries at `payloads`, from the `from`-th
/// on, that says anything says of the method table at `va`.
pub open spec fn spec_first_type_name(
    tables: Tables<'_>,
    payloads: Seq<int>,
    from: int,
    va: u64,
) -> Result<Option<Seq<char>>, AotError>
    decreases payloads.len() - from,
{
    if from < 0 || from >= payloads.len() {
        Ok(None)
    } else {
        match spec_entry_type_name(tables, payloads[from], va) {
            Err(e) => Err(e),
            Ok(Some(name)) => Ok(Some(name)),
            Ok(None) => spec_first_type_name(tables, payloads, from + 1, va),
        }
    }
}

/// The name that the type map gives to the type of the method table at `va`
/// with the hashcode `hashcode`: `None` where the bucket of the hashcode
/// cannot be located and where none of its entries says anything.
pub open spec fn spec_mapped_type_name(tables: Tables<'_>, hashcode: u32, va: u64) -> Result<
    Option<Seq<char>>,
    AotError,
> {
    let signed = spec_as_signed(hashcode);
    match tables.type_map.bounds(spec_bucket_of(signed, tables.type_map.mask())) {
        None => Ok(None),
        Some((start, end)) => spec_first_type_name(
            tables,
            spec_lookup_seq(tables.type_map.data(), start, end, spec_low_hash(signed)),
            0,
            va,
        ),
    }
}

/// The name under which a method table is handed on: the name of its type
/// and `_vtbl`, or, where the type map knows no name, the name of its
/// element type, its address in hexadecimal digits, and `_vtbl`.
pub open spec fn spec_table_name(tables: Tables<'_>, table: MethodTableView) -> Result<
    Seq<char>,
    AotError,
> {
    match spec_mapped_type_name(tables, table.hashcode, table.va) {
        Err(e) => Err(e),
        Ok(Some(name)) => Ok(name + "_vtbl"@),
        Ok(None) => Ok(
            table.element_type.spec_name() + "_"@ + spec_hex(table.va as nat) + "_vtbl"@,
        ),
    }
}

/// What is handed on of a method table with the name `name`.
pub open spec fn spec_struct_of(table: MethodTableView, name: Seq<char>) -> MtStructView {
    MtStructView {
        name: spec_struct_name(name),
        vtables: (table.vtable_addresses.len() % 0x1_0000) as u16,
        ifaces: (table.iface_addresses.len() % 0x1_0000) as u16,
        address: table.va,
    }
}

/// What is handed on of the method tables `method_tables` from the `from`-th
/// on.
pub open spec fn spec_structs(tables: Tables<'_>, method_tables: Seq<MethodTableView>, from: int)
    -> Result<Seq<MtStructView>, AotError>
    decreases method_tables.len() - from,
{
    if from < 0 || from >= method_tables.len() {
        Ok(Seq::empty())
    } else {
        match spec_table_name(tables, method_tables[from]) {
            Err(e) => Err(e),
            Ok(name) => spec_behind(
                seq![spec_struct_of(method_tables[from], name)],
                spec_structs(tables, method_tables, from + 1),
            ),
        }
    }
}

/// The first of `method_tables` from the `from`-th on that lies at `va`.
pub open spec fn spec_table_at(method_tables: Seq<MethodTableView>, va: u64, from: int) -> Option<
    MethodTableView,
>
    decreases method_tables.len() - from,
{
    if from < 0 || from >= method_tables.len() {
        None
    } else if method_tables[from].va == va {
        Some(method_tables[from])
    } else {
        spec_table_at(method_tables, va, from + 1)
    }
}

/// The bits of the handle of the method whose record lies at `offset`.
pub open spec fn spec_method_handle_bits(offset: u32) -> u32 {
    0x5000_0000u32 | offset
}

/// The method table of the type that an invoke map entry belongs to: the
/// one at the address that the reference `index` leads to.
pub open spec fn spec_entry_table(
    tables: Tables<'_>,
    method_tables: Seq<MethodTableView>,
    index: u32,
) -> Option<MethodTableView> {
    match tables.fixups.spec_get(index) {
        None => None,
        Some(va) => spec_table_at(method_tables, va, 0),
    }
}

/// What the invoke map entry whose payload lies at `payload` hands on: the
/// function at the entry point of the method, under the name of the type, a
/// dot, and the name of the method. The payload holds flags, the offset of
/// the method's record, the index of the reference to the method table of
/// the type, and the index of the reference to the entry point. Nothing is
/// handed on where the method cannot be read, where the method table is not
/// among `method_tables`, where the bit 32 of the flags is not set, where
/// the type map knows no name for the type, and where the reference to the
/// entry point leads nowhere.
pub open spec fn spec_invoke_entry(
    tables: Tables<'_>,
    method_tables: Seq<MethodTableView>,
    payload: int,
) -> Result<Option<FunctionView>, AotError> {
    let data = tables.invoke_map.data();
    match spec_decode_unsigned(data, payload) {
        None => Err(AotError::BadImage),
        Some((flags, second)) => match spec_decode_unsigned(data, second) {
            None => Err(AotError::BadImage),
            Some((offset, third)) => match MethodHandle::spec_from_value(
                spec_method_handle_bits(offset),
            ) {
                Err(e) => Err(e),
                Ok(handle) => match spec_method(tables.metadata, handle) {
                    Err(_) => Ok(None),
                    Ok(method) => match spec_decode_unsigned(data, third) {
                        None => Err(AotError::BadImage),
                        Some((type_index, fourth)) => match spec_entry_table(
                            tables,
                            method_tables,
                            type_index,
                        ) {
                            None => Ok(None),
                            Some(table) => if !spec_has_bit(flags, 32) {
                                Ok(None)
                            } else {
                                match spec_mapped_type_name(tables, table.hashcode, table.va) {
                                    Err(e) => Err(e),
                                    Ok(None) => Ok(None),
                                    Ok(Some(owner)) => match spec_decode_unsigned(data, fourth) {
                                        None => Err(AotError::BadImage),
                                        Some((entry_index, _)) => match tables.fixups.spec_get(
                                            entry_index,
                                        ) {
                                            None => Ok(None),
                                            Some(entry) => match spec_constant_string_value(
                                                tables.metadata,
                                                method.name,
                                            ) {
                                                Err(e) => Err(e),
                                                Ok(name) => Ok(
                                                    Some(
                                                        FunctionView {
                                                            name: spec_function_name(
                                                                owner + "."@ + name,
                                                            ),
                                                            address: entry,
                                                        },
                                                    ),
                                                ),
                                            },
                                        },
                                    },
                                }
                            },
                        },
                    },
                },
            },
        },
    }
}

/// What the invoke map entries at `payloads`, from the `from`-th on, hand
/// on.
pub open spec fn spec_functions(
    tables: Tables<'_>,
    method_tables: Seq<MethodTableView>,
    payloads: Seq<int>,
    from: int,
) -> Result<Seq<FunctionView>, AotError>
    decreases payloads.len() - from,
{
    if from < 0 || from >= payloads.len() {
        Ok(Seq::empty())
    } else {
        match spec_invoke_entry(tables, method_tables, payloads[from]) {
            Err(e) => Err(e),
            Ok(Some(function)) => spec_behind(
                seq![function],
                spec_functions(tables, method_tables, payloads, from + 1),
            ),
            Ok(None) => spec_functions(tables, method_tables, payloads, from + 1),
        }
    }
}

/// The payloads of all entries of the invoke map: `None` where its first
/// bucket cannot be located.
pub open spec fn spec_invoke_payloads(tables: Tables<'_>) -> Option<Seq<int>> {
    match tables.invoke_map.bounds(0) {
        None => None,
        Some((start, end)) => Some(
            spec_all_seq(
                tables.invoke_map.data(),
                tables.invoke_map.base(),
                tables.invoke_map.index_size(),
                tables.invoke_map.mask(),
                0,
                start,
                end,
            ),
        ),
    }
}

/// The hashcode with the bit pattern `pattern`.
fn as_signed(pattern: u32) -> (hashcode: i32)
    ensures
        hashcode == spec_as_signed(pattern),
        spec_hash_pattern(hashcode) == pattern,
{
    if pattern < 0x8000_0000 {
        pattern as i32
    } else {
        (pattern - 0x8000_0000) as i32 + i32::MIN
    }
}

/// What the type map entry at which `parser` stands says of the method
/// table at `va`.
fn entry_type_name(tables: &Tables<'_>, parser: NativeParser<'_>, va: u64) -> (r: Result<
    Option<String>,
    AotError,
>)
    requires
        parser.reader@ == tables.type_map.data(),
    ensures
        match spec_entry_type_name(*tables, parser.offset as int, va) {
            Err(e) => r is Err && r->Err_0 == e,
            Ok(Some(name)) => r is Ok && r->Ok_0 is Some && r->Ok_0->Some_0@ == name,
            Ok(None) => r is Ok && r->Ok_0 is None,
        },
{
    let mut parser = parser;
    let index = parser.get_unsigned()?;
    match tables.fixups.get_va_from_index(index) {
        None => {
            return Ok(None);
        },
        Some(target) => {
            if target != va {
                return Ok(None);
            }
        },
    }
    let raw = parser.get_unsigned()?;
    let handle = match BaseHandle::from_raw(raw).to_handle::<TypeDefinitionHandle>() {
        Ok(handle) => handle,
        Err(_) => {
            return Ok(None);
        },
    };
    let definition = match handle.to_data(tables.metadata) {
        Ok(definition) => definition,
        Err(_) => {
            return Ok(None);
        },
    };
    let name = definition.get_full_name_with_generics()?;
    Ok(Some(name))
}

/// The entries of the type map for the hashcode `hashcode`, as parsers at
/// their payloads.
fn type_map_entries<'a>(tables: &Tables<'a>, hashcode: u32) -> (r: Option<Vec<NativeParser<'a>>>)
    ensures
        match tables.type_map.bounds(
            spec_bucket_of(spec_as_signed(hashcode), tables.type_map.mask()),
        ) {
            None => r is None,
            Some((start, end)) => r is Some && spec_offsets(r->Some_0@) == spec_lookup_seq(
                tables.type_map.data(),
                start,
                end,
                spec_low_hash(spec_as_signed(hashcode)),
            ) && forall|k: int|
                0 <= k < r->Some_0@.len() ==> (#[trigger] r->Some_0@[k]).reader@
                    == tables.type_map.data(),
        },
{
    match tables.type_map.lookup(as_signed(hashcode)) {
        Ok(lookup) => Some(lookup.collect()),
        Err(_) => None,
    }
}

/// What the first of the type map entries `entries` that says anything says
/// of the method table at `va`.
fn first_type_name(tables: &Tables<'_>, entries: &Vec<NativeParser<'_>>, va: u64) -> (r: Result<
    Option<String>,
    AotError,
>)
    requires
        forall|k: int|
            0 <= k < entries@.len() ==> (#[trigger] entries@[k]).reader@
                == tables.type_map.data(),
    ensures
        match spec_first_type_name(*tables, spec_offsets(entries@), 0, va) {
            Err(e) => r is Err && r->Err_0 == e,
            Ok(Some(name)) => r is Ok && r->Ok_0 is Some && r->Ok_0->Some_0@ == name,
            Ok(None) => r is Ok && r->Ok_0 is None,
        },
{
    let ghost payloads = spec_offsets(entries@);
    let mut i: usize = 0;
    while i < entries.len()
        invariant
            i <= entries@.len(),
            payloads == spec_offsets(entries@),
            forall|k: int|
                0 <= k < entries@.len() ==> (#[trigger] entries@[k]).reader@
                    == tables.type_map.data(),
            spec_first_type_name(*tables, payloads, i as int, va) == spec_first_type_name(
                *tables,
                payloads,
                0,
                va,
            ),
        decreases entries@.len() - i,
    {
        assert(payloads[i as int] == entries@[i as int].offset);
        match entry_type_name(tables, entries[i], va) {
            Err(e) => {
                return Err(e);
            },
            Ok(Some(name)) => {
                return Ok(Some(name));
            },
            Ok(None) => {},
        }
        i = i + 1;
    }
    Ok(None)
}

/// The name that the type map gives to the type of the method table at `va`
/// with the hashcode `hashcode`.
pub fn mapped_type_name(tables: &Tables<'_>, hashcode: u32, va: u64) -> (r: Result<
    Option<String>,
    AotError,
>)
    ensures
        match spec_mapped_type_name(*tables, hashcode, va) {
            Err(e) => r is Err && r->Err_0 == e,
            Ok(Some(name)) => r is Ok && r->Ok_0 is Some && r->Ok_0->Some_0@ == name,
            Ok(None) => r is Ok && r->Ok_0 is None,
        },
{
    match type_map_entries(tables, hashcode) {
        Some(entries) => first_type_name(tables, &entries, va),
        None => Ok(None),
    }
}

/// The name under which `table` is handed on.
pub fn table_name(tables: &Tables<'_>, table: &MethodTable) -> (r: Result<String, AotError>)
    ensures
        match spec_table_name(*tables, table@) {
            Err(e) => r is Err && r->Err_0 == e,
            Ok(name) => r is Ok && r->Ok_0@ == name,
        },
{
    match mapped_type_name(tables, table.hashcode, table.va)? {
        Some(name) => {
            let mut name = name;
            name.append("_vtbl");
            Ok(name)
        },
        None => {
            let mut name = String::from_str(table.element_type.name());
            name.append("_");
            name.append(to_hex(table.va).as_str());
            name.append("_vtbl");
            Ok(name)
        },
    }
}

/// The first of `method_tables` that lies at `va`.
fn table_at<'t>(method_tables: &'t Vec<MethodTable>, va: u64) -> (r: Option<&'t MethodTable>)
    ensures
        match spec_table_at(spec_views(method_tables@), va, 0) {
            Some(table) => r is Some && r->Some_0@ == table,
            None => r is None,
        },
{
    let mut i: usize = 0;
    while i < method_tables.len()
        invariant
            i <= method_tables@.len(),
            spec_table_at(spec_views(method_tables@), va, i as int) == spec_table_at(
                spec_views(method_tables@),
                va,
                0,
            ),
        decreases method_tables@.len() - i,
    {
        assert(spec_views(method_tables@)[i as int] == method_tables@[i as int]@);
        if method_tables[i].va == va {
            return Some(&method_tables[i]);
        }
        i = i + 1;
    }
    None
}

/// What the invoke map entry at which `parser` stands hands on: the address
/// of a function and its name, not yet flattened.
fn invoke_entry(tables: &Tables<'_>, method_tables: &Vec<MethodTable>, parser: NativeParser<'_>)
    -> (r: Result<Option<(u64, String)>, AotError>)
    requires
        parser.reader@ == tables.invoke_map.data(),
    ensures
        match spec_invoke_entry(*tables, spec_views(method_tables@), parser.offset as int) {
            Err(e) => r is Err && r->Err_0 == e,
            Ok(Some(function)) => r is Ok && r->Ok_0 is Some && function.address
                == r->Ok_0->Some_0.0 && function.name == spec_function_name(
                r->Ok_0->Some_0.1@,
            ),
            Ok(None) => r is Ok && r->Ok_0 is None,
        },
{
    let mut parser = parser;
    let flags = parser.get_unsigned()?;
    let offset = parser.get_unsigned()?;
    let handle = BaseHandle::from_raw(0x5000_0000u32 | offset).to_handle::<MethodHandle>()?;
    let method = match handle.to_data(tables.metadata) {
        Ok(method) => method,
        Err(_) => {
            return Ok(None);
        },
    };
    let type_index = parser.get_unsigned()?;
    let table = match tables.fixups.get_va_from_index(type_index) {
        None => {
            return Ok(None);
        },
        Some(va) => match table_at(method_tables, va) {
            Some(table) => table,
            None => {
                return Ok(None);
            },
        },
    };
    assert((flags & 32 != 0) == ((flags / 32) % 2 == 1)) by (bit_vector);
    if flags & 32 == 0 {
        return Ok(None);
    }
    let owner = match mapped_type_name(tables, table.hashcode, table.va)? {
        Some(owner) => owner,
        None => {
            return Ok(None);
        },
    };
    let entry_index = parser.get_unsigned()?;
    let entry = match tables.fixups.get_va_from_index(entry_index) {
        Some(entry) => entry,
        None => {
            return Ok(None);
        },
    };
    let name = method.name.to_data(tables.metadata)?;
    let mut full = owner;
    full.append(".");
    full.append(name.value.as_str());
    Ok(Some((entry, full)))
}

/// Hands on every method table of `method_tables` under its name.
pub fn name_method_tables(
    tables: &Tables<'_>,
    method_tables: &Vec<MethodTable>,
    definition: &mut HytaleDefinition,
) -> (r: Result<(), AotError>)
    ensures
        match spec_structs(*tables, spec_views(method_tables@), 0) {
            Err(e) => r is Err && r->Err_0 == e,
            Ok(structs) => r is Ok && final(definition)@.mt_structs == old(definition)@.mt_structs
                + structs && final(definition)@.functions == old(definition)@.functions,
        },
{
    let ghost views = spec_views(method_tables@);
    let ghost start = definition@.mt_structs;
    let ghost total = spec_structs(*tables, views, 0);
    let mut i: usize = 0;
    assert(spec_behind(Seq::<MtStructView>::empty(), total) =~= total) by {
        if total is Ok {
            assert(Seq::<MtStructView>::empty() + total->Ok_0 =~= total->Ok_0);
        }
    }
    let ghost added = Seq::<MtStructView>::empty();
    assert(start + added =~= start);
    while i < method_tables.len()
        invariant
            i <= method_tables@.len(),
            views == spec_views(method_tables@),
            start == old(definition)@.mt_structs,
            total == spec_structs(*tables, views, 0),
            definition@.functions == old(definition)@.functions,
            definition@.mt_structs == start + added,
            spec_behind(added, spec_structs(*tables, views, i as int)) == total,
        decreases method_tables@.len() - i,
    {
        let table = &method_tables[i];
        assert(views[i as int] == table@);
        let name = table_name(tables, table)?;
        definition.create_mt_struct(
            table.va,
            name.as_str(),
            (table.vtable_addresses.len() % 0x1_0000) as u16,
            (table.iface_addresses.len() % 0x1_0000) as u16,
        );
        proof {
            let one = spec_struct_of(table@, name@);
            let rest = spec_structs(*tables, views, i + 1);
            if rest is Ok {
                assert(added.push(one) + rest->Ok_0 =~= added + (seq![one] + rest->Ok_0));
            }
            assert(start + added.push(one) =~= (start + added).push(one));
            added = added.push(one);
        }
        i = i + 1;
    }
    assert(added + Seq::<MtStructView>::empty() =~= added);
    Ok(())
}

/// Hands on every function that the invoke map knows an entry point and a
/// name of.
pub fn name_functions(
    tables: &Tables<'_>,
    method_tables: &Vec<MethodTable>,
    definition: &mut HytaleDefinition,
) -> (r: Result<(), AotError>)
    ensures
        match spec_invoke_payloads(*tables) {
            None => r is Err && r->Err_0 == AotError::BadImage,
            Some(payloads) => match spec_functions(
                *tables,
                spec_views(method_tables@),
                payloads,
                0,
            ) {
                Err(e) => r is Err && r->Err_0 == e,
                Ok(functions) => r is Ok
                    && final(definition)@.functions == old(definition)@.functions + functions
                    && final(definition)@.mt_structs == old(definition)@.mt_structs,
            },
        },
{
    let entries = tables.invoke_map.enumerate_all()?.collect();
    let ghost payloads = spec_offsets(entries@);
    let ghost views = spec_views(method_tables@);
    let ghost start = definition@.functions;
    let ghost total = spec_functions(*tables, views, payloads, 0);
    let mut i: usize = 0;
    assert(spec_behind(Seq::<FunctionView>::empty(), total) =~= total) by {
        if total is Ok {
            assert(Seq::<FunctionView>::empty() + total->Ok_0 =~= total->Ok_0);
        }
    }
    let ghost added = Seq::<FunctionView>::empty();
    assert(start + added =~= start);
    while i < entries.len()
        invariant
            i <= entries@.len(),
            payloads == spec_offsets(entries@),
            spec_invoke_payloads(*tables) == Some(payloads),
            views == spec_views(method_tables@),
            start == old(definition)@.functions,
            total == spec_functions(*tables, views, payloads, 0),
            forall|k: int|
                0 <= k < entries@.len() ==> (#[trigger] entries@[k]).reader@
                    == tables.invoke_map.data(),
            definition@.mt_structs == old(definition)@.mt_structs,
            definition@.functions == start + added,
            spec_behind(added, spec_functions(*tables, views, payloads, i as int)) == total,
        decreases entries@.len() - i,
    {
        assert(payloads[i as int] == entries@[i as int].offset);
        match invoke_entry(tables, method_tables, entries[i])? {
            Some((address, name)) => {
                definition.create_function(address, name.as_str());
                proof {
                    let one = FunctionView { name: spec_function_name(name@), address };
                    let rest = spec_functions(*tables, views, payloads, i + 1);
                    if rest is Ok {
                        assert(added.push(one) + rest->Ok_0 =~= added + (seq![one]
                            + rest->Ok_0));
                    }
                    assert(start + added.push(one) =~= (start + added).push(one));
                    added = added.push(one);
                }
            },
            None => {},
        }
        i = i + 1;
    }
    assert(added + Seq::<FunctionView>::empty() =~= added);
    Ok(())
}

// ---------------------------------------------------------------------------
// The whole dump
// ---------------------------------------------------------------------------

/// Why nothing can be handed to a disassembler.
#[derive(Clone, Copy, Debug, PartialEq, Eq, Structural)]
pub enum DumpError {
    /// The image has no metadata blob that can be read.
    MissingMetadata,
    /// The scopes of the metadata cannot be listed.
    ScopesUnreadable,
    /// The image lacks the required assembly with this index.
    MissingAssembly(usize),
    /// The image has no table of common fixups.
    MissingFixups,
    /// The image has no type map that can be read.
    MissingTypeMap,
    /// The image has no invoke map that can be read.
    MissingInvokeMap,
    /// The method tables cannot be scanned.
    Scan(ScanError),
    /// A blob is malformed.
    Image(AotError),
}

/// Whether `table` is the hashtable that the blob `blob` of `header` starts
/// with.
pub open spec fn spec_is_blob_table(
    header: ReadyToRunHeader<'_>,
    blob: ReflectionMapBlob,
    table: NativeHashtable<'_>,
) -> bool {
    match spec_find_section(header.sections@, ReadyToRunSectionType::ReflectionMapBlob(blob), 0) {
        None => false,
        Some(index) => match spec_bytes_at(
            header.sections@[index].start.pe,
            header.sections@[index].start.spec_va(),
        ) {
            None => false,
            Some(bytes) => bytes.len() < 0x4000_0000 && match spec_table_header(bytes, 0) {
                None => false,
                Some((base, mask, index_size)) => table.data() == bytes && table.base() == base
                    && table.mask() == mask && table.index_size() == index_size,
            },
        },
    }
}

/// Whether the blob `blob` of `header` starts with a hashtable.
pub open spec fn spec_has_blob_table(header: ReadyToRunHeader<'_>, blob: ReflectionMapBlob)
    -> bool {
    match spec_find_section(header.sections@, ReadyToRunSectionType::ReflectionMapBlob(blob), 0) {
        None => false,
        Some(index) => match spec_bytes_at(
            header.sections@[index].start.pe,
            header.sections@[index].start.spec_va(),
        ) {
            None => false,
            Some(bytes) => bytes.len() < 0x4000_0000 && spec_table_header(bytes, 0) is Some,
        },
    }
}

/// Whether `reader` reads the metadata blob of `header`.
pub open spec fn spec_is_metadata(header: ReadyToRunHeader<'_>, reader: MetadataReader<'_>)
    -> bool {
    match spec_find_section(
        header.sections@,
        ReadyToRunSectionType::ReflectionMapBlob(ReflectionMapBlob::EmbeddedMetadata),
        0,
    ) {
        None => false,
        Some(index) => match spec_bytes_at(
            header.sections@[index].start.pe,
            header.sections@[index].start.spec_va(),
        ) {
            None => false,
            Some(bytes) => bytes.len() < 0x4000_0000 && spec_has_metadata_signature(bytes)
                && reader.stream_reader@ == bytes && reader.header.reader == reader.stream_reader
                && reader.header.scope_definitions.reader == reader.stream_reader
                && reader.header.scope_definitions.offset == 4,
        },
    }
}

/// Whether `header` has a metadata blob that can be read.
pub open spec fn spec_has_metadata(header: ReadyToRunHeader<'_>) -> bool {
    match spec_find_section(
        header.sections@,
        ReadyToRunSectionType::ReflectionMapBlob(ReflectionMapBlob::EmbeddedMetadata),
        0,
    ) {
        None => false,
        Some(index) => match spec_bytes_at(
            header.sections@[index].start.pe,
            header.sections@[index].start.spec_va(),
        ) {
            None => false,
            Some(bytes) => bytes.len() < 0x4000_0000 && spec_has_metadata_signature(bytes),
        },
    }
}

/// Whether `table` is the table of common fixups of `header`.
pub open spec fn spec_is_fixups(header: ReadyToRunHeader<'_>, table: ExternalReferencesTable<'_>)
    -> bool {
    match spec_find_section(
        header.sections@,
        ReadyToRunSectionType::ReflectionMapBlob(ReflectionMapBlob::CommonFixupsTable),
        0,
    ) {
        None => false,
        Some(index) => {
            let section = header.sections@[index];
            section.end.spec_va() >= section.start.spec_va() && table.pe() == section.start.pe
                && table.base() == section.start.spec_base() && table.count() == (
            section.end.spec_va() - section.start.spec_va()) / 4
        },
    }
}

/// Whether `header` has a table of common fixups.
pub open spec fn spec_has_fixups(header: ReadyToRunHeader<'_>) -> bool {
    match spec_find_section(
        header.sections@,
        ReadyToRunSectionType::ReflectionMapBlob(ReflectionMapBlob::CommonFixupsTable),
        0,
    ) {
        None => false,
        Some(index) => header.sections@[index].end.spec_va()
            >= header.sections@[index].start.spec_va(),
    }
}

/// Whether `tables` are the blobs of `header`.
pub open spec fn spec_gathered(header: ReadyToRunHeader<'_>, tables: Tables<'_>) -> bool {
    &&& spec_is_metadata(header, tables.metadata)
    &&& spec_is_fixups(header, tables.fixups)
    &&& spec_is_blob_table(header, ReflectionMapBlob::TypeMap, tables.type_map)
    &&& spec_is_blob_table(header, ReflectionMapBlob::InvokeMap, tables.invoke_map)
}

/// Whether one of `names` is `name`.
pub open spec fn spec_has_name(names: Seq<AssemblyView>, name: Seq<char>) -> bool {
    exists|i: int| 0 <= i < names.len() && (#[trigger] names[i]).name == name
}

/// The index of the first of `required` from the `from`-th on that is the
/// name of none of `assemblies`.
pub open spec fn spec_first_missing(
    assemblies: Seq<AssemblyView>,
    required: Seq<Seq<char>>,
    from: int,
) -> Option<int>
    decreases required.len() - from,
{
    if from < 0 || from >= required.len() {
        None
    } else if !spec_has_name(assemblies, required[from]) {
        Some(from)
    } else {
        spec_first_missing(assemblies, required, from + 1)
    }
}

/// What is handed on of the method tables `method_tables` with `tables`: the
/// method tables under their names, then the functions of the invoke map.
pub open spec fn spec_definition(tables: Tables<'_>, method_tables: Seq<MethodTableView>)
    -> Result<HytaleDefinitionView, AotError> {
    match spec_structs(tables, method_tables, 0) {
        Err(e) => Err(e),
        Ok(mt_structs) => match spec_invoke_payloads(tables) {
            None => Err(AotError::BadImage),
            Some(payloads) => match spec_functions(tables, method_tables, payloads, 0) {
                Err(e) => Err(e),
                Ok(functions) => Ok(HytaleDefinitionView { mt_structs, functions }),
            },
        },
    }
}

/// Whether one of `assemblies` is called `name`.
fn has_name(assemblies: &Vec<Assembly>, name: &String) -> (found: bool)
    ensures
        found == spec_has_name(spec_assembly_views(assemblies@), name@),
{
    let mut i: usize = 0;
    while i < assemblies.len()
        invariant
            i <= assemblies@.len(),
            forall|k: int|
                0 <= k < i ==> (#[trigger] spec_assembly_views(assemblies@)[k]).name != name@,
        decreases assemblies@.len() - i,
    {
        assert(spec_assembly_views(assemblies@)[i as int] == assemblies@[i as int]@);
        if assemblies[i].name == *name {
            return true;
        }
        i = i + 1;
    }
    false
}

/// Checks that every one of `required` is the name of one of `assemblies`.
pub fn check_assemblies(assemblies: &Vec<Assembly>, required: &Vec<String>) -> (r: Result<
    (),
    DumpError,
>)
    ensures
        match spec_first_missing(spec_assembly_views(assemblies@), spec_texts(required@), 0) {
            Some(index) => r == Err::<(), DumpError>(DumpError::MissingAssembly(index as usize)),
            None => r == Ok::<(), DumpError>(()),
        },
{
    let mut i: usize = 0;
    while i < required.len()
        invariant
            i <= required@.len(),
            spec_first_missing(
                spec_assembly_views(assemblies@),
                spec_texts(required@),
                i as int,
            ) == spec_first_missing(spec_assembly_views(assemblies@), spec_texts(required@), 0),
        decreases required@.len() - i,
    {
        assert(spec_texts(required@)[i as int] == required@[i as int]@);
        if !has_name(assemblies, &required[i]) {
            return Err(DumpError::MissingAssembly(i));
        }
        i = i + 1;
    }
    Ok(())
}

/// What the check of the metadata `metadata` for the assemblies `required`
/// gives: the scopes must be listed, and every required assembly must be
/// among them.
pub open spec fn spec_check_required(metadata: MetadataReader<'_>, required: Seq<Seq<char>>)
    -> Result<(), DumpError> {
    match spec_assemblies(metadata) {
        Err(_) => Err(DumpError::ScopesUnreadable),
        Ok(assemblies) => match spec_first_missing(assemblies, required, 0) {
            Some(index) => Err(DumpError::MissingAssembly(index as usize)),
            None => Ok(()),
        },
    }
}

/// What the scan of `binary` and the naming with `tables` give.
pub open spec fn spec_outcome(binary: NativeAotBinary<'_>, tables: Tables<'_>) -> Result<
    HytaleDefinitionView,
    DumpError,
> {
    match spec_scan(binary.pe) {
        Err(e) => Err(DumpError::Scan(e)),
        Ok(method_tables) => match spec_definition(tables, method_tables) {
            Err(e) => Err(DumpError::Image(e)),
            Ok(definition) => Ok(definition),
        },
    }
}

/// Whether the check of the metadata of `binary` for the assemblies
/// `required` fails with `error`.
pub open spec fn spec_check_fails(
    binary: NativeAotBinary<'_>,
    required: Seq<Seq<char>>,
    error: DumpError,
) -> bool {
    exists|metadata: MetadataReader<'_>| #[trigger]
        spec_is_metadata(binary.rtr, metadata) && spec_check_required(metadata, required) == Err::<
            (),
            DumpError,
        >(error)
}

/// Whether the blobs of `binary` hold every assembly of `required`, and the
/// scan of `binary` and the naming with its blobs give `outcome`.
pub open spec fn spec_dumps_to(
    binary: NativeAotBinary<'_>,
    required: Seq<Seq<char>>,
    outcome: Result<HytaleDefinitionView, DumpError>,
) -> bool {
    exists|tables: Tables<'_>| #[trigger]
        spec_gathered(binary.rtr, tables) && spec_check_required(tables.metadata, required) is Ok
            && spec_outcome(binary, tables) == outcome
}

proof fn lemma_check_fails(
    binary: NativeAotBinary<'_>,
    metadata: MetadataReader<'_>,
    required: Seq<Seq<char>>,
    error: DumpError,
)
    requires
        spec_is_metadata(binary.rtr, metadata),
        spec_check_required(metadata, required) == Err::<(), DumpError>(error),
    ensures
        spec_check_fails(binary, required, error),
{
}

proof fn lemma_dumps_to(
    binary: NativeAotBinary<'_>,
    tables: Tables<'_>,
    required: Seq<Seq<char>>,
    outcome: Result<HytaleDefinitionView, DumpError>,
)
    requires
        spec_gathered(binary.rtr, tables),
        spec_check_required(tables.metadata, required) is Ok,
        spec_outcome(binary, tables) == outcome,
    ensures
        spec_dumps_to(binary, required, outcome),
{
}

/// The metadata of `binary`.
pub fn metadata_of<'a>(binary: &NativeAotBinary<'a>) -> (r: Option<MetadataReader<'a>>)
    ensures
        match r {
            Some(metadata) => spec_is_metadata(binary.rtr, metadata),
            None => !spec_has_metadata(binary.rtr),
        },
{
    binary.rtr_header().metadata()
}

/// Checks that the metadata holds every assembly of `required`.
pub fn check_required(metadata: MetadataReader<'_>, required: &Vec<String>) -> (r: Result<
    (),
    DumpError,
>)
    ensures
        r == spec_check_required(metadata, spec_texts(required@)),
        r matches Err(DumpError::MissingAssembly(index)) ==> index < required@.len(),
{
    let assemblies = match get_assemblies(metadata) {
        Ok(assemblies) => assemblies,
        Err(_) => {
            return Err(DumpError::ScopesUnreadable);
        },
    };
    proof {
        lemma_first_missing_in_range(spec_assembly_views(assemblies@), spec_texts(required@), 0);
    }
    check_assemblies(&assemblies, required)
}

impl<'a> Tables<'a> {
    /// The blobs of `binary` that names are taken from, with `metadata` as
    /// its metadata: the table of common fixups, the type map and the
    /// invoke map, which are looked for in this order.
    pub fn gather(binary: &NativeAotBinary<'a>, metadata: MetadataReader<'a>) -> (r: Result<
        Self,
        DumpError,
    >)
        ensures
            match r {
                Ok(tables) => tables.metadata == metadata && spec_is_fixups(
                    binary.rtr,
                    tables.fixups,
                ) && spec_is_blob_table(binary.rtr, ReflectionMapBlob::TypeMap, tables.type_map)
                    && spec_is_blob_table(
                    binary.rtr,
                    ReflectionMapBlob::InvokeMap,
                    tables.invoke_map,
                ),
                Err(DumpError::MissingFixups) => !spec_has_fixups(binary.rtr),
                Err(DumpError::MissingTypeMap) => spec_has_fixups(binary.rtr)
                    && !spec_has_blob_table(binary.rtr, ReflectionMapBlob::TypeMap),
                Err(DumpError::MissingInvokeMap) => spec_has_fixups(binary.rtr)
                    && spec_has_blob_table(binary.rtr, ReflectionMapBlob::TypeMap)
                    && !spec_has_blob_table(binary.rtr, ReflectionMapBlob::InvokeMap),
                Err(_) => false,
            },
    {
        let fixups = match Self::fixups_of(binary) {
            Some(fixups) => fixups,
            None => {
                return Err(DumpError::MissingFixups);
            },
        };
        let type_map = match Self::table_of(binary, ReflectionMapBlob::TypeMap) {
            Some(type_map) => type_map,
            None => {
                return Err(DumpError::MissingTypeMap);
            },
        };
        let invoke_map = match Self::table_of(binary, ReflectionMapBlob::InvokeMap) {
            Some(invoke_map) => invoke_map,
            None => {
                return Err(DumpError::MissingInvokeMap);
            },
        };
        Ok(Tables { type_map, invoke_map, fixups, metadata })
    }

    /// The table of common fixups of `binary`.
    fn fixups_of(binary: &NativeAotBinary<'a>) -> (r: Option<ExternalReferencesTable<'a>>)
        ensures
            match r {
                Some(fixups) => spec_is_fixups(binary.rtr, fixups) && spec_has_fixups(binary.rtr),
                None => !spec_has_fixups(binary.rtr),
            },
    {
        binary.rtr_header().common_fixups_table()
    }

    /// The hashtable that the blob `blob` of `binary` starts with.
    fn table_of(binary: &NativeAotBinary<'a>, blob: ReflectionMapBlob) -> (r: Option<
        NativeHashtable<'a>,
    >)
        ensures
            match r {
                Some(table) => spec_is_blob_table(binary.rtr, blob, table) && spec_has_blob_table(
                    binary.rtr,
                    blob,
                ),
                None => !spec_has_blob_table(binary.rtr, blob),
            },
    {
        binary.rtr_header().blob_hashtable(blob)
    }
}

/// What is handed on of the method tables `method_tables` with `tables`.
pub fn dump_with(tables: &Tables<'_>, method_tables: &Vec<MethodTable>) -> (r: Result<
    HytaleDefinition,
    AotError,
>)
    ensures
        match spec_definition(*tables, spec_views(method_tables@)) {
            Err(e) => r is Err && r->Err_0 == e,
            Ok(definition) => r is Ok && r->Ok_0@ == definition,
        },
{
    let mut definition = HytaleDefinition::new();
    name_method_tables(tables, method_tables, &mut definition)?;
    name_functions(tables, method_tables, &mut definition)?;
    proof {
        let wanted = spec_definition(*tables, spec_views(method_tables@))->Ok_0;
        assert(definition@.mt_structs =~= wanted.mt_structs);
        assert(definition@.functions =~= wanted.functions);
    }
    Ok(definition)
}

/// The method tables of `binary` and the functions of its invoke map under
/// the names that `tables` give them.
pub fn dump(binary: &NativeAotBinary<'_>, tables: &Tables<'_>) -> (r: Result<
    HytaleDefinition,
    DumpError,
>)
    ensures
        match spec_outcome(*binary, *tables) {
            Ok(definition) => r is Ok && r->Ok_0@ == definition,
            Err(e) => r is Err && r->Err_0 == e,
        },
{
    let method_tables = match binary.scan_method_tables() {
        Ok(method_tables) => method_tables,
        Err(e) => {
            return Err(DumpError::Scan(e));
        },
    };
    match dump_with(tables, &method_tables) {
        Ok(definition) => Ok(definition),
        Err(e) => Err(DumpError::Image(e)),
    }
}

/// `r` as the contracts speak of it.
pub open spec fn spec_result_view(r: Result<HytaleDefinition, DumpError>) -> Result<
    HytaleDefinitionView,
    DumpError,
> {
    match r {
        Ok(definition) => Ok(definition@),
        Err(e) => Err(e),
    }
}

/// What is handed to a disassembler of `binary`: its method tables under
/// the names that the type map gives them, and the functions whose entry
/// points the invoke map knows. First the metadata is looked for and
/// checked to hold every assembly of `required`; then the table of common
/// fixups, the type map and the invoke map are looked for; then the method
/// tables are scanned and everything is named.
pub fn dump_ida(binary: &NativeAotBinary<'_>, required: &Vec<String>) -> (r: Result<
    HytaleDefinition,
    DumpError,
>)
    ensures
        match r {
            Err(DumpError::MissingMetadata) => !spec_has_metadata(binary.rtr),
            Err(DumpError::ScopesUnreadable) => spec_check_fails(
                *binary,
                spec_texts(required@),
                DumpError::ScopesUnreadable,
            ),
            Err(DumpError::MissingAssembly(index)) => index < required@.len() && spec_check_fails(
                *binary,
                spec_texts(required@),
                DumpError::MissingAssembly(index),
            ),
            Err(DumpError::MissingFixups) => !spec_has_fixups(binary.rtr),
            Err(DumpError::MissingTypeMap) => !spec_has_blob_table(
                binary.rtr,
                ReflectionMapBlob::TypeMap,
            ),
            Err(DumpError::MissingInvokeMap) => !spec_has_blob_table(
                binary.rtr,
                ReflectionMapBlob::InvokeMap,
            ),
            _ => spec_dumps_to(*binary, spec_texts(required@), spec_result_view(r)),
        },
{
    let metadata = match metadata_of(binary) {
        Some(metadata) => metadata,
        None => {
            return Err(DumpError::MissingMetadata);
        },
    };
    match check_required(metadata, required) {
        Ok(()) => {},
        Err(e) => {
            proof {
                lemma_check_fails(*binary, metadata, spec_texts(required@), e);
            }
            return Err(e);
        },
    }
    let tables = Tables::gather(binary, metadata)?;
    let r = dump(binary, &tables);
    proof {
        lemma_dumps_to(*binary, tables, spec_texts(required@), spec_result_view(r));
    }
    r
}

/// A required assembly that is missing is one of the required ones.
proof fn lemma_first_missing_in_range(
    assemblies: Seq<AssemblyView>,
    required: Seq<Seq<char>>,
    from: int,
)
    requires
        0 <= from,
    ensures
        spec_first_missing(assemblies, required, from) matches Some(index) ==> from <= index
            < required.len(),
    decreases required.len() - from,
{
    if from < required.len() && spec_has_name(assemblies, required[from]) {
        lemma_first_missing_in_range(assemblies, required, from + 1);
    }
}

} // verus!
