use vstd::prelude::*;
use vstd::string::StringExecFns;

use crate::embedded_meta::collections::{
    spec_all_typed_handles, spec_behind, spec_typed_collection, GenericParameterHandleCollection,
};
use crate::embedded_meta::handles::{
    spec_handle_type_from_code, spec_kind_code, spec_offset_bits, BaseHandle,
    GenericParameterHandle, Handle, HandleType, NamespaceDefinitionHandle, TypeDefinitionHandle,
};
use crate::embedded_meta::{
    spec_constant_string_value, spec_generic_parameter, spec_namespace_definition,
    spec_type_definition, MetadataReader, NamespaceDefinition, ScopeDefinition, TypeDefinition,
};
use crate::error::AotError;
use crate::native_format::reader::spec_decode_unsigned;
use crate::text::{
    join, join_reversed, spec_join, spec_join_reversed, spec_split, spec_texts, split,
};

verus! {

// ---------------------------------------------------------------------------
// Names
// ---------------------------------------------------------------------------

/// Whether `handle` is of the kind of a namespace.
pub open spec fn spec_is_namespace(handle: BaseHandle) -> bool {
    spec_handle_type_from_code(spec_kind_code(handle.0)) == Some(HandleType::NamespaceDefinition)
}

/// `name` in front of what `rest` holds, or the error of `rest`.
pub open spec fn spec_in_front(name: Seq<char>, rest: Result<Seq<Seq<char>>, AotError>) -> Result<
    Seq<Seq<char>>,
    AotError,
> {
    match rest {
        Ok(names) => Ok(seq![name] + names),
        Err(e) => Err(e),
    }
}

/// The names of the namespaces from `handle` outwards: the chain of parents
/// is followed until a handle is no namespace or a namespace has no name.
/// A chain of more than `fuel` namespaces is taken for malformed.
pub open spec fn spec_namespace_names(reader: MetadataReader<'_>, handle: BaseHandle, fuel: nat)
    -> Result<Seq<Seq<char>>, AotError>
    decreases fuel,
{
    if !spec_is_namespace(handle) {
        Ok(Seq::empty())
    } else if fuel == 0 {
        Err(AotError::BadImage)
    } else {
        match NamespaceDefinitionHandle::spec_from_value(handle.0) {
            Err(e) => Err(e),
            Ok(typed) => match spec_namespace_definition(reader, typed) {
                Err(e) => Err(e),
                Ok(namespace) => if spec_offset_bits(namespace.name.spec_bits()) == 0 {
                    Ok(Seq::empty())
                } else {
                    match spec_constant_string_value(reader, namespace.name) {
                        Err(e) => Err(e),
                        Ok(name) => spec_in_front(
                            name,
                            spec_namespace_names(
                                reader,
                                namespace.parent_scope_or_namespace,
                                (fuel - 1) as nat,
                            ),
                        ),
                    }
                },
            },
        }
    }
}

/// The full name of `definition`: the names of its namespaces from the
/// outermost to the innermost, joined by dots, then a dot and the name of
/// the type itself. Enclosing types do not show.
pub open spec fn spec_full_name(definition: TypeDefinition<'_>) -> Result<Seq<char>, AotError> {
    match spec_constant_string_value(definition.reader, definition.name) {
        Err(e) => Err(e),
        Ok(name) => match spec_namespace_names(
            definition.reader,
            BaseHandle(definition.namespace_definition.spec_bits()),
            definition.reader.stream_reader@.len(),
        ) {
            Err(e) => Err(e),
            Ok(names) => Ok(spec_join_reversed(names, "."@) + "."@ + name),
        },
    }
}

/// The names of the generic parameters `handles` from the `from`-th on:
/// `None` where one of them or its name cannot be read.
pub open spec fn spec_parameter_names(
    reader: MetadataReader<'_>,
    handles: Seq<GenericParameterHandle>,
    from: int,
) -> Option<Seq<Seq<char>>>
    decreases handles.len() - from,
{
    if from < 0 || from >= handles.len() {
        Some(Seq::empty())
    } else {
        match spec_generic_parameter(reader, handles[from]) {
            Err(_) => None,
            Ok(parameter) => match spec_constant_string_value(reader, parameter.name) {
                Err(_) => None,
                Ok(name) => match spec_parameter_names(reader, handles, from + 1) {
                    Some(names) => Some(seq![name] + names),
                    None => None,
                },
            },
        }
    }
}

/// The names of the generic parameters of `collection`: `None` where the
/// collection, one of its handles, a parameter or its name cannot be read.
pub open spec fn spec_generic_names(
    reader: MetadataReader<'_>,
    collection: GenericParameterHandleCollection<'_>,
) -> Option<Seq<Seq<char>>> {
    match spec_decode_unsigned(collection.reader@, collection.offset as int) {
        None => None,
        Some((count, start)) => match spec_all_typed_handles::<0x26>(
            collection.reader@,
            start,
            count as nat,
        ) {
            Err(_) => None,
            Ok(handles) => spec_parameter_names(reader, handles, 0),
        },
    }
}

/// What the generic parameters add to a name: their names in angle
/// brackets, separated by a comma and a blank; nothing where there are none
/// or they cannot be read.
pub open spec fn spec_generics_suffix(names: Option<Seq<Seq<char>>>) -> Seq<char> {
    match names {
        Some(names) => if names.len() == 0 {
            Seq::empty()
        } else {
            "<"@ + spec_join(names, ", "@) + ">"@
        },
        None => Seq::empty(),
    }
}

/// The full name of `definition` with its generic parameters.
pub open spec fn spec_full_name_with_generics(definition: TypeDefinition<'_>) -> Result<
    Seq<char>,
    AotError,
> {
    match spec_full_name(definition) {
        Err(e) => Err(e),
        Ok(name) => Ok(
            name + spec_generics_suffix(
                spec_generic_names(definition.reader, definition.generic_parameters),
            ),
        ),
    }
}

/// The names of the generic parameters of `collection`.
pub fn generic_names<'a>(
    reader: MetadataReader<'a>,
    collection: &GenericParameterHandleCollection<'_>,
) -> (r: Option<Vec<String>>)
    ensures
        match spec_generic_names(reader, *collection) {
            Some(names) => r is Some && spec_texts(r->Some_0@) == names,
            None => r is None,
        },
{
    let handles = match collection.all_handles() {
        Ok(handles) => handles,
        Err(_) => {
            return None;
        },
    };
    let mut names: Vec<String> = Vec::new();
    let mut i: usize = 0;
    let ghost total = spec_parameter_names(reader, handles@, 0);
    assert(spec_texts(names@) =~= Seq::<Seq<char>>::empty());
    while i < handles.len()
        invariant
            i <= handles@.len(),
            total == spec_generic_names(reader, *collection),
            match spec_parameter_names(reader, handles@, i as int) {
                Some(rest) => total == Some(spec_texts(names@) + rest),
                None => total is None,
            },
        decreases handles@.len() - i,
    {
        let ghost collected = spec_texts(names@);
        let parameter = match handles[i].to_data(reader) {
            Ok(parameter) => parameter,
            Err(_) => {
                return None;
            },
        };
        let name = match parameter.name.to_data(reader) {
            Ok(name) => name,
            Err(_) => {
                return None;
            },
        };
        let ghost text = name.value@;
        names.push(name.value);
        proof {
            assert(spec_texts(names@) =~= collected + seq![text]);
            let rest = spec_parameter_names(reader, handles@, i + 1);
            if rest is Some {
                assert(spec_texts(names@) + rest->Some_0 =~= collected + (seq![text]
                    + rest->Some_0));
            }
        }
        i = i + 1;
    }
    assert(spec_texts(names@) + Seq::<Seq<char>>::empty() =~= spec_texts(names@));
    Some(names)
}

/// What the generic parameters with the names `names` add to a name.
pub fn generics_suffix(names: &Option<Vec<String>>) -> (suffix: String)
    ensures
        suffix@ == spec_generics_suffix(
            match *names {
                Some(names) => Some(spec_texts(names@)),
                None => None,
            },
        ),
{
    match names {
        Some(names) => {
            if names.len() == 0 {
                String::new()
            } else {
                let mut suffix = String::from_str("<");
                let inner = join(names, ", ");
                suffix.append(inner.as_str());
                suffix.append(">");
                suffix
            }
        },
        None => String::new(),
    }
}

impl<'a> TypeDefinition<'a> {
    /// The full name of the type: the names of its namespaces from the
    /// outermost to the innermost, joined by dots, then a dot and the name
    /// of the type itself.
    pub fn get_full_name(&self) -> (r: Result<String, AotError>)
        ensures
            match spec_full_name(*self) {
                Ok(name) => r is Ok && r->Ok_0@ == name,
                Err(e) => r is Err && r->Err_0 == e,
            },
    {
        let reader = self.reader;
        let own_name = self.name.to_data(reader)?.value;
        let start = self.namespace_definition.to_base();
        let mut ns_handle = start;
        let mut ns_names: Vec<String> = Vec::new();
        let mut fuel: usize = reader.stream_reader.len();
        let ghost total = spec_namespace_names(reader, start, fuel as nat);
        assert(spec_behind(spec_texts(ns_names@), spec_namespace_names(reader, ns_handle, fuel as nat))
            =~= total) by {
            if total is Ok {
                assert(spec_texts(ns_names@) + total->Ok_0 =~= total->Ok_0);
            }
        }
        loop
            invariant
                reader == self.reader,
                start == BaseHandle(self.namespace_definition.spec_bits()),
                spec_constant_string_value(reader, self.name) == Ok::<Seq<char>, AotError>(
                    own_name@,
                ),
                total == spec_namespace_names(reader, start, reader.stream_reader@.len()),
                spec_behind(
                    spec_texts(ns_names@),
                    spec_namespace_names(reader, ns_handle, fuel as nat),
                ) == total,
            decreases fuel,
        {
            let ghost collected = spec_texts(ns_names@);
            let is_namespace = match ns_handle.handle_type() {
                Some(HandleType::NamespaceDefinition) => true,
                _ => false,
            };
            if !is_namespace {
                assert(collected + Seq::<Seq<char>>::empty() =~= collected);
                return Ok(Self::dotted(&ns_names, own_name));
            }
            if fuel == 0 {
                return Err(AotError::BadImage);
            }
            let typed = ns_handle.to_handle::<NamespaceDefinitionHandle>()?;
            let namespace = typed.to_data(reader)?;
            if namespace.name.is_nil() {
                assert(collected + Seq::<Seq<char>>::empty() =~= collected);
                return Ok(Self::dotted(&ns_names, own_name));
            }
            let name = namespace.name.to_data(reader)?;
            let ghost text = name.value@;
            ns_names.push(name.value);
            ns_handle = namespace.parent_scope_or_namespace;
            fuel = fuel - 1;
            proof {
                assert(spec_texts(ns_names@) =~= collected + seq![text]);
                let rest = spec_namespace_names(reader, ns_handle, fuel as nat);
                if rest is Ok {
                    assert(spec_texts(ns_names@) + rest->Ok_0 =~= collected + (seq![text]
                        + rest->Ok_0));
                }
            }
        }
    }

    /// The names of the namespaces from the outermost to the innermost,
    /// joined by dots, then a dot and `own_name`.
    fn dotted(ns_names: &Vec<String>, own_name: String) -> (name: String)
        ensures
            name@ == spec_join_reversed(spec_texts(ns_names@), "."@) + "."@ + own_name@,
    {
        let mut name = join_reversed(ns_names, ".");
        name.append(".");
        name.append(own_name.as_str());
        name
    }

    /// The full name of the type, followed by the names of its generic
    /// parameters in angle brackets where it has any.
    pub fn get_full_name_with_generics(&self) -> (r: Result<String, AotError>)
        ensures
            match spec_full_name_with_generics(*self) {
                Ok(name) => r is Ok && r->Ok_0@ == name,
                Err(e) => r is Err && r->Err_0 == e,
            },
    {
        let mut name = self.get_full_name()?;
        let names = generic_names(self.reader, &self.generic_parameters);
        let suffix = generics_suffix(&names);
        name.append(suffix.as_str());
        Ok(name)
    }
}

// ---------------------------------------------------------------------------
// The types of a scope
// ---------------------------------------------------------------------------

/// The records of the type definitions `handles` from the `from`-th on,
/// without those that cannot be read.
pub open spec fn spec_type_records<'a>(
    reader: MetadataReader<'a>,
    handles: Seq<TypeDefinitionHandle>,
    from: int,
) -> Seq<TypeDefinition<'a>>
    decreases handles.len() - from,
{
    if from < 0 || from >= handles.len() {
        Seq::empty()
    } else {
        match spec_type_definition(reader, handles[from]) {
            Ok(definition) => seq![definition] + spec_type_records(reader, handles, from + 1),
            Err(_) => spec_type_records(reader, handles, from + 1),
        }
    }
}

/// How many namespaces a walk over a scope takes at most: more than any
/// machine takes, so that only a walk without an end stops here.
pub const MAX_WALK: u64 = 0xFFFF_FFFF_FFFF_FFFF;

/// The type definitions of the namespaces on `stack` and of all namespaces
/// below them. The namespace on top of the stack is taken first: its types
/// are listed, its child namespaces are put on the stack. A namespace that
/// cannot be read is passed over. A walk that takes more than `fuel`
/// namespaces is given up.
pub open spec fn spec_all_types<'a>(
    reader: MetadataReader<'a>,
    stack: Seq<NamespaceDefinitionHandle>,
    fuel: nat,
) -> Result<Seq<TypeDefinition<'a>>, AotError>
    decreases fuel,
{
    if stack.len() == 0 {
        Ok(Seq::empty())
    } else if fuel == 0 {
        Err(AotError::BadImage)
    } else {
        let rest = stack.drop_last();
        match spec_namespace_definition(reader, stack.last()) {
            Err(_) => spec_all_types(reader, rest, (fuel - 1) as nat),
            Ok(namespace) => match (
                spec_typed_collection::<0x3a>(
                    namespace.type_definitions.reader@,
                    namespace.type_definitions.offset as int,
                ),
                spec_typed_collection::<0x2f>(
                    namespace.namespace_definitions.reader@,
                    namespace.namespace_definitions.offset as int,
                ),
            ) {
                (Ok(types), Ok(children)) => spec_behind(
                    spec_type_records(reader, types, 0),
                    spec_all_types(reader, rest + children, (fuel - 1) as nat),
                ),
                _ => spec_all_types(reader, rest, (fuel - 1) as nat),
            },
        }
    }
}

/// All type definitions of `scope`: those of its root namespace and of
/// every namespace below it.
pub open spec fn spec_scope_types<'a>(scope: ScopeDefinition<'a>) -> Result<
    Seq<TypeDefinition<'a>>,
    AotError,
> {
    spec_all_types(scope.reader, seq![scope.root_namespace_definition], MAX_WALK as nat)
}

/// A walk that comes to an end comes to the same end where it may take more
/// namespaces.
pub proof fn lemma_walk_ends_the_same_with_more_steps(
    reader: MetadataReader<'_>,
    stack: Seq<NamespaceDefinitionHandle>,
    fuel: nat,
    more: nat,
)
    requires
        spec_all_types(reader, stack, fuel) is Ok,
        more >= fuel,
    ensures
        spec_all_types(reader, stack, more) == spec_all_types(reader, stack, fuel),
    decreases fuel,
{
    if stack.len() > 0 && fuel > 0 {
        let rest = stack.drop_last();
        match spec_namespace_definition(reader, stack.last()) {
            Err(_) => {
                lemma_walk_ends_the_same_with_more_steps(
                    reader,
                    rest,
                    (fuel - 1) as nat,
                    (more - 1) as nat,
                );
            },
            Ok(namespace) => match (
                spec_typed_collection::<0x3a>(
                    namespace.type_definitions.reader@,
                    namespace.type_definitions.offset as int,
                ),
                spec_typed_collection::<0x2f>(
                    namespace.namespace_definitions.reader@,
                    namespace.namespace_definitions.offset as int,
                ),
            ) {
                (Ok(types), Ok(children)) => {
                    lemma_walk_ends_the_same_with_more_steps(
                        reader,
                        rest + children,
                        (fuel - 1) as nat,
                        (more - 1) as nat,
                    );
                },
                _ => {
                    lemma_walk_ends_the_same_with_more_steps(
                        reader,
                        rest,
                        (fuel - 1) as nat,
                        (more - 1) as nat,
                    );
                },
            },
        }
    }
}

/// The types of a scope do not depend on how many namespaces a walk may
/// take: a walk over the scope that comes to an end within any number of
/// namespaces up to `MAX_WALK` gives them.
pub proof fn lemma_scope_types_are_those_of_any_walk_that_ends(
    scope: ScopeDefinition<'_>,
    fuel: nat,
)
    requires
        fuel <= MAX_WALK,
        spec_all_types(scope.reader, seq![scope.root_namespace_definition], fuel) is Ok,
    ensures
        spec_scope_types(scope) == spec_all_types(
            scope.reader,
            seq![scope.root_namespace_definition],
            fuel,
        ),
{
    lemma_walk_ends_the_same_with_more_steps(
        scope.reader,
        seq![scope.root_namespace_definition],
        fuel,
        MAX_WALK as nat,
    );
}

/// The records of the type definitions `handles`, without those that cannot
/// be read.
pub fn type_records<'a>(
    reader: MetadataReader<'a>,
    handles: &Vec<TypeDefinitionHandle>,
) -> (records:
    Vec<TypeDefinition<'a>>)
    ensures
        records@ == spec_type_records(reader, handles@, 0),
{
    let mut records: Vec<TypeDefinition<'a>> = Vec::new();
    let mut i: usize = 0;
    assert(records@ + spec_type_records(reader, handles@, 0) =~= spec_type_records(
        reader,
        handles@,
        0,
    ));
    while i < handles.len()
        invariant
            i <= handles@.len(),
            records@ + spec_type_records(reader, handles@, i as int) == spec_type_records(
                reader,
                handles@,
                0,
            ),
        decreases handles@.len() - i,
    {
        let ghost collected = records@;
        match handles[i].to_data(reader) {
            Ok(definition) => {
                records.push(definition);
                assert(records@ + spec_type_records(reader, handles@, i + 1) =~= collected + (
                seq![definition] + spec_type_records(reader, handles@, i + 1)));
            },
            Err(_) => {},
        }
        i = i + 1;
    }
    assert(records@ + Seq::<TypeDefinition<'a>>::empty() =~= records@);
    records
}

impl<'a> ScopeDefinition<'a> {
    /// All type definitions of the scope: those of its root namespace and
    /// of every namespace below it, in the order of a walk that takes the
    /// namespace that was found last first. A namespace or a type that
    /// cannot be read is passed over. Only a walk of more than `MAX_WALK`
    /// namespaces, which is one without an end, is given up.
    pub fn get_all_types(&self) -> (r: Result<Vec<TypeDefinition<'a>>, AotError>)
        ensures
            match spec_scope_types(*self) {
                Ok(types) => r is Ok && r->Ok_0@ == types,
                Err(e) => r is Err && r->Err_0 == e,
            },
    {
        let reader = self.reader;
        let mut types: Vec<TypeDefinition<'a>> = Vec::new();
        let mut stack: Vec<NamespaceDefinitionHandle> = Vec::new();
        stack.push(self.root_namespace_definition);
        let mut fuel: u64 = MAX_WALK;
        let ghost total = spec_all_types(reader, stack@, fuel as nat);
        assert(stack@ =~= seq![self.root_namespace_definition]);
        assert(spec_behind(types@, spec_all_types(reader, stack@, fuel as nat)) =~= total) by {
            if total is Ok {
                assert(types@ + total->Ok_0 =~= total->Ok_0);
            }
        }
        while stack.len() > 0
            invariant
                reader == self.reader,
                total == spec_scope_types(*self),
                spec_behind(types@, spec_all_types(reader, stack@, fuel as nat)) == total,
            decreases fuel,
        {
            if fuel == 0 {
                return Err(AotError::BadImage);
            }
            fuel = fuel - 1;
            let ghost before = stack@;
            let ghost collected = types@;
            let ns_handle = match stack.pop() {
                Some(ns_handle) => ns_handle,
                None => {
                    return Err(AotError::BadImage);
                },
            };
            assert(stack@ =~= before.drop_last());
            assert(ns_handle == before.last());
            match ns_handle.to_data(reader) {
                Err(_) => {},
                Ok(namespace) => {
                    match (
                        namespace.type_definitions.handles(),
                        namespace.namespace_definitions.handles(),
                    ) {
                        (Ok(type_handles), Ok(children)) => {
                            let mut records = type_records(reader, &type_handles);
                            let mut children = children;
                            let ghost added = records@;
                            let ghost more = children@;
                            types.append(&mut records);
                            stack.append(&mut children);
                            proof {
                                assert(stack@ =~= before.drop_last() + more);
                                let rest = spec_all_types(reader, stack@, fuel as nat);
                                if rest is Ok {
                                    assert(types@ + rest->Ok_0 =~= collected + (added
                                        + rest->Ok_0));
                                }
                            }
                        },
                        _ => {},
                    }
                },
            }
        }
        assert(types@ + Seq::<TypeDefinition<'a>>::empty() =~= types@);
        Ok(types)
    }
}

// ---------------------------------------------------------------------------
// Finding a type by name
// ---------------------------------------------------------------------------

/// The first of the namespaces `children` from the `from`-th on that is
/// called `segment`. Namespaces without a name are passed over; one that
/// cannot be read ends the search.
pub open spec fn spec_child_named(
    reader: MetadataReader<'_>,
    children: Seq<NamespaceDefinitionHandle>,
    from: int,
    segment: Seq<char>,
) -> Option<NamespaceDefinitionHandle>
    decreases children.len() - from,
{
    if from < 0 || from >= children.len() {
        None
    } else {
        match spec_namespace_definition(reader, children[from]) {
            Err(_) => None,
            Ok(child) => if spec_offset_bits(child.name.spec_bits()) == 0 {
                spec_child_named(reader, children, from + 1, segment)
            } else {
                match spec_constant_string_value(reader, child.name) {
                    Err(_) => None,
                    Ok(name) => if name == segment {
                        Some(children[from])
                    } else {
                        spec_child_named(reader, children, from + 1, segment)
                    },
                }
            },
        }
    }
}

/// The first of the type definitions `types` from the `from`-th on that is
/// called `name`. Types that cannot be read are passed over; one whose name
/// cannot be read ends the search.
pub open spec fn spec_type_named<'a>(
    reader: MetadataReader<'a>,
    types: Seq<TypeDefinitionHandle>,
    from: int,
    name: Seq<char>,
) -> Option<TypeDefinition<'a>>
    decreases types.len() - from,
{
    if from < 0 || from >= types.len() {
        None
    } else {
        match spec_type_definition(reader, types[from]) {
            Err(_) => spec_type_named(reader, types, from + 1, name),
            Ok(definition) => match spec_constant_string_value(reader, definition.name) {
                Err(_) => None,
                Ok(text) => if text == name {
                    Some(definition)
                } else {
                    spec_type_named(reader, types, from + 1, name)
                },
            },
        }
    }
}

/// The child namespace of `current` that is called `segment`.
pub open spec fn spec_enter(
    reader: MetadataReader<'_>,
    current: NamespaceDefinitionHandle,
    segment: Seq<char>,
) -> Option<NamespaceDefinitionHandle> {
    match spec_namespace_definition(reader, current) {
        Err(_) => None,
        Ok(namespace) => match spec_typed_collection::<0x2f>(
            namespace.namespace_definitions.reader@,
            namespace.namespace_definitions.offset as int,
        ) {
            Err(_) => None,
            Ok(children) => spec_child_named(reader, children, 0, segment),
        },
    }
}

/// The type of the namespace `holder` that is called `name`.
pub open spec fn spec_type_in<'a>(
    reader: MetadataReader<'a>,
    holder: NamespaceDefinitionHandle,
    name: Seq<char>,
) -> Option<TypeDefinition<'a>> {
    match spec_namespace_definition(reader, holder) {
        Err(_) => None,
        Ok(namespace) => match spec_typed_collection::<0x3a>(
            namespace.type_definitions.reader@,
            namespace.type_definitions.offset as int,
        ) {
            Err(_) => None,
            Ok(types) => spec_type_named(reader, types, 0, name),
        },
    }
}

/// The namespace that is reached from `current` by going down through the
/// child namespaces called as the segments from the `from`-th to the last
/// but one are called.
pub open spec fn spec_descend(
    reader: MetadataReader<'_>,
    current: NamespaceDefinitionHandle,
    segments: Seq<Seq<char>>,
    from: int,
) -> Option<NamespaceDefinitionHandle>
    decreases segments.len() - from,
{
    if from < 0 || from + 1 >= segments.len() {
        Some(current)
    } else {
        match spec_enter(reader, current, segments[from]) {
            None => None,
            Some(child) => spec_descend(reader, child, segments, from + 1),
        }
    }
}

/// The type that the dotted `name` names below `namespace`: all segments but
/// the last name child namespaces, the last names the type.
pub open spec fn spec_find_type<'a>(namespace: NamespaceDefinition<'a>, name: Seq<char>) -> Option<
    TypeDefinition<'a>,
> {
    let segments = spec_split(name, '.');
    match spec_descend(namespace.reader, namespace.handle, segments, 0) {
        None => None,
        Some(last) => spec_type_in(namespace.reader, last, segments.last()),
    }
}

/// The first of the namespaces `children` that is called `segment`.
fn child_named(
    reader: MetadataReader<'_>,
    children: &Vec<NamespaceDefinitionHandle>,
    segment: &String,
) -> (r: Option<NamespaceDefinitionHandle>)
    ensures
        r == spec_child_named(reader, children@, 0, segment@),
{
    let mut i: usize = 0;
    while i < children.len()
        invariant
            i <= children@.len(),
            spec_child_named(reader, children@, i as int, segment@) == spec_child_named(
                reader,
                children@,
                0,
                segment@,
            ),
        decreases children@.len() - i,
    {
        let child = match children[i].to_data(reader) {
            Ok(child) => child,
            Err(_) => {
                return None;
            },
        };
        if !child.name.is_nil() {
            let name = match child.name.to_data(reader) {
                Ok(name) => name,
                Err(_) => {
                    return None;
                },
            };
            if name.value == *segment {
                return Some(children[i]);
            }
        }
        i = i + 1;
    }
    None
}

/// The first of the type definitions `types` that is called `name`.
fn type_named<'a>(
    reader: MetadataReader<'a>,
    types: &Vec<TypeDefinitionHandle>,
    name: &String,
) -> (r:
    Option<TypeDefinition<'a>>)
    ensures
        r == spec_type_named(reader, types@, 0, name@),
{
    let mut i: usize = 0;
    while i < types.len()
        invariant
            i <= types@.len(),
            spec_type_named(reader, types@, i as int, name@) == spec_type_named(
                reader,
                types@,
                0,
                name@,
            ),
        decreases types@.len() - i,
    {
        match types[i].to_data(reader) {
            Err(_) => {},
            Ok(definition) => {
                let text = match definition.name.to_data(reader) {
                    Ok(text) => text,
                    Err(_) => {
                        return None;
                    },
                };
                if text.value == *name {
                    return Some(definition);
                }
            },
        }
        i = i + 1;
    }
    None
}

/// The child namespace of `current` that is called `segment`.
fn enter(reader: MetadataReader<'_>, current: NamespaceDefinitionHandle, segment: &String) -> (r:
    Option<NamespaceDefinitionHandle>)
    ensures
        r == spec_enter(reader, current, segment@),
{
    let namespace = match current.to_data(reader) {
        Ok(namespace) => namespace,
        Err(_) => {
            return None;
        },
    };
    let children = match namespace.namespace_definitions.handles() {
        Ok(children) => children,
        Err(_) => {
            return None;
        },
    };
    child_named(reader, &children, segment)
}

/// The type of the namespace `holder` that is called `name`.
fn type_in<'a>(reader: MetadataReader<'a>, holder: NamespaceDefinitionHandle, name: &String) -> (r:
    Option<TypeDefinition<'a>>)
    ensures
        r == spec_type_in(reader, holder, name@),
{
    let namespace = match holder.to_data(reader) {
        Ok(namespace) => namespace,
        Err(_) => {
            return None;
        },
    };
    let types = match namespace.type_definitions.handles() {
        Ok(types) => types,
        Err(_) => {
            return None;
        },
    };
    type_named(reader, &types, name)
}

/// The namespace that is reached from `start` by going down through the
/// child namespaces called as all `segments` but the last are called.
fn descend(
    reader: MetadataReader<'_>,
    start: NamespaceDefinitionHandle,
    segments: &Vec<String>,
) -> (r:
    Option<NamespaceDefinitionHandle>)
    ensures
        r == spec_descend(reader, start, spec_texts(segments@), 0),
{
    let ghost texts = spec_texts(segments@);
    let count: usize = segments.len();
    let limit: usize = if count == 0 {
        0
    } else {
        count - 1
    };
    let mut current = start;
    let mut i: usize = 0;
    while i < limit
        invariant
            i <= limit,
            count == segments@.len(),
            limit + 1 == count || (count == 0 && limit == 0),
            texts == spec_texts(segments@),
            spec_descend(reader, current, texts, i as int) == spec_descend(reader, start, texts, 0),
        decreases limit - i,
    {
        assert(texts[i as int] == segments@[i as int]@);
        let next = enter(reader, current, &segments[i]);
        current = match next {
            Some(child) => child,
            None => {
                return None;
            },
        };
        i = i + 1;
    }
    Some(current)
}

impl<'a> NamespaceDefinition<'a> {
    /// The type that the dotted `name` names below this namespace.
    pub fn find_type(&self, name: &str) -> (r: Option<TypeDefinition<'a>>)
        ensures
            r == spec_find_type(*self, name@),
    {
        let segments = split(name, '.');
        let last: usize = segments.len() - 1;
        assert(spec_texts(segments@).last() == segments@[last as int]@);
        match descend(self.reader, self.handle, &segments) {
            Some(holder) => type_in(self.reader, holder, &segments[last]),
            None => None,
        }
    }
}

} // verus!
