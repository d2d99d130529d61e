use vstd::prelude::*;
use vstd::string::StringExecFns;

use crate::embedded_meta::collections::spec_typed_collection;
use crate::embedded_meta::handles::ScopeDefinitionHandle;
use crate::embedded_meta::{
    spec_constant_string_value, spec_scope_definition, MetadataReader,
};
use crate::error::AotError;
use crate::text::{spec_decimal, to_decimal};

verus! {

/// The name and the version of one assembly of an image.
pub struct Assembly {
    pub name: String,
    pub major_version: u16,
    pub minor_version: u16,
    pub build_number: u16,
    pub revision_number: u16,
}

/// An `Assembly` as the contracts speak of it.
pub struct AssemblyView {
    pub name: Seq<char>,
    pub major_version: u16,
    pub minor_version: u16,
    pub build_number: u16,
    pub revision_number: u16,
}

impl View for Assembly {
    type V = AssemblyView;

    open spec fn view(&self) -> AssemblyView {
        AssemblyView {
            name: self.name@,
            major_version: self.major_version,
            minor_version: self.minor_version,
            build_number: self.build_number,
            revision_number: self.revision_number,
        }
    }
}

/// The assemblies of `assemblies` as the contracts speak of them.
pub open spec fn spec_assembly_views(assemblies: Seq<Assembly>) -> Seq<AssemblyView> {
    Seq::new(assemblies.len(), |i: int| assemblies[i]@)
}

/// The assemblies that the scopes `handles` from the `from`-th on describe,
/// without the scopes that cannot be read or whose name cannot be read.
pub open spec fn spec_assemblies_of(
    reader: MetadataReader<'_>,
    handles: Seq<ScopeDefinitionHandle>,
    from: int,
) -> Seq<AssemblyView>
    decreases handles.len() - from,
{
    if from < 0 || from >= handles.len() {
        Seq::empty()
    } else {
        let rest = spec_assemblies_of(reader, handles, from + 1);
        match spec_scope_definition(reader, handles[from]) {
            Err(_) => rest,
            Ok(scope) => match spec_constant_string_value(reader, scope.name) {
                Err(_) => rest,
                Ok(name) => seq![
                    AssemblyView {
                        name,
                        major_version: scope.major_version,
                        minor_version: scope.minor_version,
                        build_number: scope.build_number,
                        revision_number: scope.revision_number,
                    },
                ] + rest,
            },
        }
    }
}

/// The assemblies of the metadata of `reader`, in the order of its scopes.
pub open spec fn spec_assemblies(reader: MetadataReader<'_>) -> Result<
    Seq<AssemblyView>,
    AotError,
> {
    match spec_typed_collection::<0x38>(
        reader.header.scope_definitions.reader@,
        reader.header.scope_definitions.offset as int,
    ) {
        Err(e) => Err(e),
        Ok(handles) => Ok(spec_assemblies_of(reader, handles, 0)),
    }
}

/// The line that describes `assembly`: its name, `, Version=`, and the four
/// numbers of its version joined by dots.
pub open spec fn spec_assembly_line(assembly: AssemblyView) -> Seq<char> {
    assembly.name + ", Version="@ + spec_decimal(assembly.major_version as nat) + "."@
        + spec_decimal(assembly.minor_version as nat) + "."@ + spec_decimal(
        assembly.build_number as nat,
    ) + "."@ + spec_decimal(assembly.revision_number as nat)
}

/// The assemblies of the metadata of `reader`, in the order of its scopes.
pub fn get_assemblies(reader: MetadataReader<'_>) -> (r: Result<Vec<Assembly>, AotError>)
    ensures
        match spec_assemblies(reader) {
            Ok(assemblies) => r is Ok && spec_assembly_views(r->Ok_0@) == assemblies,
            Err(e) => r is Err && r->Err_0 == e,
        },
{
    let handles = reader.header().scope_definitions().handles()?;
    let mut assemblies: Vec<Assembly> = Vec::new();
    let mut i: usize = 0;
    let ghost total = spec_assemblies_of(reader, handles@, 0);
    assert(spec_assembly_views(assemblies@) + total =~= total);
    while i < handles.len()
        invariant
            i <= handles@.len(),
            spec_assemblies(reader) == Ok::<Seq<AssemblyView>, AotError>(total),
            spec_assembly_views(assemblies@) + spec_assemblies_of(reader, handles@, i as int)
                == total,
        decreases handles@.len() - i,
    {
        let ghost collected = spec_assembly_views(assemblies@);
        match handles[i].to_data(reader) {
            Err(_) => {},
            Ok(scope) => match scope.name.to_data(reader) {
                Err(_) => {},
                Ok(name) => {
                    let assembly = Assembly {
                        name: name.value,
                        major_version: scope.major_version,
                        minor_version: scope.minor_version,
                        build_number: scope.build_number,
                        revision_number: scope.revision_number,
                    };
                    let ghost view = assembly@;
                    assemblies.push(assembly);
                    assert(spec_assembly_views(assemblies@) =~= collected + seq![view]);
                    assert(spec_assembly_views(assemblies@) + spec_assemblies_of(
                        reader,
                        handles@,
                        i + 1,
                    ) =~= collected + (seq![view] + spec_assemblies_of(reader, handles@, i + 1)));
                },
            },
        }
        i = i + 1;
    }
    assert(spec_assembly_views(assemblies@) + Seq::<AssemblyView>::empty()
        =~= spec_assembly_views(assemblies@));
    Ok(assemblies)
}

impl Assembly {
    /// The line that describes the assembly.
    pub fn line(&self) -> (line: String)
        ensures
            line@ == spec_assembly_line(self@),
    {
        let mut line = String::from_str(self.name.as_str());
        line.append(", Version=");
        line.append(to_decimal(self.major_version as u64).as_str());
        line.append(".");
        line.append(to_decimal(self.minor_version as u64).as_str());
        line.append(".");
        line.append(to_decimal(self.build_number as u64).as_str());
        line.append(".");
        line.append(to_decimal(self.revision_number as u64).as_str());
        line
    }
}

} // verus!
