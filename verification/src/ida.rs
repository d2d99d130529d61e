use vstd::prelude::*;

use crate::text::{replace_with_underscore, spec_replace, spec_split, spec_texts, split};

verus! {

/// The name and the shape of one method table, for a disassembler.
pub struct MtStruct {
    /// The name of the type, cut at its dots.
    pub name: Vec<String>,
    pub vtables: u16,
    pub ifaces: u16,
    pub address: u64,
}

/// The name of one function, for a disassembler.
pub struct Function {
    pub name: String,
    pub address: u64,
}

/// What is handed to a disassembler: the method tables and the functions of
/// an image with their names.
pub struct HytaleDefinition {
    pub mt_structs: Vec<MtStruct>,
    pub functions: Vec<Function>,
}

/// An `MtStruct` as the contracts speak of it.
pub struct MtStructView {
    pub name: Seq<Seq<char>>,
    pub vtables: u16,
    pub ifaces: u16,
    pub address: u64,
}

/// A `Function` as the contracts speak of it.
pub struct FunctionView {
    pub name: Seq<char>,
    pub address: u64,
}

/// A `HytaleDefinition` as the contracts speak of it.
pub struct HytaleDefinitionView {
    pub mt_structs: Seq<MtStructView>,
    pub functions: Seq<FunctionView>,
}

impl View for MtStruct {
    type V = MtStructView;

    open spec fn view(&self) -> MtStructView {
        MtStructView {
            name: spec_texts(self.name@),
            vtables: self.vtables,
            ifaces: self.ifaces,
            address: self.address,
        }
    }
}

impl View for Function {
    type V = FunctionView;

    open spec fn view(&self) -> FunctionView {
        FunctionView { name: self.name@, address: self.address }
    }
}

impl View for HytaleDefinition {
    type V = HytaleDefinitionView;

    open spec fn view(&self) -> HytaleDefinitionView {
        HytaleDefinitionView {
            mt_structs: Seq::new(self.mt_structs@.len(), |i: int| self.mt_structs@[i]@),
            functions: Seq::new(self.functions@.len(), |i: int| self.functions@[i]@),
        }
    }
}

/// The name of a method table as it is handed on: every `|` becomes an
/// underscore, and the name is cut at its dots.
pub open spec fn spec_struct_name(name: Seq<char>) -> Seq<Seq<char>> {
    spec_split(spec_replace(name, '|', '_'), '.')
}

/// The name of a function as it is handed on: every `|` and every dot
/// becomes an underscore.
pub open spec fn spec_function_name(name: Seq<char>) -> Seq<char> {
    spec_replace(spec_replace(name, '|', '_'), '.', '_')
}

impl HytaleDefinition {
    /// A definition without method tables and without functions.
    pub fn new() -> (definition: Self)
        ensures
            definition@.mt_structs == Seq::<MtStructView>::empty(),
            definition@.functions == Seq::<FunctionView>::empty(),
    {
        let definition = Self { mt_structs: Vec::new(), functions: Vec::new() };
        assert(definition@.mt_structs =~= Seq::<MtStructView>::empty());
        assert(definition@.functions =~= Seq::<FunctionView>::empty());
        definition
    }

    /// Adds the method table at `address` under the name `name`.
    pub fn create_mt_struct(&mut self, address: u64, name: &str, vtables: u16, ifaces: u16)
        ensures
            final(self)@.functions == old(self)@.functions,
            final(self)@.mt_structs == old(self)@.mt_structs.push(
                (MtStructView { name: spec_struct_name(name@), vtables, ifaces, address }),
            ),
    {
        let replaced = replace_with_underscore(name, '|');
        let parts = split(replaced.as_str(), '.');
        let ghost before = self@;
        self.mt_structs.push(MtStruct { name: parts, vtables, ifaces, address });
        assert(self@.functions =~= before.functions);
        assert(self@.mt_structs =~= before.mt_structs.push(
            (MtStructView { name: spec_struct_name(name@), vtables, ifaces, address }),
        ));
    }

    /// Adds the function at `address` under the name `name`.
    pub fn create_function(&mut self, address: u64, name: &str)
        ensures
            final(self)@.mt_structs == old(self)@.mt_structs,
            final(self)@.functions == old(self)@.functions.push(
                (FunctionView { name: spec_function_name(name@), address }),
            ),
    {
        let replaced = replace_with_underscore(name, '|');
        let flat = replace_with_underscore(replaced.as_str(), '.');
        let ghost before = self@;
        self.functions.push(Function { name: flat, address });
        assert(self@.mt_structs =~= before.mt_structs);
        assert(self@.functions =~= before.functions.push(
            (FunctionView { name: spec_function_name(name@), address }),
        ));
    }
}

impl Default for HytaleDefinition {
    fn default() -> (definition: Self)
        ensures
            definition@.mt_structs == Seq::<MtStructView>::empty(),
            definition@.functions == Seq::<FunctionView>::empty(),
    {
        Self::new()
    }
}

} // verus!
