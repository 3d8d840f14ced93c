//! Generation of one C translation unit from a Bolt program.
use vstd::prelude::*;
use crate::ast::Field;
use crate::codegen::monomorphization::MonomorphicType;
use crate::name_map::{text_entries, NameMap};
use crate::symbol_table::{spec_legacy, spec_new_table, SpecSymbolTable, SymbolTable};

pub mod check;
pub mod expr;
pub mod indent;
pub mod native;
pub mod program;
pub mod program_spec;
pub mod stmt;
pub mod stmt_spec;

use expr::{ArrayLens, VarKinds};

verus! {

/// The generator's state: what is known of the variables, the functions and
/// the top-level code generated so far, and the generic types seen.
pub struct CCodeGen {
    /// The kind of each variable (`"int"`, `"string"`, `"getargs"`, ...).
    pub variables: NameMap<String>,
    pub functions: Vec<String>,
    /// The code of `main` generated so far.
    pub main_code: String,
    pub symbol_table: SymbolTable,
    pub has_user_main: bool,
    /// Arrays whose length is known.
    pub array_lengths: NameMap<usize>,
    pub generic_types: NameMap<(Vec<String>, Vec<Field>)>,
    pub required_monomorphs: Vec<MonomorphicType>,
    pub generated_monomorphs: Vec<(MonomorphicType, String)>,
    /// Libraries that extern declarations ask to link.
    pub required_libraries: Vec<String>,
}

impl CCodeGen {
    /// The C functions generated so far, in order.
    pub open spec fn functions(&self) -> Seq<Seq<char>> {
        crate::text::strings_model(self.functions@)
    }

    /// The recorded variable kinds.
    pub open spec fn vars(&self) -> VarKinds {
        text_entries(self.variables@)
    }

    /// The known array lengths.
    pub open spec fn lens(&self) -> ArrayLens {
        self.array_lengths@
    }

    /// The code of `main` generated so far.
    pub open spec fn main_text(&self) -> Seq<char> {
        self.main_code@
    }

    /// The libraries to link, in the order first asked for.
    pub open spec fn libraries(&self) -> Seq<Seq<char>> {
        crate::text::strings_model(self.required_libraries@)
    }

    /// Whether the program defined its own `main`.
    pub open spec fn user_main(&self) -> bool {
        self.has_user_main
    }

    /// The symbol table the generator was given.
    pub open spec fn table(&self) -> SpecSymbolTable {
        self.symbol_table@
    }

    pub fn new() -> (res: Self)
        ensures
            res.vars() == Seq::<(Seq<char>, Seq<char>)>::empty(),
            res.lens() == Seq::<(Seq<char>, usize)>::empty(),
            res.main_text() == Seq::<char>::empty(),
            res.functions() == Seq::<Seq<char>>::empty(),
            !res.user_main(),
            res.table() == spec_new_table(),
            res.libraries() == Seq::<Seq<char>>::empty(),
            res.defs() == Seq::<(Seq<char>, program_spec::GenericDef)>::empty(),
            res.req() == Seq::<crate::codegen::monomorphization::SpecMonomorph>::empty(),
            res.cache() == Seq::<(crate::codegen::monomorphization::SpecMonomorph, Seq<char>)>::empty(),
    {
        let res = Self {
            variables: NameMap::new(),
            functions: Vec::new(),
            main_code: String::new(),
            symbol_table: SymbolTable::new(),
            has_user_main: false,
            array_lengths: NameMap::new(),
            generic_types: NameMap::new(),
            required_monomorphs: Vec::new(),
            generated_monomorphs: Vec::new(),
            required_libraries: Vec::new(),
        };
        assert(res.vars() =~= Seq::<(Seq<char>, Seq<char>)>::empty());
        assert(res.functions() =~= Seq::<Seq<char>>::empty());
        assert(res.libraries() =~= Seq::<Seq<char>>::empty());
        assert(res.defs() =~= Seq::<(Seq<char>, program_spec::GenericDef)>::empty());
        assert(res.req() =~= Seq::<crate::codegen::monomorphization::SpecMonomorph>::empty());
        assert(res.cache() =~= Seq::<(crate::codegen::monomorphization::SpecMonomorph, Seq<char>)>::empty());
        res
    }

    /// A generator whose variables start as the table's variables and
    /// parameters, with their C types.
    pub fn with_symbol_table(symbol_table: SymbolTable) -> (res: Self)
        ensures
            res.vars() == spec_legacy(symbol_table@.symbols),
            res.lens() == Seq::<(Seq<char>, usize)>::empty(),
            res.main_text() == Seq::<char>::empty(),
            res.functions() == Seq::<Seq<char>>::empty(),
            !res.user_main(),
            res.table() == symbol_table@,
            res.libraries() == Seq::<Seq<char>>::empty(),
            res.defs() == Seq::<(Seq<char>, program_spec::GenericDef)>::empty(),
            res.req() == Seq::<crate::codegen::monomorphization::SpecMonomorph>::empty(),
            res.cache() == Seq::<(crate::codegen::monomorphization::SpecMonomorph, Seq<char>)>::empty(),
    {
        let variables = symbol_table.to_legacy_variables();
        let res = Self {
            variables,
            functions: Vec::new(),
            main_code: String::new(),
            symbol_table,
            has_user_main: false,
            array_lengths: NameMap::new(),
            generic_types: NameMap::new(),
            required_monomorphs: Vec::new(),
            generated_monomorphs: Vec::new(),
            required_libraries: Vec::new(),
        };
        assert(res.functions() =~= Seq::<Seq<char>>::empty());
        assert(res.libraries() =~= Seq::<Seq<char>>::empty());
        assert(res.defs() =~= Seq::<(Seq<char>, program_spec::GenericDef)>::empty());
        assert(res.req() =~= Seq::<crate::codegen::monomorphization::SpecMonomorph>::empty());
        assert(res.cache() =~= Seq::<(crate::codegen::monomorphization::SpecMonomorph, Seq<char>)>::empty());
        res
    }
}

} // verus!
