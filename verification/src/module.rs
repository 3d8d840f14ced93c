//! Modules of a Bolt program: their sources parsed and kept by path, what
//! each exports, and what the main program imports from them.
use vstd::prelude::*;
use crate::ast::{stmts_model, Program, SpecStmt, Statement};
use crate::c_codegen::check::functions_compile;
use crate::c_codegen::program_spec::{functions_ok, modules_ok};
use crate::lexer::{start_pos, tokenize_from, Lexer};
use crate::name_map::{
    assoc_get, assoc_insert, lemma_map_values_get, lemma_map_values_insert, lemma_text_entries_get,
    lemma_text_entries_insert, map_values, text_entries, NameMap,
};
use crate::parser::Parser;
use crate::parser_spec::sp_program;
use crate::symbol_table::spec_new_table;
use crate::text::{chars_of, ends_with, owned, push_char, starts_with, str_ends_with, str_starts_with, strings_model};

verus! {

/// What a module makes available to importers.
#[derive(Debug)]
pub struct ModuleExports {
    pub functions: Vec<String>,
    pub types: Vec<String>,
    pub variables: Vec<String>,
}

/// Model of [`ModuleExports`].
pub struct SpecExports {
    pub functions: Seq<Seq<char>>,
    pub types: Seq<Seq<char>>,
    pub variables: Seq<Seq<char>>,
}

impl View for ModuleExports {
    type V = SpecExports;

    open spec fn view(&self) -> SpecExports {
        SpecExports {
            functions: strings_model(self.functions@),
            types: strings_model(self.types@),
            variables: strings_model(self.variables@),
        }
    }
}

/// The file a module path names: `bolt:x` is `std/x.bolt`, a path ending in
/// `.bolt` is itself, and any other path gets `.bolt` added.
pub open spec fn module_file(path: Seq<char>) -> Seq<char> {
    if starts_with(path, "bolt:"@) {
        "std/"@ + path.skip(5) + ".bolt"@
    } else if ends_with(path, ".bolt"@) {
        path
    } else {
        path + ".bolt"@
    }
}

/// The statements of a module source, when it lexes and parses.
pub open spec fn parse_source(source: Seq<char>) -> Option<Seq<SpecStmt>> {
    match tokenize_from(source, start_pos(), Seq::empty()) {
        Some(ts) => match sp_program(Seq::new(ts.len(), |i: int| ts[i].token_type), 0, spec_new_table(), Seq::empty()) {
            Some((ss, _)) => Some(ss),
            None => None,
        },
        None => None,
    }
}

/// The items a module exports, in order: those of `export` statements and
/// the functions declared with `export fun`.
pub open spec fn exported_items(ss: Seq<SpecStmt>) -> Seq<Seq<char>>
    decreases ss.len(),
{
    if ss.len() == 0 {
        Seq::empty()
    } else {
        let before = exported_items(ss.drop_last());
        match ss.last() {
            SpecStmt::Export { item } => before.push(item),
            SpecStmt::Function { name, exported, .. } => if exported {
                before.push(name)
            } else {
                before
            },
            _ => before,
        }
    }
}

/// What a module exports: every exported item counts as a function.
pub open spec fn exports_of(ss: Seq<SpecStmt>) -> SpecExports {
    SpecExports { functions: exported_items(ss), types: Seq::empty(), variables: Seq::empty() }
}

/// The key under which an import is resolved: `name:path` for a named
/// import, the path otherwise.
pub open spec fn import_key(module_name: Option<Seq<char>>, path: Seq<char>) -> Seq<char> {
    match module_name {
        Some(n) => n + ":"@ + path,
        None => path,
    }
}

/// The error for an import of a module without exports.
pub open spec fn not_found_message(path: Seq<char>) -> Seq<char> {
    "Module '"@ + path + "' not found"@
}

/// What resolving the imports of a program asks for next.
pub enum ImportStep {
    /// Every import is resolved.
    Done,
    /// The import at `index` needs its module loaded first.
    Load { index: usize, path: String },
    /// An import cannot be resolved.
    Failed(String),
}

/// Model of [`ImportStep`].
pub enum SpecImportStep {
    Done,
    Load { index: int, path: Seq<char> },
    Failed(Seq<char>),
}

impl View for ImportStep {
    type V = SpecImportStep;

    open spec fn view(&self) -> SpecImportStep {
        match self {
            ImportStep::Done => SpecImportStep::Done,
            ImportStep::Load { index, path } => SpecImportStep::Load { index: *index as int, path: path@ },
            ImportStep::Failed(m) => SpecImportStep::Failed(m@),
        }
    }
}

/// Resolving the imports of `ss` from position `i` on: each import whose
/// module is loaded records its items (those it names, or everything the
/// module exports) under its key; the first import whose module is not
/// loaded stops the walk.
pub open spec fn resolve_from(
    modules: Seq<(Seq<char>, Seq<SpecStmt>)>,
    exports: Seq<(Seq<char>, SpecExports)>,
    resolved: Seq<(Seq<char>, Seq<Seq<char>>)>,
    ss: Seq<SpecStmt>,
    i: int,
) -> (Seq<(Seq<char>, Seq<Seq<char>>)>, SpecImportStep)
    decreases ss.len() - i,
{
    if i < 0 || i >= ss.len() {
        (resolved, SpecImportStep::Done)
    } else {
        match ss[i] {
            SpecStmt::Import { module_name, source_path, items } => if assoc_get(modules, source_path) is None {
                (resolved, SpecImportStep::Load { index: i, path: source_path })
            } else {
                match items {
                    Some(names) => resolve_from(
                        modules,
                        exports,
                        assoc_insert(resolved, import_key(module_name, source_path), names),
                        ss,
                        i + 1,
                    ),
                    None => match assoc_get(exports, source_path) {
                        Some(e) => resolve_from(
                            modules,
                            exports,
                            assoc_insert(
                                resolved,
                                import_key(module_name, source_path),
                                e.functions + e.types + e.variables,
                            ),
                            ss,
                            i + 1,
                        ),
                        None => (resolved, SpecImportStep::Failed(not_found_message(source_path))),
                    },
                }
            },
            _ => resolve_from(modules, exports, resolved, ss, i + 1),
        }
    }
}

/// The functions a module defines, added to `acc` with the module's path
/// (a later definition of a name replaces the path of an earlier one).
pub open spec fn module_functions(acc: Seq<(Seq<char>, Seq<char>)>, path: Seq<char>, ss: Seq<SpecStmt>) -> Seq<
    (Seq<char>, Seq<char>),
>
    decreases ss.len(),
{
    if ss.len() == 0 {
        acc
    } else {
        let before = module_functions(acc, path, ss.drop_last());
        match ss.last() {
            SpecStmt::Function { name, .. } => assoc_insert(before, name, path),
            _ => before,
        }
    }
}

/// Every function of every module with the path of the module defining it,
/// modules taken in the order they were loaded.
pub open spec fn all_functions(modules: Seq<(Seq<char>, Seq<SpecStmt>)>) -> Seq<(Seq<char>, Seq<char>)>
    decreases modules.len(),
{
    if modules.len() == 0 {
        Seq::empty()
    } else {
        module_functions(all_functions(modules.drop_last()), modules.last().0, modules.last().1)
    }
}

/// The loaded modules of a program, their exports, and its resolved imports.
#[derive(Debug)]
pub struct ModuleSystem {
    modules: NameMap<Program>,
    exports: NameMap<ModuleExports>,
    resolved_imports: NameMap<Vec<String>>,
}

impl ModuleSystem {
    /// The statements of each loaded module, by path, in loading order.
    pub closed spec fn modules(&self) -> Seq<(Seq<char>, Seq<SpecStmt>)> {
        map_values(self.modules@, |p: Program| stmts_model(p.statements@))
    }

    /// The exports of each loaded module, by path.
    pub closed spec fn exports(&self) -> Seq<(Seq<char>, SpecExports)> {
        map_values(self.exports@, |e: ModuleExports| e@)
    }

    /// The items of each resolved import, by key.
    pub closed spec fn resolved(&self) -> Seq<(Seq<char>, Seq<Seq<char>>)> {
        map_values(self.resolved_imports@, |v: Vec<String>| strings_model(v@))
    }

    pub fn new() -> (res: Self)
        ensures
            res.modules() == Seq::<(Seq<char>, Seq<SpecStmt>)>::empty(),
            res.exports() == Seq::<(Seq<char>, SpecExports)>::empty(),
            res.resolved() == Seq::<(Seq<char>, Seq<Seq<char>>)>::empty(),
    {
        let res = Self { modules: NameMap::new(), exports: NameMap::new(), resolved_imports: NameMap::new() };
        assert(res.modules() =~= Seq::<(Seq<char>, Seq<SpecStmt>)>::empty());
        assert(res.exports() =~= Seq::<(Seq<char>, SpecExports)>::empty());
        assert(res.resolved() =~= Seq::<(Seq<char>, Seq<Seq<char>>)>::empty());
        res
    }

    /// The file a module path names (see [`module_file`]).
    pub fn module_file_path(mod_path: &str) -> (res: String)
        ensures
            res@ == module_file(mod_path@),
    {
        if str_starts_with(mod_path, "bolt:") {
            proof {
                reveal_strlit("bolt:");
            }
            let chars = chars_of(mod_path);
            let mut res = owned("std/");
            let mut i: usize = 5;
            while i < chars.len()
                invariant
                    5 <= i <= chars@.len(),
                    chars@ == mod_path@,
                    res@ == "std/"@ + mod_path@.subrange(5, i as int),
                decreases chars@.len() - i,
            {
                push_char(&mut res, chars[i]);
                assert(mod_path@.subrange(5, i + 1) =~= mod_path@.subrange(5, i as int).push(chars@[i as int]));
                i = i + 1;
            }
            assert(mod_path@.subrange(5, i as int) =~= mod_path@.skip(5));
            res.append(".bolt");
            res
        } else if str_ends_with(mod_path, ".bolt") {
            owned(mod_path)
        } else {
            let mut res = owned(mod_path);
            res.append(".bolt");
            res
        }
    }

    /// Whether the module at `mod_path` is loaded.
    pub fn is_loaded(&self, mod_path: &str) -> (res: bool)
        ensures
            res == (assoc_get(self.modules(), mod_path@) is Some),
    {
        proof {
            lemma_map_values_get(self.modules@, |p: Program| stmts_model(p.statements@), mod_path@);
        }
        self.modules.contains_key(mod_path)
    }

    /// Loads a module from its source text: unless it is loaded already, the
    /// source is lexed and parsed, and the program is kept with its exports.
    /// A lexing or parsing error is returned and nothing changes.
    pub fn load_module_source(&mut self, mod_path: &str, content: String) -> (res: Result<(), String>)
        requires
            content@.len() <= usize::MAX / 8,
        ensures
            assoc_get(old(self).modules(), mod_path@) is Some ==> res is Ok && *final(self) == *old(self),
            assoc_get(old(self).modules(), mod_path@) is None ==> match parse_source(content@) {
                Some(ss) => res is Ok && final(self).modules() == assoc_insert(old(self).modules(), mod_path@, ss)
                    && final(self).exports() == assoc_insert(old(self).exports(), mod_path@, exports_of(ss))
                    && final(self).resolved() == old(self).resolved(),
                None => res is Err && *final(self) == *old(self),
            },
    {
        if self.is_loaded(mod_path) {
            return Ok(());
        }
        let ghost source = content@;
        let mut lexer = Lexer::new(content);
        let tokens = match lexer.tokenize() {
            Ok(t) => t,
            Err(e) => {
                return Err(e);
            },
        };
        let ghost toks = Seq::new(tokens@.len(), |i: int| tokens@[i]@.token_type);
        proof {
            let ts = tokenize_from(source, start_pos(), Seq::empty()).unwrap();
            assert(crate::lexer::tokens_model(tokens@) == ts);
            assert(toks =~= Seq::new(ts.len(), |i: int| ts[i].token_type));
            assert(crate::parser::tok_types(tokens@) =~= toks);
        }
        let mut parser = Parser::new(tokens);
        let program = match parser.parse() {
            Ok(p) => p,
            Err(e) => {
                return Err(e);
            },
        };
        let ghost ss = stmts_model(program.statements@);
        let exports = self.extract_exports(&program);
        proof {
            lemma_map_values_insert(self.modules@, |p: Program| stmts_model(p.statements@), mod_path@, program);
            lemma_map_values_insert(self.exports@, |e: ModuleExports| e@, mod_path@, exports);
        }
        self.modules.insert(owned(mod_path), program);
        self.exports.insert(owned(mod_path), exports);
        assert(self.modules() == assoc_insert(old(self).modules(), mod_path@, ss));
        Ok(())
    }

    /// The items a program exports (every one counted as a function): those
/// of `export` statements and the functions declared with `export fun`.
    fn extract_exports(&self, program: &Program) -> (res: ModuleExports)
        ensures
            res@ == exports_of(stmts_model(program.statements@)),
    {
        let stmts = &program.statements;
        let ghost ss = stmts_model(stmts@);
        proof {
            crate::ast::lemma_stmts_model(stmts@);
        }
        let mut functions: Vec<String> = Vec::new();
        let mut i: usize = 0;
        while i < stmts.len()
            invariant
                i <= stmts@.len(),
                ss == stmts_model(stmts@),
                ss.len() == stmts@.len(),
                forall|j: int| 0 <= j < stmts@.len() ==> ss[j] == (#[trigger] stmts@[j])@,
                strings_model(functions@) == exported_items(ss.take(i as int)),
            decreases stmts@.len() - i,
        {
            assert(ss.take(i + 1).drop_last() =~= ss.take(i as int));
            match &stmts[i] {
                Statement::Export { item } => {
                    functions.push(item.clone());
                    assert(strings_model(functions@) =~= exported_items(ss.take(i as int)).push(item@));
                },
                Statement::Function { name, exported, .. } => {
                    if *exported {
                        functions.push(name.clone());
                        assert(strings_model(functions@) =~= exported_items(ss.take(i as int)).push(name@));
                    }
                },
                _ => {},
            }
            i = i + 1;
        }
        assert(ss.take(i as int) =~= ss);
        let res = ModuleExports { functions, types: Vec::new(), variables: Vec::new() };
        assert(res@.types =~= Seq::<Seq<char>>::empty());
        assert(res@.variables =~= Seq::<Seq<char>>::empty());
        res
    }

    /// Resolves the imports of `main_program` from statement `start` on, as
    /// [`resolve_from`] says: it stops at the first import whose module is
    /// not loaded and asks for that module (the caller loads it and resumes
    /// at the index returned).
    pub fn resolve_imports(&mut self, main_program: &Program, start: usize) -> (res: ImportStep)
        ensures
            res@ == resolve_from(
                old(self).modules(),
                old(self).exports(),
                old(self).resolved(),
                stmts_model(main_program.statements@),
                start as int,
            ).1,
            final(self).resolved() == resolve_from(
                old(self).modules(),
                old(self).exports(),
                old(self).resolved(),
                stmts_model(main_program.statements@),
                start as int,
            ).0,
            final(self).modules() == old(self).modules(),
            final(self).exports() == old(self).exports(),
    {
        let stmts = &main_program.statements;
        let ghost ss = stmts_model(stmts@);
        proof {
            crate::ast::lemma_stmts_model(stmts@);
        }
        let mut i: usize = start;
        while i < stmts.len()
            invariant
                start <= i,
                ss == stmts_model(stmts@),
                stmts@ == main_program.statements@,
                ss.len() == stmts@.len(),
                forall|j: int| 0 <= j < stmts@.len() ==> ss[j] == (#[trigger] stmts@[j])@,
                resolve_from(old(self).modules(), old(self).exports(), old(self).resolved(), ss, start as int)
                    == resolve_from(self.modules(), self.exports(), self.resolved(), ss, i as int),
                self.modules == old(self).modules,
                self.exports == old(self).exports,
            decreases stmts@.len() - i,
        {
            assert(ss[i as int] == stmts@[i as int]@);
            match &stmts[i] {
                Statement::Import { module_name, source_path, items } => {
                    if !self.is_loaded(source_path.as_str()) {
                        return ImportStep::Load { index: i, path: source_path.clone() };
                    }
                    let imported: Vec<String> = match items {
                        Some(names) => clone_strings(names),
                        None => match self.exports.get(source_path.as_str()) {
                            Some(e) => {
                                proof {
                                    lemma_map_values_get(self.exports@, |e: ModuleExports| e@, source_path@);
                                }
                                let mut all = clone_strings(&e.functions);
                                let more = clone_strings(&e.types);
                                let rest = clone_strings(&e.variables);
                                append_strings(&mut all, &more);
                                append_strings(&mut all, &rest);
                                all
                            },
                            None => {
                                proof {
                                    lemma_map_values_get(self.exports@, |e: ModuleExports| e@, source_path@);
                                }
                                let mut m = owned("Module '");
                                m.append(source_path.as_str());
                                m.append("' not found");
                                return ImportStep::Failed(m);
                            },
                        },
                    };
                    let key = match module_name {
                        Some(n) => {
                            let mut k = n.clone();
                            k.append(":");
                            k.append(source_path.as_str());
                            k
                        },
                        None => source_path.clone(),
                    };
                    proof {
                        lemma_map_values_get(self.exports@, |e: ModuleExports| e@, source_path@);
                        lemma_map_values_insert(
                            self.resolved_imports@,
                            |v: Vec<String>| strings_model(v@),
                            key@,
                            imported,
                        );
                    }
                    self.resolved_imports.insert(key, imported);
                },
                _ => {},
            }
            i = i + 1;
        }
        ImportStep::Done
    }

    /// The program loaded from `mod_path`, if any.
    pub fn get_module(&self, mod_path: &str) -> (res: Option<&Program>)
        ensures
            match res {
                Some(p) => assoc_get(self.modules(), mod_path@) == Some(stmts_model(p.statements@)),
                None => assoc_get(self.modules(), mod_path@) is None,
            },
    {
        proof {
            lemma_map_values_get(self.modules@, |p: Program| stmts_model(p.statements@), mod_path@);
        }
        self.modules.get(mod_path)
    }

    /// The exports of the module loaded from `mod_path`, if any.
    pub fn get_exports(&self, mod_path: &str) -> (res: Option<&ModuleExports>)
        ensures
            match res {
                Some(e) => assoc_get(self.exports(), mod_path@) == Some(e@),
                None => assoc_get(self.exports(), mod_path@) is None,
            },
    {
        proof {
            lemma_map_values_get(self.exports@, |e: ModuleExports| e@, mod_path@);
        }
        self.exports.get(mod_path)
    }

    /// The items recorded for a resolved import key, if any.
    pub fn get_resolved_import(&self, key: &str) -> (res: Option<&Vec<String>>)
        ensures
            match res {
                Some(v) => assoc_get(self.resolved(), key@) == Some(strings_model(v@)),
                None => assoc_get(self.resolved(), key@) is None,
            },
    {
        proof {
            lemma_map_values_get(self.resolved_imports@, |v: Vec<String>| strings_model(v@), key@);
        }
        self.resolved_imports.get(key)
    }

    /// Whether the function bodies of every loaded module compile, as
    /// compiling a program with its modules requires.
    pub fn modules_compile(&self) -> (res: bool)
        ensures
            res == modules_ok(self.modules()),
    {
        let ghost mods = self.modules();
        let mut k: usize = 0;
        while k < self.modules.len()
            invariant
                k <= self.modules@.len(),
                mods == self.modules(),
                mods.len() == self.modules@.len(),
                forall|j: int| 0 <= j < k ==> functions_ok(#[trigger] mods[j].1),
            decreases self.modules@.len() - k,
        {
            let (path, program) = self.modules.entry(k);
            assert(mods[k as int] == (path@, stmts_model(program.statements@)));
            if !functions_compile(&program.statements) {
                assert(!functions_ok(mods[k as int].1));
                return false;
            }
            k = k + 1;
        }
        true
    }

    /// Every function defined in a loaded module, with that module's path.
    pub fn get_all_functions(&self) -> (res: NameMap<String>)
        ensures
            text_entries(res@) == all_functions(self.modules()),
    {
        let ghost mods = self.modules();
        let mut res: NameMap<String> = NameMap::new();
        assert(text_entries(res@) =~= Seq::<(Seq<char>, Seq<char>)>::empty());
        let mut k: usize = 0;
        while k < self.modules.len()
            invariant
                k <= self.modules@.len(),
                mods == self.modules(),
                mods.len() == self.modules@.len(),
                text_entries(res@) == all_functions(mods.take(k as int)),
            decreases self.modules@.len() - k,
        {
            let (path, program) = self.modules.entry(k);
            assert(mods[k as int] == (path@, stmts_model(program.statements@)));
            assert(mods.take(k + 1).drop_last() =~= mods.take(k as int));
            let stmts = &program.statements;
            let ghost ss = stmts_model(stmts@);
            let ghost acc0 = text_entries(res@);
            proof {
                crate::ast::lemma_stmts_model(stmts@);
            }
            let mut i: usize = 0;
            while i < stmts.len()
                invariant
                    i <= stmts@.len(),
                    ss == stmts_model(stmts@),
                    ss.len() == stmts@.len(),
                    forall|j: int| 0 <= j < stmts@.len() ==> ss[j] == (#[trigger] stmts@[j])@,
                    text_entries(res@) == module_functions(acc0, path@, ss.take(i as int)),
                decreases stmts@.len() - i,
            {
                assert(ss.take(i + 1).drop_last() =~= ss.take(i as int));
                match &stmts[i] {
                    Statement::Function { name, .. } => {
                        let p = path.clone();
                        proof {
                            lemma_text_entries_insert(res@, name@, p);
                        }
                        res.insert(name.clone(), p);
                    },
                    _ => {},
                }
                i = i + 1;
            }
            assert(ss.take(i as int) =~= ss);
            k = k + 1;
        }
        assert(mods.take(k as int) =~= mods);
        res
    }
}

/// A copy of a list of strings.
fn clone_strings(v: &Vec<String>) -> (res: Vec<String>)
    ensures
        strings_model(res@) == strings_model(v@),
{
    let mut res: Vec<String> = Vec::new();
    let mut i: usize = 0;
    while i < v.len()
        invariant
            i <= v@.len(),
            res@.len() == i,
            forall|j: int| 0 <= j < i ==> (#[trigger] res@[j])@ == v@[j]@,
        decreases v@.len() - i,
    {
        res.push(v[i].clone());
        i = i + 1;
    }
    assert(strings_model(res@) =~= strings_model(v@));
    res
}

/// Appends copies of `more` to `v`.
fn append_strings(v: &mut Vec<String>, more: &Vec<String>)
    ensures
        strings_model(final(v)@) == strings_model(old(v)@) + strings_model(more@),
{
    let mut i: usize = 0;
    while i < more.len()
        invariant
            i <= more@.len(),
            v@.len() == old(v)@.len() + i,
            forall|j: int| 0 <= j < old(v)@.len() ==> (#[trigger] v@[j]) == old(v)@[j],
            forall|j: int| 0 <= j < i ==> (#[trigger] v@[old(v)@.len() + j])@ == more@[j]@,
        decreases more@.len() - i,
    {
        v.push(more[i].clone());
        i = i + 1;
    }
    assert forall|j: int| 0 <= j < v@.len() implies (#[trigger] strings_model(v@)[j]) == (strings_model(old(v)@)
        + strings_model(more@))[j] by {
        if j >= old(v)@.len() {
            assert(v@[old(v)@.len() + (j - old(v)@.len())] == v@[j]);
        }
    }
    assert(strings_model(v@) =~= strings_model(old(v)@) + strings_model(more@));
}

} // verus!
