//! Scoped symbol table: which names are declared in which scope.
use vstd::prelude::*;
use crate::ast::{clone_opt_type, clone_type, clone_types, opt_type_model, type_model, types_model, SpecType, Type};
use crate::error::{CompileError, ParseError, SourceLocation};
use crate::name_map::{assoc_get, assoc_index, assoc_insert, lemma_assoc_index, lemma_assoc_insert, lemma_text_entries_insert, text_entries, NameMap};
use crate::text::owned;

verus! {

pub type ScopeId = usize;

pub type SymbolId = usize;

#[derive(Debug)]
pub enum SymbolKind {
    Variable { mutable: bool, initialized: bool },
    Function { params: Vec<Type>, return_type: Option<Type> },
    Type { definition: Type },
    Parameter,
    Import { source_path: String },
}

#[derive(Debug)]
pub struct Symbol {
    pub name: String,
    pub symbol_type: Type,
    pub kind: SymbolKind,
    pub scope_id: ScopeId,
    pub declared_at: Option<SourceLocation>,
    pub used: bool,
}

#[derive(Debug)]
pub enum ScopeKind {
    Global,
    Function { name: String },
    Block,
    ForLoop,
    IfStatement,
    Module { path: String },
}

/// A scope. `symbols` holds each name declared in it with its symbol id;
/// no name occurs twice.
#[derive(Debug)]
pub struct Scope {
    pub id: ScopeId,
    pub kind: ScopeKind,
    pub parent: Option<ScopeId>,
    pub children: Vec<ScopeId>,
    pub symbols: NameMap<SymbolId>,
    pub depth: usize,
}

// ---------------------------------------------------------------------------
// Models
// ---------------------------------------------------------------------------

pub enum SpecSymbolKind {
    Variable { mutable: bool, initialized: bool },
    Function { params: Seq<SpecType>, return_type: Option<SpecType> },
    Type { definition: SpecType },
    Parameter,
    Import { source_path: Seq<char> },
}

pub struct SpecSymbol {
    pub name: Seq<char>,
    pub symbol_type: SpecType,
    pub kind: SpecSymbolKind,
    pub scope_id: ScopeId,
    pub declared_at: Option<SourceLocation>,
    pub used: bool,
}

pub enum SpecScopeKind {
    Global,
    Function { name: Seq<char> },
    Block,
    ForLoop,
    IfStatement,
    Module { path: Seq<char> },
}

pub struct SpecScope {
    pub id: ScopeId,
    pub kind: SpecScopeKind,
    pub parent: Option<ScopeId>,
    pub children: Seq<ScopeId>,
    pub symbols: Seq<(Seq<char>, SymbolId)>,
    pub depth: usize,
}

pub struct SpecSymbolTable {
    pub scopes: Seq<SpecScope>,
    pub symbols: Seq<SpecSymbol>,
    pub current_scope: ScopeId,
    pub global_scope: ScopeId,
    pub next_scope_id: ScopeId,
    pub next_symbol_id: SymbolId,
}

pub open spec fn kind_model(k: SymbolKind) -> SpecSymbolKind {
    match k {
        SymbolKind::Variable { mutable, initialized } => SpecSymbolKind::Variable {
            mutable,
            initialized,
        },
        SymbolKind::Function { params, return_type } => SpecSymbolKind::Function {
            params: types_model(params@),
            return_type: opt_type_model(return_type),
        },
        SymbolKind::Type { definition } => SpecSymbolKind::Type { definition: type_model(definition) },
        SymbolKind::Parameter => SpecSymbolKind::Parameter,
        SymbolKind::Import { source_path } => SpecSymbolKind::Import { source_path: source_path@ },
    }
}

impl View for SymbolKind {
    type V = SpecSymbolKind;

    open spec fn view(&self) -> SpecSymbolKind {
        kind_model(*self)
    }
}

impl View for Symbol {
    type V = SpecSymbol;

    open spec fn view(&self) -> SpecSymbol {
        SpecSymbol {
            name: self.name@,
            symbol_type: self.symbol_type@,
            kind: self.kind@,
            scope_id: self.scope_id,
            declared_at: self.declared_at,
            used: self.used,
        }
    }
}

impl View for ScopeKind {
    type V = SpecScopeKind;

    open spec fn view(&self) -> SpecScopeKind {
        match *self {
            ScopeKind::Global => SpecScopeKind::Global,
            ScopeKind::Function { name } => SpecScopeKind::Function { name: name@ },
            ScopeKind::Block => SpecScopeKind::Block,
            ScopeKind::ForLoop => SpecScopeKind::ForLoop,
            ScopeKind::IfStatement => SpecScopeKind::IfStatement,
            ScopeKind::Module { path } => SpecScopeKind::Module { path: path@ },
        }
    }
}

impl View for Scope {
    type V = SpecScope;

    open spec fn view(&self) -> SpecScope {
        SpecScope {
            id: self.id,
            kind: self.kind@,
            parent: self.parent,
            children: self.children@,
            symbols: self.symbols@,
            depth: self.depth,
        }
    }
}

impl Scope {
    pub fn new(id: ScopeId, kind: ScopeKind, parent: Option<ScopeId>) -> (res: Self)
        ensures
            res@ == (SpecScope {
                id,
                kind: kind@,
                parent,
                children: Seq::empty(),
                symbols: Seq::empty(),
                depth: if parent is Some { 1 } else { 0 },
            }),
    {
        let depth: usize = match parent {
            Some(_) => 1,
            None => 0,
        };
        Self { id, kind, parent, children: Vec::new(), symbols: NameMap::new(), depth }
    }

    pub fn add_child(&mut self, child_id: ScopeId)
        ensures
            final(self)@ == (SpecScope { children: old(self)@.children.push(child_id), ..old(self)@ }),
    {
        self.children.push(child_id);
    }

    /// Adds `name`; fails, changing nothing, when the scope already has it.
    pub fn add_symbol(&mut self, name: String, symbol_id: SymbolId) -> (res: Result<(), String>)
        ensures
            assoc_get(old(self)@.symbols, name@) is Some ==> res is Err && final(self)@ == old(self)@,
            assoc_get(old(self)@.symbols, name@) is None ==> res is Ok && final(self)@ == (SpecScope {
                symbols: old(self)@.symbols.push((name@, symbol_id)),
                ..old(self)@
            }),
            res matches Err(m) ==> m@ == "Symbol '"@ + name@ + "' is already defined in this scope"@,
    {
        if self.symbols.contains_key(name.as_str()) {
            let mut m = owned("Symbol '");
            m.append(name.as_str());
            m.append("' is already defined in this scope");
            return Err(m);
        }
        proof {
            lemma_assoc_index(self@.symbols, name@);
        }
        self.symbols.insert(name, symbol_id);
        Ok(())
    }

    pub fn get_symbol(&self, name: &str) -> (res: Option<SymbolId>)
        ensures
            res == assoc_get(self@.symbols, name@),
    {
        match self.symbols.get(name) {
            Some(id) => Some(*id),
            None => None,
        }
    }
}

/// The table's constant "function" type name for function symbols.
pub open spec fn function_symbol_type() -> SpecType {
    SpecType::Custom("function"@)
}

impl Symbol {
    pub fn new_variable(
        name: String,
        symbol_type: Type,
        mutable: bool,
        scope_id: ScopeId,
        location: Option<SourceLocation>,
    ) -> (res: Self)
        ensures
            res@ == (SpecSymbol {
                name: name@,
                symbol_type: symbol_type@,
                kind: SpecSymbolKind::Variable { mutable, initialized: false },
                scope_id,
                declared_at: location,
                used: false,
            }),
    {
        Self {
            name,
            symbol_type,
            kind: SymbolKind::Variable { mutable, initialized: false },
            scope_id,
            declared_at: location,
            used: false,
        }
    }

    pub fn new_function(
        name: String,
        params: Vec<Type>,
        return_type: Option<Type>,
        scope_id: ScopeId,
        location: Option<SourceLocation>,
    ) -> (res: Self)
        ensures
            res@ == (SpecSymbol {
                name: name@,
                symbol_type: function_symbol_type(),
                kind: SpecSymbolKind::Function {
                    params: types_model(params@),
                    return_type: opt_type_model(return_type),
                },
                scope_id,
                declared_at: location,
                used: false,
            }),
    {
        Self {
            name,
            symbol_type: Type::Custom(owned("function")),
            kind: SymbolKind::Function { params, return_type },
            scope_id,
            declared_at: location,
            used: false,
        }
    }

    pub fn new_type(
        name: String,
        definition: Type,
        scope_id: ScopeId,
        location: Option<SourceLocation>,
    ) -> (res: Self)
        ensures
            res@ == (SpecSymbol {
                name: name@,
                symbol_type: definition@,
                kind: SpecSymbolKind::Type { definition: definition@ },
                scope_id,
                declared_at: location,
                used: false,
            }),
    {
        let symbol_type = clone_type(&definition);
        Self {
            name,
            symbol_type,
            kind: SymbolKind::Type { definition },
            scope_id,
            declared_at: location,
            used: false,
        }
    }

    pub fn new_parameter(
        name: String,
        symbol_type: Type,
        scope_id: ScopeId,
        location: Option<SourceLocation>,
    ) -> (res: Self)
        ensures
            res@ == (SpecSymbol {
                name: name@,
                symbol_type: symbol_type@,
                kind: SpecSymbolKind::Parameter,
                scope_id,
                declared_at: location,
                used: false,
            }),
    {
        Self {
            name,
            symbol_type,
            kind: SymbolKind::Parameter,
            scope_id,
            declared_at: location,
            used: false,
        }
    }

    pub fn is_mutable(&self) -> (res: bool)
        ensures
            res == spec_is_mutable(self@),
    {
        match &self.kind {
            SymbolKind::Variable { mutable, .. } => *mutable,
            _ => false,
        }
    }

    pub fn is_initialized(&self) -> (res: bool)
        ensures
            res == spec_is_initialized(self@),
    {
        match &self.kind {
            SymbolKind::Variable { initialized, .. } => *initialized,
            SymbolKind::Parameter => true,
            SymbolKind::Function { .. } => true,
            SymbolKind::Type { .. } => true,
            SymbolKind::Import { .. } => true,
        }
    }

    pub fn mark_initialized(&mut self)
        ensures
            final(self)@ == spec_mark_initialized(old(self)@),
    {
        match &mut self.kind {
            SymbolKind::Variable { mutable: _, initialized } => {
                *initialized = true;
            },
            _ => {},
        }
    }

    pub fn mark_used(&mut self)
        ensures
            final(self)@ == (SpecSymbol { used: true, ..old(self)@ }),
    {
        self.used = true;
    }
}

/// Only a mutable variable is mutable.
pub open spec fn spec_is_mutable(s: SpecSymbol) -> bool {
    match s.kind {
        SpecSymbolKind::Variable { mutable, .. } => mutable,
        _ => false,
    }
}

/// A variable is initialized once marked so; every other symbol always is.
pub open spec fn spec_is_initialized(s: SpecSymbol) -> bool {
    match s.kind {
        SpecSymbolKind::Variable { initialized, .. } => initialized,
        _ => true,
    }
}

/// A variable marked initialized; other symbols unchanged.
pub open spec fn spec_mark_initialized(s: SpecSymbol) -> SpecSymbol {
    match s.kind {
        SpecSymbolKind::Variable { mutable, .. } => SpecSymbol {
            kind: SpecSymbolKind::Variable { mutable, initialized: true },
            ..s
        },
        _ => s,
    }
}

// ---------------------------------------------------------------------------
// The table
// ---------------------------------------------------------------------------

/// The symbol table: all scopes ever entered, all symbols ever declared, and
/// the scope that declarations currently go to.
#[derive(Debug)]
pub struct SymbolTable {
    scopes: Vec<Scope>,
    symbols: Vec<Symbol>,
    current_scope: ScopeId,
    global_scope: ScopeId,
    next_scope_id: ScopeId,
    next_symbol_id: SymbolId,
}

/// The shape every table keeps: scope `i` sits at position `i`, the global
/// scope is scope 0 and has no parent, every other scope's parent was created
/// before it, depths stay below ids, and the current scope exists.
pub open spec fn spec_wf(st: SpecSymbolTable) -> bool {
    &&& st.scopes.len() >= 1
    &&& st.global_scope == 0
    &&& st.current_scope < st.scopes.len()
    &&& st.next_scope_id == st.scopes.len()
    &&& st.scopes[0].parent is None
    &&& forall|i: int|
        0 <= i < st.scopes.len() ==> {
            &&& (#[trigger] st.scopes[i]).id == i
            &&& st.scopes[i].depth <= i
            &&& (i > 0 ==> (st.scopes[i].parent matches Some(p) && p < i))
        }
}

/// The table that `SymbolTable::new` makes: one global scope, no symbols.
pub open spec fn spec_new_table() -> SpecSymbolTable {
    SpecSymbolTable {
        scopes: seq![SpecScope {
            id: 0,
            kind: SpecScopeKind::Global,
            parent: None,
            children: Seq::empty(),
            symbols: Seq::empty(),
            depth: 0,
        }],
        symbols: Seq::empty(),
        current_scope: 0,
        global_scope: 0,
        next_scope_id: 1,
        next_symbol_id: 0,
    }
}

/// The table after entering a new scope of the given kind, below the current one.
pub open spec fn spec_enter_scope(st: SpecSymbolTable, kind: SpecScopeKind) -> SpecSymbolTable {
    let id = st.next_scope_id;
    let cur = st.current_scope;
    let parent_scope = st.scopes[cur as int];
    SpecSymbolTable {
        scopes: st.scopes.update(
            cur as int,
            SpecScope { children: parent_scope.children.push(id), ..parent_scope },
        ).push(
            SpecScope {
                id,
                kind,
                parent: Some(cur),
                children: Seq::empty(),
                symbols: Seq::empty(),
                depth: (parent_scope.depth + 1) as usize,
            },
        ),
        current_scope: id,
        next_scope_id: (id + 1) as usize,
        ..st
    }
}

/// Result of leaving the current scope: its parent becomes current; the
/// global scope cannot be left.
pub open spec fn spec_exit_scope(st: SpecSymbolTable) -> (SpecSymbolTable, Result<ScopeId, Seq<char>>) {
    if st.current_scope == st.global_scope {
        (st, Err("Cannot exit global scope"@))
    } else {
        match st.scopes[st.current_scope as int].parent {
            Some(p) => (SpecSymbolTable { current_scope: p, ..st }, Ok(p)),
            None => (st, Err("Current scope has no parent"@)),
        }
    }
}

/// Result of declaring `sym` under `name` in the current scope. The next id
/// is used up either way; the declaration fails when the current scope
/// already holds the name.
pub open spec fn spec_declare(st: SpecSymbolTable, name: Seq<char>, sym: SpecSymbol) -> (SpecSymbolTable, Option<SymbolId>) {
    let id = st.next_symbol_id;
    let cur = st.current_scope as int;
    let st1 = SpecSymbolTable { next_symbol_id: (id + 1) as usize, ..st };
    if assoc_get(st.scopes[cur].symbols, name) is Some {
        (st1, None)
    } else {
        (
            SpecSymbolTable {
                scopes: st.scopes.update(
                    cur,
                    SpecScope { symbols: st.scopes[cur].symbols.push((name, id)), ..st.scopes[cur] },
                ),
                symbols: st.symbols.push(sym),
                ..st1
            },
            Some(id),
        )
    }
}

/// The id that `name` resolves to from scope `sid`: the innermost scope on
/// the way to the global scope that declares it.
pub open spec fn spec_lookup_from(scopes: Seq<SpecScope>, sid: ScopeId, name: Seq<char>) -> Option<SymbolId>
    decreases sid,
{
    if sid >= scopes.len() {
        None
    } else {
        match assoc_get(scopes[sid as int].symbols, name) {
            Some(id) => Some(id),
            None => match scopes[sid as int].parent {
                Some(p) => if p < sid {
                    spec_lookup_from(scopes, p, name)
                } else {
                    None
                },
                None => None,
            },
        }
    }
}

pub open spec fn spec_lookup(st: SpecSymbolTable, name: Seq<char>) -> Option<SymbolId> {
    spec_lookup_from(st.scopes, st.current_scope, name)
}

/// The message of a failed declaration.
pub open spec fn spec_redeclared_message(name: Seq<char>) -> Seq<char> {
    "Symbol '"@ + name + "' is already defined in this scope"@
}

/// Whether `e` is the error that a failed declaration of `name` at `location` reports.
pub open spec fn is_redeclaration_error(e: CompileError, name: Seq<char>, location: Option<SourceLocation>) -> bool {
    e matches CompileError::ParseError(ParseError::InvalidSyntax { message, location: l })
        && message@ == spec_redeclared_message(name) && l == location
}

impl View for SymbolTable {
    type V = SpecSymbolTable;

    closed spec fn view(&self) -> SpecSymbolTable {
        SpecSymbolTable {
            scopes: Seq::new(self.scopes@.len(), |i: int| self.scopes@[i]@),
            symbols: Seq::new(self.symbols@.len(), |i: int| self.symbols@[i]@),
            current_scope: self.current_scope,
            global_scope: self.global_scope,
            next_scope_id: self.next_scope_id,
            next_symbol_id: self.next_symbol_id,
        }
    }
}

impl SymbolTable {
    pub fn new() -> (res: Self)
        ensures
            res@ == spec_new_table(),
            spec_wf(res@),
    {
        let mut symbol_table = Self {
            scopes: Vec::new(),
            symbols: Vec::new(),
            current_scope: 0,
            global_scope: 0,
            next_scope_id: 0,
            next_symbol_id: 0,
        };
        let global_scope = Scope::new(0, ScopeKind::Global, None);
        symbol_table.scopes.push(global_scope);
        symbol_table.next_scope_id = 1;
        assert(symbol_table@.scopes =~= spec_new_table().scopes);
        assert(symbol_table@.symbols =~= spec_new_table().symbols);
        symbol_table
    }

    /// Enters a new scope below the current one and makes it current.
    pub fn enter_scope(&mut self, kind: ScopeKind) -> (res: ScopeId)
        requires
            spec_wf(old(self)@),
            old(self)@.next_scope_id < usize::MAX,
        ensures
            res == old(self)@.next_scope_id,
            final(self)@ == spec_enter_scope(old(self)@, kind@),
            spec_wf(final(self)@),
    {
        let ghost old_view = self@;
        let ghost k = kind@;
        let scope_id = self.next_scope_id;
        self.next_scope_id = self.next_scope_id + 1;
        let cur = self.current_scope;
        assert(self.scopes@[cur as int]@ == old_view.scopes[cur as int]);
        let parent_depth = self.scopes[cur].depth;
        let mut new_scope = Scope::new(scope_id, kind, Some(cur));
        new_scope.depth = parent_depth + 1;
        self.scopes[cur].add_child(scope_id);
        self.scopes.push(new_scope);
        self.current_scope = scope_id;
        let ghost expected = spec_enter_scope(old_view, k);
        assert(self@.scopes =~= expected.scopes);
        assert(self@.symbols =~= expected.symbols);
        scope_id
    }

    /// Makes the parent of the current scope current again.
    pub fn exit_scope(&mut self) -> (res: Result<ScopeId, CompileError>)
        requires
            spec_wf(old(self)@),
        ensures
            final(self)@ == spec_exit_scope(old(self)@).0,
            spec_wf(final(self)@),
            match (res, spec_exit_scope(old(self)@).1) {
                (Ok(p), Ok(q)) => p == q,
                (Err(CompileError::CodegenError(m)), Err(n)) => m@ == n,
                _ => false,
            },
    {
        if self.current_scope == self.global_scope {
            return Err(CompileError::CodegenError(owned("Cannot exit global scope")));
        }
        let cur = self.current_scope;
        assert(self.scopes@[cur as int]@ == self@.scopes[cur as int]);
        match self.scopes[cur].parent {
            Some(parent) => {
                self.current_scope = parent;
                assert(self@.scopes =~= old(self)@.scopes);
                assert(self@.symbols =~= old(self)@.symbols);
                Ok(parent)
            },
            None => Err(CompileError::CodegenError(owned("Current scope has no parent"))),
        }
    }

    pub fn current_scope(&self) -> (res: ScopeId)
        ensures
            res == self@.current_scope,
    {
        self.current_scope
    }

    pub fn global_scope(&self) -> (res: ScopeId)
        ensures
            res == self@.global_scope,
    {
        self.global_scope
    }

    /// The id the next declaration will use.
    pub(crate) fn next_symbol_id(&self) -> (res: SymbolId)
        ensures
            res == self@.next_symbol_id,
    {
        self.next_symbol_id
    }

    /// Number of scopes entered so far, the global one included.
    pub fn scope_count(&self) -> (res: usize)
        ensures
            res == self@.scopes.len(),
    {
        self.scopes.len()
    }

    pub fn get_scope(&self, id: ScopeId) -> (res: Option<&Scope>)
        ensures
            match res {
                Some(s) => id < self@.scopes.len() && s@ == self@.scopes[id as int],
                None => id >= self@.scopes.len(),
            },
    {
        if id < self.scopes.len() {
            Some(&self.scopes[id])
        } else {
            None
        }
    }

    /// Mutable access to a scope. Whatever the caller does through it is
    /// what the table holds afterwards at that position.
    pub fn get_scope_mut(&mut self, id: ScopeId) -> (res: Option<&mut Scope>)
        ensures
            match res {
                Some(s) => {
                    &&& id < old(self)@.scopes.len()
                    &&& s@ == old(self)@.scopes[id as int]
                    &&& final(self)@.scopes =~= old(self)@.scopes.update(id as int, final(s)@)
                    &&& final(self)@.symbols == old(self)@.symbols
                    &&& final(self)@.current_scope == old(self)@.current_scope
                    &&& final(self)@.global_scope == old(self)@.global_scope
                    &&& final(self)@.next_scope_id == old(self)@.next_scope_id
                    &&& final(self)@.next_symbol_id == old(self)@.next_symbol_id
                },
                None => id >= old(self)@.scopes.len() && final(self)@ == old(self)@,
            },
    {
        if id < self.scopes.len() {
            Some(&mut self.scopes[id])
        } else {
            None
        }
    }

    pub fn get_symbol(&self, id: SymbolId) -> (res: Option<&Symbol>)
        ensures
            match res {
                Some(s) => id < self@.symbols.len() && s@ == self@.symbols[id as int],
                None => id >= self@.symbols.len(),
            },
    {
        if id < self.symbols.len() {
            Some(&self.symbols[id])
        } else {
            None
        }
    }

    /// Mutable access to a symbol. Whatever the caller does through it is
    /// what the table holds afterwards at that position.
    pub fn get_symbol_mut(&mut self, id: SymbolId) -> (res: Option<&mut Symbol>)
        ensures
            match res {
                Some(s) => {
                    &&& id < old(self)@.symbols.len()
                    &&& s@ == old(self)@.symbols[id as int]
                    &&& final(self)@.symbols =~= old(self)@.symbols.update(id as int, final(s)@)
                    &&& final(self)@.scopes == old(self)@.scopes
                    &&& final(self)@.current_scope == old(self)@.current_scope
                    &&& final(self)@.global_scope == old(self)@.global_scope
                    &&& final(self)@.next_scope_id == old(self)@.next_scope_id
                    &&& final(self)@.next_symbol_id == old(self)@.next_symbol_id
                },
                None => id >= old(self)@.symbols.len() && final(self)@ == old(self)@,
            },
    {
        if id < self.symbols.len() {
            Some(&mut self.symbols[id])
        } else {
            None
        }
    }
}

/// Ids (positions) of the symbols that were never used, functions excepted.
pub open spec fn spec_unused(syms: Seq<SpecSymbol>) -> Seq<usize>
    decreases syms.len(),
{
    if syms.len() == 0 {
        Seq::empty()
    } else {
        let last = syms[syms.len() - 1];
        let rest = spec_unused(syms.subrange(0, syms.len() - 1));
        if !last.used && !(last.kind is Function) {
            rest.push((syms.len() - 1) as usize)
        } else {
            rest
        }
    }
}

/// Ids (positions) of the symbols that are not initialized.
pub open spec fn spec_uninitialized(syms: Seq<SpecSymbol>) -> Seq<usize>
    decreases syms.len(),
{
    if syms.len() == 0 {
        Seq::empty()
    } else {
        let last = syms[syms.len() - 1];
        let rest = spec_uninitialized(syms.subrange(0, syms.len() - 1));
        if !spec_is_initialized(last) {
            rest.push((syms.len() - 1) as usize)
        } else {
            rest
        }
    }
}

/// The C spelling that the legacy variable list gives a symbol's type.
pub open spec fn spec_legacy_type(t: SpecType) -> Seq<char> {
    match t {
        SpecType::Integer => "int"@,
        SpecType::String => "char*"@,
        SpecType::Bool => "bool"@,
        SpecType::Custom(n) => n,
        _ => "unknown"@,
    }
}

/// Variables and parameters by name, with their C types; a later symbol of
/// the same name replaces an earlier one.
pub open spec fn spec_legacy(syms: Seq<SpecSymbol>) -> Seq<(Seq<char>, Seq<char>)>
    decreases syms.len(),
{
    if syms.len() == 0 {
        Seq::empty()
    } else {
        let last = syms[syms.len() - 1];
        let rest = spec_legacy(syms.subrange(0, syms.len() - 1));
        if last.kind is Variable || last.kind is Parameter {
            assoc_insert(rest, last.name, spec_legacy_type(last.symbol_type))
        } else {
            rest
        }
    }
}

impl SymbolTable {
    fn declare_symbol(&mut self, name: String, symbol: Symbol, location: Option<SourceLocation>) -> (res: Result<SymbolId, CompileError>)
        requires
            spec_wf(old(self)@),
            old(self)@.next_symbol_id < usize::MAX,
        ensures
            final(self)@ == spec_declare(old(self)@, name@, symbol@).0,
            spec_wf(final(self)@),
            match res {
                Ok(id) => spec_declare(old(self)@, name@, symbol@).1 == Some(id),
                Err(e) => spec_declare(old(self)@, name@, symbol@).1 is None
                    && is_redeclaration_error(e, name@, location),
            },
    {
        let ghost old_view = self@;
        let ghost n = name@;
        let ghost sym = symbol@;
        let symbol_id = self.next_symbol_id;
        self.next_symbol_id = self.next_symbol_id + 1;
        let cur = self.current_scope;
        assert(self.scopes@[cur as int]@ == old_view.scopes[cur as int]);
        match self.scopes[cur].add_symbol(name, symbol_id) {
            Ok(()) => {},
            Err(e) => {
                assert(self@.scopes =~= old_view.scopes);
                assert(self@.symbols =~= old_view.symbols);
                return Err(CompileError::ParseError(ParseError::InvalidSyntax { message: e, location }));
            },
        }
        self.symbols.push(symbol);
        let ghost expected = spec_declare(old_view, n, sym).0;
        assert(self@.scopes =~= expected.scopes);
        assert(self@.symbols =~= expected.symbols);
        Ok(symbol_id)
    }

    /// Declares a variable in the current scope.
    pub fn declare_variable(
        &mut self,
        name: String,
        symbol_type: Type,
        mutable: bool,
        location: Option<SourceLocation>,
    ) -> (res: Result<SymbolId, CompileError>)
        requires
            spec_wf(old(self)@),
            old(self)@.next_symbol_id < usize::MAX,
        ensures
            ({
                let sym = SpecSymbol {
                    name: name@,
                    symbol_type: symbol_type@,
                    kind: SpecSymbolKind::Variable { mutable, initialized: false },
                    scope_id: old(self)@.current_scope,
                    declared_at: location,
                    used: false,
                };
                &&& final(self)@ == spec_declare(old(self)@, name@, sym).0
                &&& match res {
                    Ok(id) => spec_declare(old(self)@, name@, sym).1 == Some(id),
                    Err(e) => spec_declare(old(self)@, name@, sym).1 is None
                        && is_redeclaration_error(e, name@, location),
                }
            }),
            spec_wf(final(self)@),
    {
        let symbol = Symbol::new_variable(name.clone(), symbol_type, mutable, self.current_scope, location);
        self.declare_symbol(name, symbol, location)
    }

    /// Declares a function in the current scope.
    pub fn declare_function(
        &mut self,
        name: String,
        params: Vec<Type>,
        return_type: Option<Type>,
        location: Option<SourceLocation>,
    ) -> (res: Result<SymbolId, CompileError>)
        requires
            spec_wf(old(self)@),
            old(self)@.next_symbol_id < usize::MAX,
        ensures
            ({
                let sym = SpecSymbol {
                    name: name@,
                    symbol_type: function_symbol_type(),
                    kind: SpecSymbolKind::Function {
                        params: types_model(params@),
                        return_type: opt_type_model(return_type),
                    },
                    scope_id: old(self)@.current_scope,
                    declared_at: location,
                    used: false,
                };
                &&& final(self)@ == spec_declare(old(self)@, name@, sym).0
                &&& match res {
                    Ok(id) => spec_declare(old(self)@, name@, sym).1 == Some(id),
                    Err(e) => spec_declare(old(self)@, name@, sym).1 is None
                        && is_redeclaration_error(e, name@, location),
                }
            }),
            spec_wf(final(self)@),
    {
        let symbol = Symbol::new_function(name.clone(), params, return_type, self.current_scope, location);
        self.declare_symbol(name, symbol, location)
    }

    /// Declares a named type in the current scope.
    pub fn declare_type(
        &mut self,
        name: String,
        definition: Type,
        location: Option<SourceLocation>,
    ) -> (res: Result<SymbolId, CompileError>)
        requires
            spec_wf(old(self)@),
            old(self)@.next_symbol_id < usize::MAX,
        ensures
            ({
                let sym = SpecSymbol {
                    name: name@,
                    symbol_type: definition@,
                    kind: SpecSymbolKind::Type { definition: definition@ },
                    scope_id: old(self)@.current_scope,
                    declared_at: location,
                    used: false,
                };
                &&& final(self)@ == spec_declare(old(self)@, name@, sym).0
                &&& match res {
                    Ok(id) => spec_declare(old(self)@, name@, sym).1 == Some(id),
                    Err(e) => spec_declare(old(self)@, name@, sym).1 is None
                        && is_redeclaration_error(e, name@, location),
                }
            }),
            spec_wf(final(self)@),
    {
        let symbol = Symbol::new_type(name.clone(), definition, self.current_scope, location);
        self.declare_symbol(name, symbol, location)
    }

    /// Declares a function parameter in the current scope.
    pub fn declare_parameter(
        &mut self,
        name: String,
        symbol_type: Type,
        location: Option<SourceLocation>,
    ) -> (res: Result<SymbolId, CompileError>)
        requires
            spec_wf(old(self)@),
            old(self)@.next_symbol_id < usize::MAX,
        ensures
            ({
                let sym = SpecSymbol {
                    name: name@,
                    symbol_type: symbol_type@,
                    kind: SpecSymbolKind::Parameter,
                    scope_id: old(self)@.current_scope,
                    declared_at: location,
                    used: false,
                };
                &&& final(self)@ == spec_declare(old(self)@, name@, sym).0
                &&& match res {
                    Ok(id) => spec_declare(old(self)@, name@, sym).1 == Some(id),
                    Err(e) => spec_declare(old(self)@, name@, sym).1 is None
                        && is_redeclaration_error(e, name@, location),
                }
            }),
            spec_wf(final(self)@),
    {
        let symbol = Symbol::new_parameter(name.clone(), symbol_type, self.current_scope, location);
        self.declare_symbol(name, symbol, location)
    }

    /// Looks a name up from the current scope outwards to the global scope.
    pub fn lookup(&self, name: &str) -> (res: Option<SymbolId>)
        requires
            spec_wf(self@),
        ensures
            res == spec_lookup(self@, name@),
    {
        let mut current_scope_id = self.current_scope;
        loop
            invariant
                spec_wf(self@),
                current_scope_id < self@.scopes.len(),
                spec_lookup(self@, name@) == spec_lookup_from(self@.scopes, current_scope_id, name@),
            decreases current_scope_id,
        {
            let scope = &self.scopes[current_scope_id];
            assert(scope@ == self@.scopes[current_scope_id as int]);
            match scope.get_symbol(name) {
                Some(symbol_id) => {
                    return Some(symbol_id);
                },
                None => {},
            }
            match scope.parent {
                Some(parent_id) => {
                    assert(current_scope_id > 0);
                    current_scope_id = parent_id;
                },
                None => {
                    return None;
                },
            }
        }
    }

    /// Looks a name up in the current scope only.
    pub fn lookup_current_scope(&self, name: &str) -> (res: Option<SymbolId>)
        requires
            spec_wf(self@),
        ensures
            res == assoc_get(self@.scopes[self@.current_scope as int].symbols, name@),
    {
        let scope = &self.scopes[self.current_scope];
        assert(scope@ == self@.scopes[self@.current_scope as int]);
        scope.get_symbol(name)
    }

    /// Marks a symbol as used; an unknown id changes nothing.
    pub fn use_symbol(&mut self, symbol_id: SymbolId)
        ensures
            symbol_id < old(self)@.symbols.len() ==> final(self)@ == (SpecSymbolTable {
                symbols: old(self)@.symbols.update(
                    symbol_id as int,
                    SpecSymbol { used: true, ..old(self)@.symbols[symbol_id as int] },
                ),
                ..old(self)@
            }),
            symbol_id >= old(self)@.symbols.len() ==> final(self)@ == old(self)@,
    {
        if symbol_id < self.symbols.len() {
            let ghost old_view = self@;
            self.symbols[symbol_id].mark_used();
            assert(self@.symbols =~= old_view.symbols.update(
                symbol_id as int,
                SpecSymbol { used: true, ..old_view.symbols[symbol_id as int] },
            ));
            assert(self@.scopes =~= old_view.scopes);
        }
    }

    /// Marks a variable as initialized; other symbols and unknown ids change nothing.
    pub fn initialize_symbol(&mut self, symbol_id: SymbolId)
        ensures
            symbol_id < old(self)@.symbols.len() ==> final(self)@ == (SpecSymbolTable {
                symbols: old(self)@.symbols.update(
                    symbol_id as int,
                    spec_mark_initialized(old(self)@.symbols[symbol_id as int]),
                ),
                ..old(self)@
            }),
            symbol_id >= old(self)@.symbols.len() ==> final(self)@ == old(self)@,
    {
        if symbol_id < self.symbols.len() {
            let ghost old_view = self@;
            self.symbols[symbol_id].mark_initialized();
            assert(self@.symbols =~= old_view.symbols.update(
                symbol_id as int,
                spec_mark_initialized(old_view.symbols[symbol_id as int]),
            ));
            assert(self@.scopes =~= old_view.scopes);
        }
    }

    /// The ids declared in a scope, in declaration order; none for an unknown scope.
    pub fn get_symbols_in_scope(&self, scope_id: ScopeId) -> (res: Vec<SymbolId>)
        ensures
            scope_id < self@.scopes.len() ==> res@ == Seq::new(
                self@.scopes[scope_id as int].symbols.len(),
                |i: int| self@.scopes[scope_id as int].symbols[i].1,
            ),
            scope_id >= self@.scopes.len() ==> res@.len() == 0,
    {
        let mut res: Vec<SymbolId> = Vec::new();
        if scope_id < self.scopes.len() {
            let scope = &self.scopes[scope_id];
            assert(scope@ == self@.scopes[scope_id as int]);
            let n = scope.symbols.len();
            let mut i: usize = 0;
            while i < n
                invariant
                    i <= n,
                    n == scope@.symbols.len(),
                    res@ =~= Seq::new(i as nat, |j: int| scope@.symbols[j].1),
                decreases n - i,
            {
                let (_, id) = scope.symbols.entry(i);
                res.push(*id);
                i = i + 1;
            }
        }
        res
    }

    /// Ids of the symbols never used, functions excepted.
    pub fn get_unused_symbols(&self) -> (res: Vec<SymbolId>)
        ensures
            res@ == spec_unused(self@.symbols),
    {
        let mut res: Vec<SymbolId> = Vec::new();
        let mut i: usize = 0;
        while i < self.symbols.len()
            invariant
                i <= self.symbols.len(),
                res@ == spec_unused(self@.symbols.subrange(0, i as int)),
            decreases self.symbols.len() - i,
        {
            let ghost pre = self@.symbols.subrange(0, i + 1);
            assert(pre.subrange(0, i as int) =~= self@.symbols.subrange(0, i as int));
            assert(pre[i as int] == self.symbols@[i as int]@);
            let symbol = &self.symbols[i];
            let is_function = match &symbol.kind {
                SymbolKind::Function { .. } => true,
                _ => false,
            };
            if !symbol.used && !is_function {
                res.push(i);
            }
            i = i + 1;
        }
        assert(self@.symbols.subrange(0, self.symbols.len() as int) =~= self@.symbols);
        res
    }

    /// Ids of the symbols not initialized.
    pub fn get_uninitialized_variables(&self) -> (res: Vec<SymbolId>)
        ensures
            res@ == spec_uninitialized(self@.symbols),
    {
        let mut res: Vec<SymbolId> = Vec::new();
        let mut i: usize = 0;
        while i < self.symbols.len()
            invariant
                i <= self.symbols.len(),
                res@ == spec_uninitialized(self@.symbols.subrange(0, i as int)),
            decreases self.symbols.len() - i,
        {
            let ghost pre = self@.symbols.subrange(0, i + 1);
            assert(pre.subrange(0, i as int) =~= self@.symbols.subrange(0, i as int));
            assert(pre[i as int] == self.symbols@[i as int]@);
            if !self.symbols[i].is_initialized() {
                res.push(i);
            }
            i = i + 1;
        }
        assert(self@.symbols.subrange(0, self.symbols.len() as int) =~= self@.symbols);
        res
    }

    /// Variables and parameters by name with their C types, in the form the
    /// code generator keeps its variables.
    pub fn to_legacy_variables(&self) -> (res: NameMap<String>)
        ensures
            text_entries(res@) == spec_legacy(self@.symbols),
    {
        let mut variables: NameMap<String> = NameMap::new();
        let mut i: usize = 0;
        assert(text_entries(variables@) =~= spec_legacy(self@.symbols.subrange(0, 0)));
        while i < self.symbols.len()
            invariant
                i <= self.symbols.len(),
                text_entries(variables@) == spec_legacy(self@.symbols.subrange(0, i as int)),
            decreases self.symbols.len() - i,
        {
            let ghost pre = self@.symbols.subrange(0, i + 1);
            assert(pre.subrange(0, i as int) =~= self@.symbols.subrange(0, i as int));
            assert(pre[i as int] == self.symbols@[i as int]@);
            let symbol = &self.symbols[i];
            let is_var = match &symbol.kind {
                SymbolKind::Variable { .. } | SymbolKind::Parameter => true,
                _ => false,
            };
            if is_var {
                let type_str = match &symbol.symbol_type {
                    Type::Integer => owned("int"),
                    Type::String => owned("char*"),
                    Type::Bool => owned("bool"),
                    Type::Custom(name) => name.clone(),
                    _ => owned("unknown"),
                };
                proof {
                    lemma_text_entries_insert(variables@, symbol.name@, type_str);
                }
                variables.insert(symbol.name.clone(), type_str);
            }
            i = i + 1;
        }
        assert(self@.symbols.subrange(0, self.symbols.len() as int) =~= self@.symbols);
        variables
    }
}

} // verus!
