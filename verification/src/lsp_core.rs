//! The document store and editor features of the language server: opening,
//! updating and closing documents, parsing them on demand, and type
//! information and completions.
use vstd::prelude::*;
use crate::ast::{stmts_model, Program, SpecStmt, SpecType, Type};
use crate::lexer::{start_pos, tokenize_from, Lexer};
use crate::module::{parse_source, ModuleSystem, SpecExports};
use crate::name_map::{
    assoc_get, assoc_insert, assoc_remove, lemma_map_values_get, lemma_map_values_insert, map_values, NameMap,
};
use crate::parser::Parser;
use crate::text::{join_strings, owned, seq_join, starts_with, string_is, strings_model};
use crate::type_checker::spec::{type_debug_text, SpecFnSig, TcState};
use crate::type_checker::{pairs_model, type_debug, FunctionSignature, TypeChecker};

verus! {

/// How important a log message is.
#[derive(Debug, Clone, Copy)]
pub enum LogLevel {
    Debug,
    Info,
    Warn,
    Error,
}

/// What can go wrong in a request.
#[derive(Debug, Clone)]
pub enum LspError {
    ParseError(String),
    TypeError(String),
    DocumentNotFound(String),
    InvalidRequest(String),
    InternalError(String),
}

/// The text of an error: its kind, a colon, and its message.
pub open spec fn lsp_error_text(e: LspError) -> Seq<char> {
    match e {
        LspError::ParseError(m) => "Parse Error: "@ + m@,
        LspError::TypeError(m) => "Type Error: "@ + m@,
        LspError::DocumentNotFound(m) => "Document Not Found: "@ + m@,
        LspError::InvalidRequest(m) => "Invalid Request: "@ + m@,
        LspError::InternalError(m) => "Internal Error: "@ + m@,
    }
}

impl LspError {
    /// The error as text (see [`lsp_error_text`]).
    pub fn to_display_string(&self) -> (res: String)
        ensures
            res@ == lsp_error_text(*self),
    {
        let (prefix, m) = match self {
            LspError::ParseError(m) => ("Parse Error: ", m),
            LspError::TypeError(m) => ("Type Error: ", m),
            LspError::DocumentNotFound(m) => ("Document Not Found: ", m),
            LspError::InvalidRequest(m) => ("Invalid Request: ", m),
            LspError::InternalError(m) => ("Internal Error: ", m),
        };
        let mut res = owned(prefix);
        res.append(m.as_str());
        res
    }
}

/// Model of a document.
pub struct SpecDoc {
    pub content: Seq<char>,
    pub version: i32,
    pub uri: Seq<char>,
    pub parsed: Option<Seq<SpecStmt>>,
    pub has_type_info: bool,
    pub last_updated: u64,
}

/// An open document: its text, version, the program parsed from it (once
/// asked for), and when it last changed (in milliseconds of a clock the
/// caller reads).
#[derive(Debug)]
pub struct DocumentState {
    pub content: String,
    pub version: i32,
    pub uri: String,
    pub parsed_ast: Option<Program>,
    pub type_info: Option<NameMap<String>>,
    pub last_updated: u64,
}

impl View for DocumentState {
    type V = SpecDoc;

    open spec fn view(&self) -> SpecDoc {
        SpecDoc {
            content: self.content@,
            version: self.version,
            uri: self.uri@,
            parsed: match self.parsed_ast {
                Some(p) => Some(stmts_model(p.statements@)),
                None => None,
            },
            has_type_info: self.type_info is Some,
            last_updated: self.last_updated,
        }
    }
}

/// A document just opened or changed: nothing parsed yet.
pub open spec fn fresh_doc(uri: Seq<char>, content: Seq<char>, version: i32, now: u64) -> SpecDoc {
    SpecDoc { content, version, uri, parsed: None, has_type_info: false, last_updated: now }
}

impl DocumentState {
    pub fn new(uri: String, content: String, version: i32, now: u64) -> (res: Self)
        ensures
            res@ == fresh_doc(uri@, content@, version, now),
    {
        Self { content, version, uri, parsed_ast: None, type_info: None, last_updated: now }
    }

    /// New text: what was parsed from the old text is dropped.
    pub fn update(&mut self, content: String, version: i32, now: u64)
        ensures
            final(self)@ == fresh_doc(old(self)@.uri, content@, version, now),
    {
        self.content = content;
        self.version = version;
        self.parsed_ast = None;
        self.type_info = None;
        self.last_updated = now;
    }
}

/// Settings of the server; the cleanup interval is in milliseconds.
#[derive(Debug, Clone)]
pub struct LspConfig {
    pub max_documents: usize,
    pub document_cleanup_interval: u64,
    pub type_checking_enabled: bool,
    pub diagnostics_enabled: bool,
    pub completion_enabled: bool,
    pub hover_enabled: bool,
}

impl Default for LspConfig {
    fn default() -> (res: Self)
        ensures
            res.max_documents == 100,
            res.document_cleanup_interval == 300_000,
            res.type_checking_enabled,
            !res.diagnostics_enabled,
            res.completion_enabled,
            res.hover_enabled,
    {
        Self {
            max_documents: 100,
            document_cleanup_interval: 300_000,
            type_checking_enabled: true,
            diagnostics_enabled: false,
            completion_enabled: true,
            hover_enabled: true,
        }
    }
}

/// Where something is logged.
pub trait Logger {
    fn log(&self, level: LogLevel, message: &str);

    fn debug(&self, message: &str) {
        self.log(LogLevel::Debug, message);
    }

    fn info(&self, message: &str) {
        self.log(LogLevel::Info, message);
    }

    fn warn(&self, message: &str) {
        self.log(LogLevel::Warn, message);
    }

    fn error(&self, message: &str) {
        self.log(LogLevel::Error, message);
    }
}

/// A completion offered to the editor.
#[derive(Debug)]
pub struct CompletionItem {
    pub label: String,
    pub kind: u32,
    pub detail: String,
    pub insert_text: String,
}

/// Model of a [`CompletionItem`].
pub struct SpecItem {
    pub label: Seq<char>,
    pub kind: u32,
    pub detail: Seq<char>,
    pub insert_text: Seq<char>,
}

impl View for CompletionItem {
    type V = SpecItem;

    open spec fn view(&self) -> SpecItem {
        SpecItem { label: self.label@, kind: self.kind, detail: self.detail@, insert_text: self.insert_text@ }
    }
}

pub open spec fn items_model(v: Seq<CompletionItem>) -> Seq<SpecItem> {
    Seq::new(v.len(), |i: int| v[i]@)
}

pub open spec fn item(label: Seq<char>, kind: u32, detail: Seq<char>, insert_text: Seq<char>) -> SpecItem {
    SpecItem { label, kind, detail, insert_text }
}

/// The keywords and constructors always offered, in order.
pub open spec fn keyword_items() -> Seq<SpecItem> {
    seq![
        item("val"@, 14, "Immutable variable"@, "val "@),
        item("var"@, 14, "Mutable variable"@, "var "@),
        item("fun"@, 14, "Function"@, "fun "@),
        item("if"@, 14, "If statement"@, "if "@),
        item("else"@, 14, "Else clause"@, "else "@),
        item("for"@, 14, "For loop"@, "for "@),
        item("return"@, 14, "Return statement"@, "return "@),
        item("import"@, 14, "Import statement"@, "import "@),
        item("export"@, 14, "Export declaration"@, "export "@),
        item("match"@, 14, "Pattern matching"@, "match "@),
        item("Success"@, 4, "Success constructor"@, "Success("@),
        item("Failure"@, 4, "Failure constructor"@, "Failure("@),
        item("Result"@, 7, "Result type"@, "Result<"@),
        item("true"@, 12, "Boolean literal"@, "true"@),
        item("false"@, 12, "Boolean literal"@, "false"@),
    ]
}

/// The types and standard modules always offered, in order.
pub open spec fn stdlib_items() -> Seq<SpecItem> {
    seq![
        item("Integer"@, 7, "Integer type"@, "Integer"@),
        item("String"@, 7, "String type"@, "String"@),
        item("Bool"@, 7, "Boolean type"@, "Bool"@),
        item("\"bolt:stdio\""@, 9, "Standard I/O module"@, "\"bolt:stdio\""@),
        item("\"bolt:math\""@, 9, "Math utilities module"@, "\"bolt:math\""@),
        item("\"bolt:io\""@, 9, "File I/O operations module"@, "\"bolt:io\""@),
        item("\"bolt:string\""@, 9, "String utilities module"@, "\"bolt:string\""@),
    ]
}

/// The `Debug` text of an optional type: `None`, or `Some(` and the type's
/// text and `)`.
pub open spec fn opt_type_debug_text(t: Option<SpecType>) -> Seq<char> {
    match t {
        Some(ty) => "Some("@ + type_debug_text(ty) + ")"@,
        None => "None"@,
    }
}

/// The `Debug` text of an optional type (see [`opt_type_debug_text`]).
fn opt_type_debug(t: &Option<Type>) -> (res: String)
    ensures
        res@ == opt_type_debug_text(crate::ast::opt_type_model(*t)),
{
    match t {
        Some(ty) => {
            let mut r = owned("Some(");
            r.append(type_debug(ty).as_str());
            r.append(")");
            r
        },
        None => owned("None"),
    }
}

/// `name: Type` for each parameter.
pub open spec fn param_texts(ps: Seq<(Seq<char>, SpecType)>) -> Seq<Seq<char>> {
    Seq::new(ps.len(), |i: int| ps[i].0 + ": "@ + type_debug_text(ps[i].1))
}

/// The completion for a known function.
pub open spec fn function_item(name: Seq<char>, sig: SpecFnSig) -> SpecItem {
    item(
        name,
        3,
        "("@ + seq_join(param_texts(sig.params), ", "@) + ") -> "@ + opt_type_debug_text(sig.return_type),
        name + "("@,
    )
}

/// The completion for a variable of known type.
pub open spec fn variable_item(name: Seq<char>, t: SpecType) -> SpecItem {
    item(name, 6, type_debug_text(t), name)
}

/// Completions for every function, then every variable the checker knows.
pub open spec fn checker_items(st: TcState) -> Seq<SpecItem> {
    Seq::new(st.functions.len(), |i: int| function_item(st.functions[i].0, st.functions[i].1)) + Seq::new(
        st.variables.len(),
        |i: int| variable_item(st.variables[i].0, st.variables[i].1),
    )
}

/// What kind of function a signature belongs to.
pub open spec fn function_kind(sig: SpecFnSig) -> Seq<char> {
    if sig.is_native {
        "Native Function"@
    } else if sig.is_extern {
        "Extern Function"@
    } else {
        "Function"@
    }
}

/// Hover text for a word: a function's signature and kind, or a
/// variable's type, when the checker knows it.
pub open spec fn type_info_text(st: TcState, word: Seq<char>) -> Option<Seq<char>> {
    match assoc_get(st.functions, word) {
        Some(sig) => Some(
            "**`"@ + word + "("@ + seq_join(param_texts(sig.params), ", "@) + "): "@ + (match sig.return_type {
                Some(t) => type_debug_text(t),
                None => "void"@,
            }) + "`**\n\n*"@ + function_kind(sig) + "*"@,
        ),
        None => match assoc_get(st.variables, word) {
            Some(t) => Some("**`"@ + word + ": "@ + type_debug_text(t) + "`**\n\n*Variable*"@),
            None => None,
        },
    }
}

/// The documents without the first `limit` of those last changed before
/// `cutoff`, the others kept in order.
pub open spec fn without_stale(docs: Seq<(Seq<char>, SpecDoc)>, cutoff: int, limit: int) -> Seq<(Seq<char>, SpecDoc)>
    decreases docs.len(),
{
    if docs.len() == 0 {
        docs
    } else if limit > 0 && docs[0].1.last_updated < cutoff {
        without_stale(docs.drop_first(), cutoff, limit - 1)
    } else {
        seq![docs[0]] + without_stale(docs.drop_first(), cutoff, limit)
    }
}

/// The documents after making room: up to a quarter of them, among those
/// unchanged for longer than the cleanup interval, are dropped.
pub open spec fn cleaned(docs: Seq<(Seq<char>, SpecDoc)>, now: u64, interval: u64) -> Seq<(Seq<char>, SpecDoc)> {
    without_stale(docs, now - interval, (docs.len() / 4) as int)
}

/// Position of the first of the least recently changed documents (0 when
/// there is none).
pub open spec fn oldest_index(docs: Seq<(Seq<char>, SpecDoc)>) -> int
    decreases docs.len(),
{
    if docs.len() <= 1 {
        0
    } else {
        let j = oldest_index(docs.drop_last());
        if docs.last().1.last_updated < docs[j].1.last_updated {
            docs.len() - 1
        } else {
            j
        }
    }
}

pub proof fn lemma_oldest_index(docs: Seq<(Seq<char>, SpecDoc)>)
    ensures
        docs.len() > 0 ==> 0 <= oldest_index(docs) < docs.len(),
        forall|k: int| 0 <= k < docs.len() ==> docs[oldest_index(docs)].1.last_updated <= (#[trigger] docs[k]).1.last_updated,
    decreases docs.len(),
{
    if docs.len() > 1 {
        let pre = docs.drop_last();
        lemma_oldest_index(pre);
        assert forall|k: int| 0 <= k < docs.len() implies docs[oldest_index(docs)].1.last_updated <= (#[trigger] docs[k]).1.last_updated by {
            if k < docs.len() - 1 {
                assert(docs[k] == pre[k]);
            }
        }
    }
}

/// Position of the first of the least recently changed documents not at
/// `key`; -1 when every document is at `key`.
pub open spec fn oldest_other(docs: Seq<(Seq<char>, SpecDoc)>, key: Seq<char>) -> int
    decreases docs.len(),
{
    if docs.len() == 0 {
        -1
    } else {
        let j = oldest_other(docs.drop_last(), key);
        if docs.last().0 == key {
            j
        } else if j < 0 || docs.last().1.last_updated < docs[j].1.last_updated {
            docs.len() - 1
        } else {
            j
        }
    }
}

pub proof fn lemma_oldest_other(docs: Seq<(Seq<char>, SpecDoc)>, key: Seq<char>)
    ensures
        -1 <= oldest_other(docs, key) < docs.len(),
        oldest_other(docs, key) >= 0 ==> docs[oldest_other(docs, key)].0 != key,
        oldest_other(docs, key) >= 0 ==> forall|k: int|
            0 <= k < docs.len() && (#[trigger] docs[k]).0 != key ==> docs[oldest_other(docs, key)].1.last_updated
                <= docs[k].1.last_updated,
        oldest_other(docs, key) < 0 ==> forall|k: int| 0 <= k < docs.len() ==> (#[trigger] docs[k]).0 == key,
    decreases docs.len(),
{
    if docs.len() > 0 {
        let pre = docs.drop_last();
        lemma_oldest_other(pre, key);
        assert forall|k: int| 0 <= k < docs.len() - 1 implies #[trigger] docs[k] == pre[k] by {}
    }
}

/// The document dropped to make room: the least recently changed one not
/// at `key`, or, when all are at `key`, the least recently changed one.
pub open spec fn evict_index(docs: Seq<(Seq<char>, SpecDoc)>, key: Seq<char>) -> int {
    if oldest_other(docs, key) >= 0 {
        oldest_other(docs, key)
    } else {
        oldest_index(docs)
    }
}

/// How many documents make the store full before `key` is opened: the
/// limit, or one more when `key` is open already (opening it again
/// replaces it).
pub open spec fn room_limit(docs: Seq<(Seq<char>, SpecDoc)>, key: Seq<char>, max: int) -> int {
    if assoc_get(docs, key) is Some {
        max + 1
    } else {
        max
    }
}

/// The documents after making room to open `key` under a limit of `max`:
/// while the store is full, a document is dropped (see [`evict_index`]).
pub open spec fn make_room(docs: Seq<(Seq<char>, SpecDoc)>, max: int, key: Seq<char>) -> Seq<(Seq<char>, SpecDoc)>
    decreases docs.len(),
{
    if 0 < docs.len() && room_limit(docs, key, max) <= docs.len() && 0 <= evict_index(docs, key) < docs.len() {
        make_room(docs.remove(evict_index(docs, key)), max, key)
    } else {
        docs
    }
}

pub proof fn lemma_make_room(docs: Seq<(Seq<char>, SpecDoc)>, max: int, key: Seq<char>)
    ensures
        ({
            let r = make_room(docs, max, key);
            r.len() == 0 || r.len() < room_limit(r, key, max)
        }),
    decreases docs.len(),
{
    lemma_oldest_index(docs);
    lemma_oldest_other(docs, key);
    if 0 < docs.len() && room_limit(docs, key, max) <= docs.len() {
        lemma_make_room(docs.remove(evict_index(docs, key)), max, key);
    }
}

/// Opening `key` after making room leaves no more documents than a
/// positive limit.
pub proof fn lemma_open_bounded(docs: Seq<(Seq<char>, SpecDoc)>, max: int, key: Seq<char>, d: SpecDoc)
    requires
        max > 0,
    ensures
        assoc_insert(make_room(docs, max, key), key, d).len() <= max,
{
    let r = make_room(docs, max, key);
    lemma_make_room(docs, max, key);
    crate::name_map::lemma_assoc_index(r, key);
}

/// The documents after the one at `uri` has been parsed, when it parses.
pub open spec fn ensured_docs(docs: Seq<(Seq<char>, SpecDoc)>, uri: Seq<char>) -> Seq<(Seq<char>, SpecDoc)> {
    match assoc_get(docs, uri) {
        Some(d) => if d.parsed is None {
            match parse_source(d.content) {
                Some(ss) => assoc_insert(docs, uri, SpecDoc { parsed: Some(ss), ..d }),
                None => docs,
            }
        } else {
            docs
        },
        None => docs,
    }
}

/// Whether the document at `uri` is open and parses (or was parsed).
pub open spec fn parses(docs: Seq<(Seq<char>, SpecDoc)>, uri: Seq<char>) -> bool {
    match assoc_get(docs, uri) {
        Some(d) => d.parsed is Some || parse_source(d.content) is Some,
        None => false,
    }
}

/// The error a document that cannot be used gives: not found, or a parse
/// error.
pub open spec fn ensure_error(docs: Seq<(Seq<char>, SpecDoc)>, uri: Seq<char>, e: LspError) -> bool {
    match assoc_get(docs, uri) {
        None => e matches LspError::DocumentNotFound(u) && u@ == uri,
        Some(_) => e is ParseError,
    }
}

/// The language server's state: settings, open documents, and the type
/// checker and module system it answers from.
pub struct LspCore {
    pub config: LspConfig,
    pub documents: NameMap<DocumentState>,
    pub type_checker: TypeChecker,
    pub module_system: ModuleSystem,
}

impl LspCore {
    /// The open documents, by URI.
    pub open spec fn docs(&self) -> Seq<(Seq<char>, SpecDoc)> {
        map_values(self.documents@, |d: DocumentState| d@)
    }

    /// Every document is short enough to be lexed.
    pub open spec fn wf(&self) -> bool {
        forall|i: int| 0 <= i < self.docs().len() ==> (#[trigger] self.docs()[i]).1.content.len() <= usize::MAX / 8
    }

    pub fn new(config: LspConfig) -> (res: Self)
        ensures
            res.config == config,
            res.docs() == Seq::<(Seq<char>, SpecDoc)>::empty(),
            res.type_checker.state() == (TcState {
                functions: crate::type_checker::spec::builtin_functions(),
                variables: Seq::empty(),
                errors: Seq::empty(),
            }),
            res.type_checker.has_module_system(),
            res.module_system.modules() == Seq::<(Seq<char>, Seq<SpecStmt>)>::empty(),
            res.module_system.exports() == Seq::<(Seq<char>, SpecExports)>::empty(),
            res.module_system.resolved() == Seq::<(Seq<char>, Seq<Seq<char>>)>::empty(),
            res.wf(),
    {
        let module_system = ModuleSystem::new();
        let type_checker = TypeChecker::new().with_module_system(ModuleSystem::new());
        let res = Self { config, documents: NameMap::new(), type_checker, module_system };
        assert(res.docs() =~= Seq::<(Seq<char>, SpecDoc)>::empty());
        res
    }

    /// A core with the default settings (see [`LspConfig::default`]), no
    /// open documents, a type checker that knows only the built-in
    /// functions, and no loaded modules.
    pub fn with_default_config() -> (res: Self)
        ensures
            res.config.max_documents == 100,
            res.config.document_cleanup_interval == 300_000,
            res.config.type_checking_enabled,
            !res.config.diagnostics_enabled,
            res.config.completion_enabled,
            res.config.hover_enabled,
            res.docs() == Seq::<(Seq<char>, SpecDoc)>::empty(),
            res.type_checker.state() == (TcState {
                functions: crate::type_checker::spec::builtin_functions(),
                variables: Seq::empty(),
                errors: Seq::empty(),
            }),
            res.type_checker.has_module_system(),
            res.module_system.modules() == Seq::<(Seq<char>, Seq<SpecStmt>)>::empty(),
            res.module_system.exports() == Seq::<(Seq<char>, SpecExports)>::empty(),
            res.module_system.resolved() == Seq::<(Seq<char>, Seq<Seq<char>>)>::empty(),
            res.wf(),
    {
        Self::new(LspConfig::default())
    }

    /// Opens a document (replacing one at the same URI). When as many
    /// documents as allowed are open, stale ones are dropped first, then the
    /// least recently changed ones until there is room: with a positive
    /// limit, no more documents than the limit stay open.
    pub fn open_document(&mut self, uri: String, content: String, version: i32, now: u64) -> (res: Result<(), LspError>)
        requires
            old(self).wf(),
            content@.len() <= usize::MAX / 8,
        ensures
            res is Ok,
            final(self).docs() == assoc_insert(
                make_room(
                    if old(self).docs().len() >= old(self).config.max_documents {
                        cleaned(old(self).docs(), now, old(self).config.document_cleanup_interval)
                    } else {
                        old(self).docs()
                    },
                    old(self).config.max_documents as int,
                    uri@,
                ),
                uri@,
                fresh_doc(uri@, content@, version, now),
            ),
            old(self).config.max_documents > 0 ==> final(self).docs().len() <= old(self).config.max_documents,
            final(self).wf(),
            final(self).config == old(self).config,
            final(self).type_checker == old(self).type_checker,
    {
        if self.documents.len() >= self.config.max_documents {
            self.cleanup_old_documents(now);
        }
        let ghost roomless = self.docs();
        self.make_room(uri.as_str());
        proof {
            if self.config.max_documents > 0 {
                lemma_open_bounded(roomless, self.config.max_documents as int, uri@, fresh_doc(uri@, content@, version, now));
            }
        }
        let key = uri.clone();
        let document = DocumentState::new(uri, content, version, now);
        let ghost before = self.documents@;
        proof {
            lemma_map_values_insert(before, |d: DocumentState| d@, key@, document);
        }
        self.documents.insert(key, document);
        assert(forall|i: int| 0 <= i < self.docs().len() ==> (#[trigger] self.docs()[i]).1.content.len() <= usize::MAX / 8) by {
            crate::name_map::lemma_assoc_index(map_values(before, |d: DocumentState| d@), key@);
        }
        Ok(())
    }

    /// Gives a document new text.
    pub fn update_document(&mut self, uri: String, content: String, version: i32, now: u64) -> (res: Result<(), LspError>)
        requires
            old(self).wf(),
            content@.len() <= usize::MAX / 8,
        ensures
            match assoc_get(old(self).docs(), uri@) {
                Some(d) => res is Ok && final(self).docs() == assoc_insert(
                    old(self).docs(),
                    uri@,
                    fresh_doc(d.uri, content@, version, now),
                ),
                None => res matches Err(LspError::DocumentNotFound(u)) && u@ == uri@ && final(self).docs()
                    == old(self).docs(),
            },
            final(self).wf(),
            final(self).config == old(self).config,
            final(self).type_checker == old(self).type_checker,
    {
        proof {
            lemma_map_values_get(self.documents@, |d: DocumentState| d@, uri@);
        }
        let ghost before = self.documents@;
        match self.documents.get_mut(uri.as_str()) {
            Some(document) => {
                document.update(content, version, now);
                proof {
                    lemma_map_values_insert(before, |d: DocumentState| d@, uri@, *document);
                }
                assert(self.docs() == assoc_insert(
                    map_values(before, |d: DocumentState| d@),
                    uri@,
                    fresh_doc(assoc_get(map_values(before, |d: DocumentState| d@), uri@).unwrap().uri, content@, version, now),
                ));
                assert(forall|i: int| 0 <= i < self.docs().len() ==> (#[trigger] self.docs()[i]).1.content.len() <= usize::MAX / 8) by {
                    crate::name_map::lemma_assoc_index(map_values(before, |d: DocumentState| d@), uri@);
                }
                Ok(())
            },
            None => Err(LspError::DocumentNotFound(uri)),
        }
    }

    /// Closes a document.
    pub fn close_document(&mut self, uri: &str) -> (res: Result<(), LspError>)
        requires
            old(self).wf(),
        ensures
            res is Ok,
            final(self).docs() == assoc_remove(old(self).docs(), uri@),
            final(self).wf(),
            final(self).config == old(self).config,
            final(self).type_checker == old(self).type_checker,
    {
        proof {
            crate::name_map::lemma_map_values_index(self.documents@, |d: DocumentState| d@, uri@);
        }
        let ghost before = self.docs();
        proof {
            crate::name_map::lemma_map_values_remove(self.documents@, |d: DocumentState| d@, uri@);
        }
        self.documents.remove(uri);
        proof {
            crate::name_map::lemma_assoc_index(before, uri@);
            match crate::name_map::assoc_index(before, uri@) {
            Some(k) => {
                assert(self.docs() == before.remove(k));
                before.remove_ensures(k);
            },
            None => {
                assert(self.docs() == before);
            },
            }
        }
        Ok(())
    }

    /// Position of the first least recently changed document.
    fn oldest_position(&self) -> (res: usize)
        requires
            self.docs().len() > 0,
        ensures
            res == oldest_index(self.docs()),
    {
        let ghost d = self.docs();
        let mut best: usize = 0;
        let mut k: usize = 1;
        assert(d.take(1).len() == 1);
        while k < self.documents.len()
            invariant
                1 <= k <= d.len(),
                d == self.docs(),
                d.len() == self.documents@.len(),
                best == oldest_index(d.take(k as int)),
                best < k,
            decreases d.len() - k,
        {
            proof {
                lemma_oldest_index(d.take(k as int));
                assert(d.take(k + 1).drop_last() =~= d.take(k as int));
            }
            let (_, a) = self.documents.entry(k);
            let (_, b) = self.documents.entry(best);
            assert(d[k as int].1 == a@);
            assert(d[best as int].1 == b@);
            if a.last_updated < b.last_updated {
                best = k;
            }
            k = k + 1;
        }
        assert(d.take(k as int) =~= d);
        best
    }

    /// Position of the first least recently changed document not at `key`.
    fn oldest_other_position(&self, key: &str) -> (res: Option<usize>)
        ensures
            match res {
                Some(i) => i == oldest_other(self.docs(), key@),
                None => oldest_other(self.docs(), key@) < 0,
            },
    {
        let ghost d = self.docs();
        let mut best: Option<usize> = None;
        let mut k: usize = 0;
        while k < self.documents.len()
            invariant
                k <= d.len(),
                d == self.docs(),
                d.len() == self.documents@.len(),
                match best {
                    Some(b) => b == oldest_other(d.take(k as int), key@) && b < k,
                    None => oldest_other(d.take(k as int), key@) < 0,
                },
            decreases d.len() - k,
        {
            proof {
                assert(d.take(k + 1).drop_last() =~= d.take(k as int));
                lemma_oldest_other(d.take(k as int), key@);
            }
            let (name, a) = self.documents.entry(k);
            assert(d[k as int] == (name@, a@));
            if !string_is(name, key) {
                match best {
                    Some(b) => {
                        let (_, bd) = self.documents.entry(b);
                        assert(d[b as int].1 == bd@);
                        assert(d.take(k as int)[b as int] == d[b as int]);
                        if a.last_updated < bd.last_updated {
                            best = Some(k);
                        }
                    },
                    None => {
                        best = Some(k);
                    },
                }
            }
            k = k + 1;
        }
        assert(d.take(k as int) =~= d);
        best
    }

    /// Drops documents while the store is too full to open `key` (see
    /// [`make_room`]).
    fn make_room(&mut self, key: &str)
        requires
            old(self).wf(),
        ensures
            final(self).docs() == make_room(old(self).docs(), old(self).config.max_documents as int, key@),
            final(self).wf(),
            final(self).config == old(self).config,
            final(self).type_checker == old(self).type_checker,
    {
        loop
            invariant
                self.wf(),
                self.config == old(self).config,
                self.type_checker == old(self).type_checker,
                self.docs().len() == self.documents@.len(),
                make_room(self.docs(), self.config.max_documents as int, key@) == make_room(
                    old(self).docs(),
                    old(self).config.max_documents as int,
                    key@,
                ),
            decreases self.documents@.len(),
        {
            let ghost cur = self.docs();
            proof {
                lemma_oldest_index(cur);
                lemma_oldest_other(cur, key@);
                crate::name_map::lemma_map_values_get(self.documents@, |d: DocumentState| d@, key@);
            }
            let limit_reached = if self.documents.contains_key(key) {
                self.config.max_documents < self.documents.len()
            } else {
                self.config.max_documents <= self.documents.len()
            };
            if self.documents.len() == 0 || !limit_reached {
                return;
            }
            let i = match self.oldest_other_position(key) {
                Some(i) => i,
                None => self.oldest_position(),
            };
            self.documents.remove_at(i);
            assert(self.docs() =~= cur.remove(i as int));
            proof {
                cur.remove_ensures(i as int);
            }
        }
    }

    /// Drops up to a quarter of the open documents, among those unchanged
    /// for longer than the cleanup interval (see [`cleaned`]).
    fn cleanup_old_documents(&mut self, now: u64)
        requires
            old(self).wf(),
        ensures
            final(self).docs() == cleaned(old(self).docs(), now, old(self).config.document_cleanup_interval),
            final(self).wf(),
            final(self).config == old(self).config,
            final(self).type_checker == old(self).type_checker,
    {
        let ghost d0 = self.docs();
        let ghost cutoff: int = now - self.config.document_cleanup_interval;
        let limit = self.documents.len() / 4;
        let mut removed: usize = 0;
        let mut i: usize = 0;
        assert(d0.skip(0) =~= d0);
        assert(d0.take(0) =~= Seq::<(Seq<char>, SpecDoc)>::empty());
        while i < self.documents.len()
            invariant
                i <= self.docs().len(),
                removed <= limit,
                d0 == old(self).docs(),
                cutoff == now - old(self).config.document_cleanup_interval,
                limit == d0.len() / 4,
                self.config == old(self).config,
                self.type_checker == old(self).type_checker,
                self.docs().len() == self.documents@.len(),
                forall|j: int| 0 <= j < self.docs().len() ==> (#[trigger] self.docs()[j]).1.content.len() <= usize::MAX / 8,
                without_stale(d0, cutoff, limit as int) == self.docs().take(i as int) + without_stale(
                    self.docs().skip(i as int),
                    cutoff,
                    limit - removed,
                ),
            decreases self.docs().len() - i,
        {
            let ghost cur = self.docs();
            let (_, doc) = self.documents.entry(i);
            assert(cur[i as int].1 == doc@);
            let stale = now >= self.config.document_cleanup_interval
                && doc.last_updated < now - self.config.document_cleanup_interval;
            assert(stale == (cur[i as int].1.last_updated < cutoff));
            let ghost rest = cur.skip(i as int);
            assert(rest.drop_first() =~= cur.skip(i + 1));
            assert(rest[0] == cur[i as int]);
            if removed < limit && stale {
                self.documents.remove_at(i);
                assert(self.docs() =~= cur.remove(i as int));
                assert(self.docs().take(i as int) =~= cur.take(i as int));
                assert(self.docs().skip(i as int) =~= cur.skip(i + 1));
                proof {
                    cur.remove_ensures(i as int);
                }
                removed = removed + 1;
            } else {
                proof {
                    assert(cur.take(i + 1) =~= cur.take(i as int) + seq![cur[i as int]]);
                    vstd::seq_lib::lemma_concat_associative(
                        cur.take(i as int),
                        seq![cur[i as int]],
                        without_stale(cur.skip(i + 1), cutoff, limit - removed),
                    );
                }
                i = i + 1;
            }
        }
        assert(self.docs().skip(i as int) =~= Seq::<(Seq<char>, SpecDoc)>::empty());
        assert(self.docs().take(i as int) =~= self.docs());
    }

    /// Parses the document at `uri` unless it was parsed already.
    fn ensure_parsed(&mut self, uri: &str) -> (res: Result<(), LspError>)
        requires
            old(self).wf(),
        ensures
            final(self).docs() == ensured_docs(old(self).docs(), uri@),
            match res {
                Ok(()) => parses(old(self).docs(), uri@),
                Err(e) => !parses(old(self).docs(), uri@) && ensure_error(old(self).docs(), uri@, e),
            },
            final(self).wf(),
            final(self).config == old(self).config,
            final(self).type_checker == old(self).type_checker,
    {
        proof {
            lemma_map_values_get(self.documents@, |d: DocumentState| d@, uri@);
            crate::name_map::lemma_assoc_index(self.docs(), uri@);
            crate::name_map::lemma_map_values_index(self.documents@, |d: DocumentState| d@, uri@);
        }
        let ghost before = self.documents@;
        match self.documents.get_mut(uri) {
            Some(document) => {
                if document.parsed_ast.is_none() {
                    match parse_content(&document.content) {
                        Ok(ast) => {
                            document.parsed_ast = Some(ast);
                        },
                        Err(e) => {
                            return Err(e);
                        },
                    }
                }
                proof {
                    lemma_map_values_insert(before, |d: DocumentState| d@, uri@, *document);
                }
                assert(forall|i: int| 0 <= i < self.docs().len() ==> (#[trigger] self.docs()[i]).1.content.len() <= usize::MAX / 8) by {
                    crate::name_map::lemma_assoc_index(map_values(before, |d: DocumentState| d@), uri@);
                }
                Ok(())
            },
            None => Err(LspError::DocumentNotFound(owned(uri))),
        }
    }

    /// Parses a document's text.
    pub fn parse_document_content(&self, content: &str) -> (res: Result<Program, LspError>)
        requires
            content@.len() <= usize::MAX / 8,
        ensures
            match parse_source(content@) {
                Some(ss) => res matches Ok(p) && stmts_model(p.statements@) == ss,
                None => res matches Err(LspError::ParseError(m)) && (if tokenize_from(
                    content@,
                    start_pos(),
                    Seq::empty(),
                ) is None {
                    starts_with(m@, "Lexer error: "@)
                } else {
                    starts_with(m@, "Parser error: "@)
                }),
            },
    {
        parse_content(content)
    }

    /// Type information for a word of a document, as [`type_info_text`]
    /// says, once the document parses; nothing when type checking is off.
    pub fn get_type_info(&mut self, uri: &str, word: &str, line: usize) -> (res: Result<Option<String>, LspError>)
        requires
            old(self).wf(),
        ensures
            final(self).docs() == ensured_docs(old(self).docs(), uri@),
            final(self).wf(),
            final(self).type_checker == old(self).type_checker,
            final(self).config == old(self).config,
            match res {
                Ok(info) => parses(old(self).docs(), uri@) && match info {
                    Some(t) => old(self).config.type_checking_enabled && type_info_text(
                        old(self).type_checker.state(),
                        word@,
                    ) == Some(t@),
                    None => !old(self).config.type_checking_enabled || type_info_text(
                        old(self).type_checker.state(),
                        word@,
                    ) is None,
                },
                Err(e) => !parses(old(self).docs(), uri@) && ensure_error(old(self).docs(), uri@, e),
            },
    {
        match self.ensure_parsed(uri) {
            Ok(()) => {},
            Err(e) => {
                return Err(e);
            },
        }
        if !self.config.type_checking_enabled {
            return Ok(None);
        }
        match self.type_checker.get_function_signature(word) {
            Some(sig) => {
                let params = param_strings(&sig.params);
                let mut info = owned("**`");
                info.append(word);
                info.append("(");
                info.append(join_strings(&params, ", ").as_str());
                info.append("): ");
                match &sig.return_type {
                    Some(t) => info.append(type_debug(t).as_str()),
                    None => info.append("void"),
                }
                info.append("`**\n\n*");
                if sig.is_native {
                    info.append("Native Function");
                } else if sig.is_extern {
                    info.append("Extern Function");
                } else {
                    info.append("Function");
                }
                info.append("*");
                return Ok(Some(info));
            },
            None => {},
        }
        match self.type_checker.get_variable_type(word) {
            Some(t) => {
                let mut info = owned("**`");
                info.append(word);
                info.append(": ");
                info.append(type_debug(t).as_str());
                info.append("`**\n\n*Variable*");
                Ok(Some(info))
            },
            None => Ok(None),
        }
    }

    /// The completions for a document: keywords, then (with type checking
    /// on, once the document parses) every function and variable the
    /// checker knows, then types and standard modules; nothing when
    /// completion is off.
    pub fn get_completions(&mut self, uri: &str, line: usize, character: usize) -> (res: Result<Vec<CompletionItem>, LspError>)
        requires
            old(self).wf(),
        ensures
            res matches Ok(items) && items_model(items@) == if !old(self).config.completion_enabled {
                Seq::<SpecItem>::empty()
            } else {
                keyword_items() + (if old(self).config.type_checking_enabled && parses(old(self).docs(), uri@) {
                    checker_items(old(self).type_checker.state())
                } else {
                    Seq::<SpecItem>::empty()
                }) + stdlib_items()
            },
            final(self).docs() == if old(self).config.completion_enabled && old(self).config.type_checking_enabled {
                ensured_docs(old(self).docs(), uri@)
            } else {
                old(self).docs()
            },
            final(self).wf(),
            final(self).config == old(self).config,
            final(self).type_checker == old(self).type_checker,
    {
        if !self.config.completion_enabled {
            let items: Vec<CompletionItem> = Vec::new();
            assert(items_model(items@) =~= Seq::<SpecItem>::empty());
            return Ok(items);
        }
        let mut items = get_keyword_completions();
        if self.config.type_checking_enabled {
            match self.ensure_parsed(uri) {
                Ok(()) => {
                    let more = self.get_type_aware_completions();
                    append_items(&mut items, more);
                },
                Err(_) => {},
            }
        }
        let tail = get_stdlib_completions();
        let ghost mid = items_model(items@);
        append_items(&mut items, tail);
        assert(items_model(items@) == mid + stdlib_items());
        Ok(items)
    }

    /// Completions for every function, then every variable the checker
    /// knows.
    fn get_type_aware_completions(&self) -> (res: Vec<CompletionItem>)
        ensures
            items_model(res@) == checker_items(self.type_checker.state()),
    {
        let functions = self.type_checker.get_all_functions();
        let variables = self.type_checker.get_all_variables();
        let ghost st = self.type_checker.state();
        let mut items: Vec<CompletionItem> = Vec::new();
        let mut i: usize = 0;
        while i < functions.len()
            invariant
                i <= functions@.len(),
                map_values(functions@, |f: FunctionSignature| f@) == st.functions,
                items@.len() == i,
                forall|k: int| 0 <= k < i ==> (#[trigger] items@[k])@ == function_item(st.functions[k].0, st.functions[k].1),
            decreases functions@.len() - i,
        {
            let (name, sig) = functions.entry(i);
            assert(st.functions[i as int] == (name@, sig@));
            let params = param_strings(&sig.params);
            let mut detail = owned("(");
            detail.append(join_strings(&params, ", ").as_str());
            detail.append(") -> ");
            detail.append(opt_type_debug(&sig.return_type).as_str());
            let mut insert = name.clone();
            insert.append("(");
            let it = CompletionItem { label: name.clone(), kind: 3, detail, insert_text: insert };
            assert(it@.detail =~= function_item(st.functions[i as int].0, st.functions[i as int].1).detail);
            items.push(it);
            i = i + 1;
        }
        let n = items.len();
        let mut j: usize = 0;
        while j < variables.len()
            invariant
                j <= variables@.len(),
                n == st.functions.len(),
                map_values(variables@, |t: Type| t@) == st.variables,
                items@.len() == n + j,
                forall|k: int| 0 <= k < n ==> (#[trigger] items@[k])@ == function_item(st.functions[k].0, st.functions[k].1),
                forall|k: int| 0 <= k < j ==> (#[trigger] items@[n + k])@ == variable_item(st.variables[k].0, st.variables[k].1),
            decreases variables@.len() - j,
        {
            let (name, t) = variables.entry(j);
            assert(st.variables[j as int] == (name@, t@));
            let it = CompletionItem { label: name.clone(), kind: 6, detail: type_debug(t), insert_text: name.clone() };
            items.push(it);
            assert(items@[n + j as int] == it);
            j = j + 1;
        }
        assert forall|k: int| 0 <= k < items@.len() implies #[trigger] items_model(items@)[k] == checker_items(st)[k] by {
            if k >= n {
                assert(items@[n + (k - n)] == items@[k]);
            }
        }
        assert(items_model(items@) =~= checker_items(st));
        items
    }
}

/// Lexes and parses a text, with the stage that failed in the error.
fn parse_content(content: &str) -> (res: Result<Program, LspError>)
    requires
        content@.len() <= usize::MAX / 8,
    ensures
        match parse_source(content@) {
            Some(ss) => res matches Ok(p) && stmts_model(p.statements@) == ss,
            None => res matches Err(LspError::ParseError(m)) && (if tokenize_from(
                content@,
                start_pos(),
                Seq::empty(),
            ) is None {
                starts_with(m@, "Lexer error: "@)
            } else {
                starts_with(m@, "Parser error: "@)
            }),
        },
{
    let mut lexer = Lexer::new(owned(content));
    let tokens = match lexer.tokenize() {
        Ok(t) => t,
        Err(e) => {
            let mut m = owned("Lexer error: ");
            m.append(e.as_str());
            assert(m@.subrange(0, "Lexer error: "@.len() as int) =~= "Lexer error: "@);
            return Err(LspError::ParseError(m));
        },
    };
    proof {
        let ts = tokenize_from(content@, start_pos(), Seq::empty()).unwrap();
        assert(crate::lexer::tokens_model(tokens@) == ts);
        assert(crate::parser::tok_types(tokens@) =~= Seq::new(ts.len(), |i: int| ts[i].token_type));
    }
    let mut parser = Parser::new(tokens);
    match parser.parse() {
        Ok(p) => Ok(p),
        Err(e) => {
            let mut m = owned("Parser error: ");
            m.append(e.as_str());
            assert(m@.subrange(0, "Parser error: "@.len() as int) =~= "Parser error: "@);
            Err(LspError::ParseError(m))
        },
    }
}

/// `name: Type` for each parameter.
fn param_strings(params: &Vec<(String, Type)>) -> (res: Vec<String>)
    ensures
        strings_model(res@) == param_texts(pairs_model(params@)),
{
    let mut res: Vec<String> = Vec::new();
    let mut i: usize = 0;
    while i < params.len()
        invariant
            i <= params@.len(),
            res@.len() == i,
            forall|k: int| 0 <= k < i ==> (#[trigger] res@[k])@ == param_texts(pairs_model(params@))[k],
        decreases params@.len() - i,
    {
        let mut p = params[i].0.clone();
        p.append(": ");
        p.append(type_debug(&params[i].1).as_str());
        res.push(p);
        i = i + 1;
    }
    assert(strings_model(res@) =~= param_texts(pairs_model(params@)));
    res
}

/// A completion item from literal texts.
pub(crate) fn literal_item(label: &str, kind: u32, detail: &str, insert_text: &str) -> (res: CompletionItem)
    ensures
        res@ == item(label@, kind, detail@, insert_text@),
{
    CompletionItem { label: owned(label), kind, detail: owned(detail), insert_text: owned(insert_text) }
}

/// Appends `more` to `items`.
fn append_items(items: &mut Vec<CompletionItem>, more: Vec<CompletionItem>)
    ensures
        items_model(final(items)@) == items_model(old(items)@) + items_model(more@),
{
    let mut more = more;
    let ghost m0 = items_model(more@);
    items.append(&mut more);
    assert(items_model(items@) =~= items_model(old(items)@) + m0);
}

fn get_keyword_completions() -> (res: Vec<CompletionItem>)
    ensures
        items_model(res@) == keyword_items(),
{
    let mut v: Vec<CompletionItem> = Vec::new();
    v.push(literal_item("val", 14, "Immutable variable", "val "));
    v.push(literal_item("var", 14, "Mutable variable", "var "));
    v.push(literal_item("fun", 14, "Function", "fun "));
    v.push(literal_item("if", 14, "If statement", "if "));
    v.push(literal_item("else", 14, "Else clause", "else "));
    v.push(literal_item("for", 14, "For loop", "for "));
    v.push(literal_item("return", 14, "Return statement", "return "));
    v.push(literal_item("import", 14, "Import statement", "import "));
    v.push(literal_item("export", 14, "Export declaration", "export "));
    v.push(literal_item("match", 14, "Pattern matching", "match "));
    v.push(literal_item("Success", 4, "Success constructor", "Success("));
    v.push(literal_item("Failure", 4, "Failure constructor", "Failure("));
    v.push(literal_item("Result", 7, "Result type", "Result<"));
    v.push(literal_item("true", 12, "Boolean literal", "true"));
    v.push(literal_item("false", 12, "Boolean literal", "false"));
    assert(items_model(v@) =~= keyword_items());
    v
}

fn get_stdlib_completions() -> (res: Vec<CompletionItem>)
    ensures
        items_model(res@) == stdlib_items(),
{
    let mut v: Vec<CompletionItem> = Vec::new();
    v.push(literal_item("Integer", 7, "Integer type", "Integer"));
    v.push(literal_item("String", 7, "String type", "String"));
    v.push(literal_item("Bool", 7, "Boolean type", "Bool"));
    v.push(literal_item("\"bolt:stdio\"", 9, "Standard I/O module", "\"bolt:stdio\""));
    v.push(literal_item("\"bolt:math\"", 9, "Math utilities module", "\"bolt:math\""));
    v.push(literal_item("\"bolt:io\"", 9, "File I/O operations module", "\"bolt:io\""));
    v.push(literal_item("\"bolt:string\"", 9, "String utilities module", "\"bolt:string\""));
    assert(items_model(v@) =~= stdlib_items());
    v
}

} // verus!
