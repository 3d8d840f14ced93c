//! The language server's message handling: requests read from the editor
//! and what is answered, with the documents kept as text.
use vstd::prelude::*;
use crate::lsp_core::{item, items_model, literal_item, CompletionItem, SpecItem};
use crate::name_map::{assoc_get, assoc_insert, lemma_text_entries_get, lemma_text_entries_insert, text_entries, NameMap};
use crate::text::{owned, string_is};
use super::get_hover_info;
use super::spec::{hover_ok, hover_text};

verus! {

/// The completions offered in answer to a completion request, in order.
pub open spec fn completion_list() -> Seq<SpecItem> {
    seq![
        item("val"@, 14, "Immutable variable"@, "val "@),
        item("var"@, 14, "Mutable variable"@, "var "@),
        item("fun"@, 14, "Function"@, "fun "@),
        item("type"@, 14, "Type definition"@, "type "@),
        item("if"@, 14, "If statement"@, "if "@),
        item("for"@, 14, "For loop"@, "for "@),
        item("import"@, 14, "Import"@, "import "@),
        item("export"@, 14, "Export declaration"@, "export "@),
        item("native"@, 14, "Native code block"@, "native "@),
        item("return"@, 14, "Return statement"@, "return "@),
        item("print"@, 3, "Print function"@, "print("@),
        item("\"bolt:stdio\""@, 9, "Standard I/O module"@, "\"bolt:stdio\""@),
        item("\"bolt:math\""@, 9, "Math utilities module"@, "\"bolt:math\""@),
        item("\"bolt:io\""@, 9, "File I/O operations module"@, "\"bolt:io\""@),
        item("\"bolt:string\""@, 9, "String utilities module"@, "\"bolt:string\""@),
        item("readFile"@, 3, "Read file contents: (path: String) -> String"@, "readFile("@),
        item("writeFile"@, 3, "Write file contents: (path: String, content: String) -> Bool"@, "writeFile("@),
        item("appendFile"@, 3, "Append to file: (path: String, content: String) -> Bool"@, "appendFile("@),
        item("deleteFile"@, 3, "Delete file: (path: String) -> Bool"@, "deleteFile("@),
        item("fileExists"@, 3, "Check if file exists: (path: String) -> Bool"@, "fileExists("@),
        item("length"@, 3, "Get string length: (s: String) -> Integer"@, "length("@),
        item("concat"@, 3, "Concatenate strings: (a: String, b: String) -> String"@, "concat("@),
        item("indexOf"@, 3, "Find substring index: (s: String, substr: String) -> Integer"@, "indexOf("@),
        item("contains"@, 3, "Check if string contains substring: (s: String, substr: String) -> Bool"@, "contains("@),
        item("trim"@, 3, "Remove whitespace: (s: String) -> String"@, "trim("@),
        item("Integer"@, 7, "Integer type"@, "Integer"@),
        item("String"@, 7, "String type"@, "String"@),
        item("Bool"@, 7, "Boolean type"@, "Bool"@),
        item("Array[T]"@, 7, "Generic array type"@, "Array[T]"@),
        item("Array[Integer]"@, 7, "Integer array"@, "Array[Integer]"@),
        item("Array[String]"@, 7, "String array"@, "Array[String]"@),
        item("Array[Bool]"@, 7, "Boolean array"@, "Array[Bool]"@),
        item("Result[T]"@, 7, "Generic result type"@, "Result[T]"@),
        item("Box[T]"@, 7, "Generic box type"@, "Box[T]"@),
        item("for in"@, 15, "For-in loop with Array[T]"@, "for item in "@),
        item("type def"@, 15, "Generic type definition"@, "type Name[T] = { data: T }"@),
        item("import io"@, 15, "Import file I/O functions"@, "import { readFile, writeFile } from \"bolt:io\""@),
        item("import string"@, 15, "Import string utilities"@, "import { length, concat, contains } from \"bolt:string\""@),
        item("import stdio"@, 15, "Import stdio functions"@, "import { print } from \"bolt:stdio\""@),
        item("native C"@, 15, "Native C function block"@, "native \"C\" {\\n    export fun functionName(param: Type): ReturnType\\n}"@),
        item("true"@, 12, "Boolean true"@, "true"@),
        item("false"@, 12, "Boolean false"@, "false"@),
    ]
}

/// The completions offered in answer to a completion request read as plain JSON, in order.
pub open spec fn raw_completion_list() -> Seq<SpecItem> {
    seq![
        item("val"@, 14, "Immutable variable"@, "val "@),
        item("var"@, 14, "Mutable variable"@, "var "@),
        item("fun"@, 14, "Function"@, "fun "@),
        item("type"@, 14, "Type definition"@, "type "@),
        item("print"@, 3, "Print function"@, "print("@),
        item("Array[Integer]"@, 7, "Integer array"@, "Array[Integer]"@),
        item("Array[String]"@, 7, "String array"@, "Array[String]"@),
        item("Array[Bool]"@, 7, "Boolean array"@, "Array[Bool]"@),
    ]
}

/// Where a hover request points.
#[derive(Debug)]
pub struct HoverTarget {
    pub uri: String,
    pub line: usize,
    pub character: usize,
}

/// A message of the editor, as far as the server reads it.
#[derive(Debug)]
pub enum Request {
    Initialize,
    /// A document was opened with this text.
    DidOpen { uri: String, text: String },
    /// A document now has this text.
    DidChange { uri: String, text: String },
    Completion,
    /// A hover request; nothing when its position could not be read.
    Hover(Option<HoverTarget>),
    Shutdown,
    Exit,
    /// A message that asks for nothing (`initialized`, a cancellation, or a
    /// document message whose parameters could not be read).
    Notification,
    /// A method the server does not know; `has_id` when it is a request.
    Unknown { has_id: bool },
}

/// The request a message stands for, from its method and what could be
/// read of its parameters: the document's URI, the text of an opened
/// document, the text of the first change, and the position.
pub open spec fn request_for_spec(
    method: Seq<char>,
    uri: Option<String>,
    open_text: Option<String>,
    change_text: Option<String>,
    position: Option<(usize, usize)>,
    has_id: bool,
) -> Request {
    if method == "initialize"@ {
        Request::Initialize
    } else if method == "initialized"@ {
        Request::Notification
    } else if method == "textDocument/didOpen"@ {
        match (uri, open_text) {
            (Some(u), Some(t)) => Request::DidOpen { uri: u, text: t },
            _ => Request::Notification,
        }
    } else if method == "textDocument/didChange"@ {
        match (uri, change_text) {
            (Some(u), Some(t)) => Request::DidChange { uri: u, text: t },
            _ => Request::Notification,
        }
    } else if method == "textDocument/completion"@ {
        Request::Completion
    } else if method == "textDocument/hover"@ {
        match (uri, position) {
            (Some(u), Some((line, character))) => Request::Hover(Some(HoverTarget { uri: u, line, character })),
            _ => Request::Hover(None),
        }
    } else if method == "shutdown"@ {
        Request::Shutdown
    } else if method == "exit"@ {
        Request::Exit
    } else {
        Request::Unknown { has_id }
    }
}

/// The request a message stands for (see [`request_for_spec`]).
pub fn request_for(
    method: &str,
    uri: Option<String>,
    open_text: Option<String>,
    change_text: Option<String>,
    position: Option<(usize, usize)>,
    has_id: bool,
) -> (res: Request)
    ensures
        res == request_for_spec(method@, uri, open_text, change_text, position, has_id),
{
    let m = owned(method);
    if string_is(&m, "initialize") {
        Request::Initialize
    } else if string_is(&m, "initialized") {
        Request::Notification
    } else if string_is(&m, "textDocument/didOpen") {
        match (uri, open_text) {
            (Some(u), Some(t)) => Request::DidOpen { uri: u, text: t },
            _ => Request::Notification,
        }
    } else if string_is(&m, "textDocument/didChange") {
        match (uri, change_text) {
            (Some(u), Some(t)) => Request::DidChange { uri: u, text: t },
            _ => Request::Notification,
        }
    } else if string_is(&m, "textDocument/completion") {
        Request::Completion
    } else if string_is(&m, "textDocument/hover") {
        match (uri, position) {
            (Some(u), Some((line, character))) => Request::Hover(Some(HoverTarget { uri: u, line, character })),
            _ => Request::Hover(None),
        }
    } else if string_is(&m, "shutdown") {
        Request::Shutdown
    } else if string_is(&m, "exit") {
        Request::Exit
    } else {
        Request::Unknown { has_id }
    }
}

/// The server's answer to a message.
#[derive(Debug)]
pub enum Reply {
    /// Nothing is sent.
    Silent,
    /// The server's capabilities.
    Capabilities,
    Completions(Vec<CompletionItem>),
    /// Hover text, as markdown.
    Hover(String),
    /// A null result.
    Null,
    /// The server stops.
    Exit,
}

/// Model of a [`Reply`].
pub enum SpecReply {
    Silent,
    Capabilities,
    Completions(Seq<SpecItem>),
    Hover(Seq<char>),
    Null,
    Exit,
}

impl View for Reply {
    type V = SpecReply;

    open spec fn view(&self) -> SpecReply {
        match self {
            Reply::Silent => SpecReply::Silent,
            Reply::Capabilities => SpecReply::Capabilities,
            Reply::Completions(v) => SpecReply::Completions(items_model(v@)),
            Reply::Hover(t) => SpecReply::Hover(t@),
            Reply::Null => SpecReply::Null,
            Reply::Exit => SpecReply::Exit,
        }
    }
}

/// The answer to a hover request over the documents: the hover text of the
/// position when its document is open, a null result otherwise.
pub open spec fn hover_reply(docs: Seq<(Seq<char>, Seq<char>)>, target: Option<HoverTarget>) -> SpecReply {
    match target {
        Some(t) => match assoc_get(docs, t.uri@) {
            Some(d) => SpecReply::Hover(hover_text(d, t.line as int, t.character as int)),
            None => SpecReply::Null,
        },
        None => SpecReply::Null,
    }
}

/// Whether a hover request can be answered: its document, when open, lets
/// hovering at the position go through.
pub open spec fn hover_request_ok(docs: Seq<(Seq<char>, Seq<char>)>, request: Request) -> bool {
    match request {
        Request::Hover(Some(t)) => match assoc_get(docs, t.uri@) {
            Some(d) => hover_ok(d, t.line as int, t.character as int),
            None => true,
        },
        _ => true,
    }
}

/// The documents after a message: opened and changed ones take their text.
pub open spec fn docs_after(docs: Seq<(Seq<char>, Seq<char>)>, request: Request) -> Seq<(Seq<char>, Seq<char>)> {
    match request {
        Request::DidOpen { uri, text } | Request::DidChange { uri, text } => assoc_insert(docs, uri@, text@),
        _ => docs,
    }
}

/// The answer to a message.
pub open spec fn reply_to(docs: Seq<(Seq<char>, Seq<char>)>, request: Request) -> SpecReply {
    match request {
        Request::Initialize => SpecReply::Capabilities,
        Request::Completion => SpecReply::Completions(completion_list()),
        Request::Hover(target) => hover_reply(docs, target),
        Request::Shutdown => SpecReply::Null,
        Request::Exit => SpecReply::Exit,
        Request::Unknown { has_id } => if has_id {
            SpecReply::Null
        } else {
            SpecReply::Silent
        },
        _ => SpecReply::Silent,
    }
}

/// The answer to a message read as plain JSON: only opening documents,
/// hover and completion requests (answered when they carry an id), and
/// cancellations are understood.
pub open spec fn raw_reply_to(docs: Seq<(Seq<char>, Seq<char>)>, request: Request, has_id: bool) -> SpecReply {
    match request {
        Request::Completion => if has_id {
            SpecReply::Completions(raw_completion_list())
        } else {
            SpecReply::Silent
        },
        Request::Hover(target) => if has_id {
            hover_reply(docs, target)
        } else {
            SpecReply::Silent
        },
        _ => SpecReply::Silent,
    }
}

/// The documents after a message read as plain JSON: only opened ones are
/// kept.
pub open spec fn raw_docs_after(docs: Seq<(Seq<char>, Seq<char>)>, request: Request) -> Seq<(Seq<char>, Seq<char>)> {
    match request {
        Request::DidOpen { uri, text } => assoc_insert(docs, uri@, text@),
        _ => docs,
    }
}

/// A language server answering from the text of the open documents.
pub struct LspServer {
    pub documents: NameMap<String>,
}

impl LspServer {
    /// The open documents, by URI.
    pub open spec fn docs(&self) -> Seq<(Seq<char>, Seq<char>)> {
        text_entries(self.documents@)
    }

    pub fn new() -> (res: Self)
        ensures
            res.docs() == Seq::<(Seq<char>, Seq<char>)>::empty(),
    {
        let res = Self { documents: NameMap::new() };
        assert(res.docs() =~= Seq::<(Seq<char>, Seq<char>)>::empty());
        res
    }

    fn store(&mut self, uri: String, text: String)
        ensures
            final(self).docs() == assoc_insert(old(self).docs(), uri@, text@),
    {
        proof {
            lemma_text_entries_insert(self.documents@, uri@, text);
        }
        self.documents.insert(uri, text);
    }

    fn hover(&self, target: Option<HoverTarget>) -> (res: Reply)
        requires
            hover_request_ok(self.docs(), Request::Hover(target)),
        ensures
            res@ == hover_reply(self.docs(), target),
    {
        match target {
            Some(t) => {
                proof {
                    lemma_text_entries_get(self.documents@, t.uri@);
                }
                match self.documents.get(t.uri.as_str()) {
                    Some(doc) => Reply::Hover(get_hover_info(doc.as_str(), t.line, t.character)),
                    None => Reply::Null,
                }
            },
            None => Reply::Null,
        }
    }

    /// Handles a message (see [`reply_to`] and [`docs_after`]).
    pub fn handle_message(&mut self, request: Request) -> (res: Reply)
        requires
            hover_request_ok(old(self).docs(), request),
        ensures
            res@ == reply_to(old(self).docs(), request),
            final(self).docs() == docs_after(old(self).docs(), request),
    {
        match request {
            Request::Initialize => Reply::Capabilities,
            Request::DidOpen { uri, text } | Request::DidChange { uri, text } => {
                self.store(uri, text);
                Reply::Silent
            },
            Request::Completion => Reply::Completions(completion_items()),
            Request::Hover(target) => self.hover(target),
            Request::Shutdown => Reply::Null,
            Request::Exit => Reply::Exit,
            Request::Notification => Reply::Silent,
            Request::Unknown { has_id } => if has_id {
                Reply::Null
            } else {
                Reply::Silent
            },
        }
    }

    /// Handles a message read as plain JSON (see [`raw_reply_to`] and
    /// [`raw_docs_after`]).
    pub fn handle_raw_message(&mut self, request: Request, has_id: bool) -> (res: Reply)
        requires
            has_id ==> hover_request_ok(old(self).docs(), request),
        ensures
            res@ == raw_reply_to(old(self).docs(), request, has_id),
            final(self).docs() == raw_docs_after(old(self).docs(), request),
    {
        match request {
            Request::DidOpen { uri, text } => {
                self.store(uri, text);
                Reply::Silent
            },
            Request::Completion => if has_id {
                Reply::Completions(raw_completion_items())
            } else {
                Reply::Silent
            },
            Request::Hover(target) => if has_id {
                self.hover(target)
            } else {
                Reply::Silent
            },
            _ => Reply::Silent,
        }
    }
}

fn completion_items() -> (res: Vec<CompletionItem>)
    ensures
        items_model(res@) == completion_list(),
{
    let mut v: Vec<CompletionItem> = Vec::new();
    v.push(literal_item("val", 14, "Immutable variable", "val "));
    v.push(literal_item("var", 14, "Mutable variable", "var "));
    v.push(literal_item("fun", 14, "Function", "fun "));
    v.push(literal_item("type", 14, "Type definition", "type "));
    v.push(literal_item("if", 14, "If statement", "if "));
    v.push(literal_item("for", 14, "For loop", "for "));
    v.push(literal_item("import", 14, "Import", "import "));
    v.push(literal_item("export", 14, "Export declaration", "export "));
    v.push(literal_item("native", 14, "Native code block", "native "));
    v.push(literal_item("return", 14, "Return statement", "return "));
    v.push(literal_item("print", 3, "Print function", "print("));
    v.push(literal_item("\"bolt:stdio\"", 9, "Standard I/O module", "\"bolt:stdio\""));
    v.push(literal_item("\"bolt:math\"", 9, "Math utilities module", "\"bolt:math\""));
    v.push(literal_item("\"bolt:io\"", 9, "File I/O operations module", "\"bolt:io\""));
    v.push(literal_item("\"bolt:string\"", 9, "String utilities module", "\"bolt:string\""));
    v.push(literal_item("readFile", 3, "Read file contents: (path: String) -> String", "readFile("));
    v.push(literal_item("writeFile", 3, "Write file contents: (path: String, content: String) -> Bool", "writeFile("));
    v.push(literal_item("appendFile", 3, "Append to file: (path: String, content: String) -> Bool", "appendFile("));
    v.push(literal_item("deleteFile", 3, "Delete file: (path: String) -> Bool", "deleteFile("));
    v.push(literal_item("fileExists", 3, "Check if file exists: (path: String) -> Bool", "fileExists("));
    v.push(literal_item("length", 3, "Get string length: (s: String) -> Integer", "length("));
    v.push(literal_item("concat", 3, "Concatenate strings: (a: String, b: String) -> String", "concat("));
    v.push(literal_item("indexOf", 3, "Find substring index: (s: String, substr: String) -> Integer", "indexOf("));
    v.push(literal_item("contains", 3, "Check if string contains substring: (s: String, substr: String) -> Bool", "contains("));
    v.push(literal_item("trim", 3, "Remove whitespace: (s: String) -> String", "trim("));
    v.push(literal_item("Integer", 7, "Integer type", "Integer"));
    v.push(literal_item("String", 7, "String type", "String"));
    v.push(literal_item("Bool", 7, "Boolean type", "Bool"));
    v.push(literal_item("Array[T]", 7, "Generic array type", "Array[T]"));
    v.push(literal_item("Array[Integer]", 7, "Integer array", "Array[Integer]"));
    v.push(literal_item("Array[String]", 7, "String array", "Array[String]"));
    v.push(literal_item("Array[Bool]", 7, "Boolean array", "Array[Bool]"));
    v.push(literal_item("Result[T]", 7, "Generic result type", "Result[T]"));
    v.push(literal_item("Box[T]", 7, "Generic box type", "Box[T]"));
    v.push(literal_item("for in", 15, "For-in loop with Array[T]", "for item in "));
    v.push(literal_item("type def", 15, "Generic type definition", "type Name[T] = { data: T }"));
    v.push(literal_item("import io", 15, "Import file I/O functions", "import { readFile, writeFile } from \"bolt:io\""));
    v.push(literal_item("import string", 15, "Import string utilities", "import { length, concat, contains } from \"bolt:string\""));
    v.push(literal_item("import stdio", 15, "Import stdio functions", "import { print } from \"bolt:stdio\""));
    v.push(literal_item("native C", 15, "Native C function block", "native \"C\" {\\n    export fun functionName(param: Type): ReturnType\\n}"));
    v.push(literal_item("true", 12, "Boolean true", "true"));
    v.push(literal_item("false", 12, "Boolean false", "false"));
    assert(items_model(v@) =~= completion_list());
    v
}

fn raw_completion_items() -> (res: Vec<CompletionItem>)
    ensures
        items_model(res@) == raw_completion_list(),
{
    let mut v: Vec<CompletionItem> = Vec::new();
    v.push(literal_item("val", 14, "Immutable variable", "val "));
    v.push(literal_item("var", 14, "Mutable variable", "var "));
    v.push(literal_item("fun", 14, "Function", "fun "));
    v.push(literal_item("type", 14, "Type definition", "type "));
    v.push(literal_item("print", 3, "Print function", "print("));
    v.push(literal_item("Array[Integer]", 7, "Integer array", "Array[Integer]"));
    v.push(literal_item("Array[String]", 7, "String array", "Array[String]"));
    v.push(literal_item("Array[Bool]", 7, "Boolean array", "Array[Bool]"));
    assert(items_model(v@) =~= raw_completion_list());
    v
}

} // verus!
