use bolt::hover::server::request_for;
use bolt::hover::diagnostics::document_diagnostics;
use bolt::hover::server::{HoverTarget, LspServer, Reply, Request};
use bolt::hover::{
    extract_documentation, find_function_declaration, find_variable_declaration, get_hover_info, hover_defined,
    split_lines, trim,
};
use bolt::lsp_core::{DocumentState, LspConfig, LspCore, LspError};
use bolt::lsp_handlers::{extract_word_at_position, get_static_hover_info, handle_hover};

const DOC: &str = "/**\n * Adds two numbers.\n * Returns the sum.\n */\nfun add(a: Integer, b: Integer): Integer {\n    return a + b\n}\n\n/** The answer */\nval answer: Integer = 42\nvar count := 0\n";

#[test]
fn lines_and_trim() {
    assert_eq!(split_lines("a\r\nb\n\nc\n"), vec!["a".to_string(), "b".to_string(), "".to_string(), "c".to_string()]);
    assert_eq!(split_lines(""), Vec::<String>::new());
    assert_eq!(trim(&"  x y \t".to_string()), "x y");
}

#[test]
fn documentation_comments() {
    let lines = split_lines(DOC);
    assert_eq!(extract_documentation(&lines, 4), Some("Adds two numbers.\n\nReturns the sum.".to_string()));
    assert_eq!(extract_documentation(&lines, 9), Some("The answer".to_string()));
    assert_eq!(extract_documentation(&lines, 10), None);
    assert_eq!(extract_documentation(&lines, 100), None);
}

#[test]
fn declarations_found() {
    assert_eq!(
        find_function_declaration(DOC, "add"),
        Some("**`add`**\n\nAdds two numbers.\n\nReturns the sum.\n\n*Function*\n\n```bolt\nfun add(a: Integer, b: Integer): Integer\n```".to_string())
    );
    assert_eq!(
        find_variable_declaration(DOC, "answer"),
        Some("**`answer`**\n\nThe answer\n\n*Immutable variable*\n\nType: `Integer`".to_string())
    );
    assert_eq!(
        find_variable_declaration(DOC, "count"),
        Some("**`count`**\n\n*Mutable variable*\n\nType: ``".to_string())
    );
    assert_eq!(
        find_variable_declaration("val y = 3\n", "y"),
        Some("**`y`**\n\n*Immutable variable*\n\nType: *inferred*".to_string())
    );
    assert_eq!(find_variable_declaration(DOC, "missing"), None);
    assert_eq!(find_function_declaration(DOC, "missing"), None);
}

#[test]
fn hover_texts() {
    assert!(hover_defined(DOC, 4, 5));
    assert_eq!(get_hover_info(DOC, 4, 5), find_function_declaration(DOC, "add").unwrap());
    assert!(get_hover_info(DOC, 4, 1).starts_with("**`fun`**\n\n*Keyword*"));
    assert_eq!(get_hover_info(DOC, 100, 0), "No information available");
    assert_eq!(get_hover_info(DOC, 7, 0), "No information available");
    assert_eq!(
        get_hover_info("x := zeta\n", 0, 6),
        "**`zeta`**\n\n*Identifier*\n\nNo additional information available."
    );
    assert_eq!(
        get_hover_info("true\n", 0, 2),
        "**`true`**\n\n*Boolean literal*\n\nA boolean value representing a true condition."
    );
}

#[test]
fn unbalanced_function_is_reported_undefined() {
    let doc = "fun f(\n}\n";
    assert!(!hover_defined(doc, 0, 4));
}

#[test]
fn server_messages() {
    let mut server = LspServer::new();
    assert!(matches!(server.handle_message(Request::Initialize), Reply::Capabilities));
    let open = Request::DidOpen { uri: "file:///a.bolt".to_string(), text: "val x := 1\n".to_string() };
    assert!(matches!(server.handle_message(open), Reply::Silent));
    match server.handle_message(Request::Hover(Some(HoverTarget { uri: "file:///a.bolt".to_string(), line: 0, character: 4 }))) {
        Reply::Hover(t) => assert_eq!(t, "**`x`**\n\n*Immutable variable*\n\nType: ``"),
        other => panic!("unexpected {:?}", other),
    }
    let missing = Request::Hover(Some(HoverTarget { uri: "file:///b.bolt".to_string(), line: 0, character: 0 }));
    assert!(matches!(server.handle_message(missing), Reply::Null));
    match server.handle_message(Request::Completion) {
        Reply::Completions(items) => {
            assert_eq!(items.len(), 42);
            assert_eq!(items[0].label, "val");
            assert_eq!(items[41].label, "false");
        },
        other => panic!("unexpected {:?}", other),
    }
    assert!(matches!(server.handle_message(Request::Unknown { has_id: true }), Reply::Null));
    assert!(matches!(server.handle_message(Request::Unknown { has_id: false }), Reply::Silent));
    assert!(matches!(server.handle_raw_message(Request::Completion, false), Reply::Silent));
    match server.handle_raw_message(Request::Completion, true) {
        Reply::Completions(items) => assert_eq!(items.len(), 8),
        other => panic!("unexpected {:?}", other),
    }
    assert!(matches!(server.handle_message(Request::Exit), Reply::Exit));
}

#[test]
fn core_documents() {
    let mut core = LspCore::with_default_config();
    core.open_document("u".to_string(), "val x := 1\n".to_string(), 1, 10).unwrap();
    assert_eq!(core.documents.get("u").unwrap().version, 1);
    core.update_document("u".to_string(), "val y := 2\n".to_string(), 2, 20).unwrap();
    let doc = core.documents.get("u").unwrap();
    assert_eq!(doc.content, "val y := 2\n");
    assert_eq!(doc.last_updated, 20);
    match core.update_document("v".to_string(), String::new(), 1, 30) {
        Err(LspError::DocumentNotFound(u)) => assert_eq!(u, "v"),
        _ => panic!("expected DocumentNotFound"),
    }
    core.close_document("u").unwrap();
    assert!(core.documents.get("u").is_none());
}

#[test]
fn core_cleanup_drops_old_documents() {
    let mut config = LspConfig::default();
    config.max_documents = 4;
    config.document_cleanup_interval = 100;
    let mut core = LspCore::new(config);
    for (i, name) in ["a", "b", "c", "d"].iter().enumerate() {
        core.open_document(name.to_string(), String::new(), 1, i as u64).unwrap();
    }
    // At the limit: a quarter of the 4 documents (one) unchanged for more
    // than 100 ms goes, the first in order.
    core.open_document("e".to_string(), String::new(), 1, 150).unwrap();
    assert!(core.documents.get("a").is_none());
    assert!(core.documents.get("b").is_some());
    assert_eq!(core.documents.len(), 4);
}

#[test]
fn core_type_info_and_completions() {
    let mut core = LspCore::with_default_config();
    core.open_document("u".to_string(), "val x := 1\n".to_string(), 1, 0).unwrap();
    let info = core.get_type_info("u", "concat", 0).unwrap().unwrap();
    assert_eq!(info, "**`concat(a: String, b: String): String`**\n\n*Native Function*");
    let print = core.get_type_info("u", "print", 0).unwrap().unwrap();
    assert_eq!(print, "**`print(value: String): void`**\n\n*Function*");
    assert_eq!(core.get_type_info("u", "nothing", 0).unwrap(), None);
    assert!(matches!(core.get_type_info("missing", "x", 0), Err(LspError::DocumentNotFound(_))));
    let items = core.get_completions("u", 0, 0).unwrap();
    assert_eq!(items.len(), 15 + 12 + 7);
    assert_eq!(items[15].label, "print");
    assert_eq!(items[15].detail, "(value: String) -> None");
    assert_eq!(items[16].detail, "(value: Integer) -> Some(String)");
    assert!(core.documents.get("u").unwrap().parsed_ast.is_some());
}

#[test]
fn core_parse_errors() {
    let mut core = LspCore::with_default_config();
    core.open_document("bad".to_string(), "fun (".to_string(), 1, 0).unwrap();
    match core.get_type_info("bad", "x", 0) {
        Err(LspError::ParseError(m)) => assert!(m.starts_with("Parser error: ")),
        _ => panic!("expected a parse error"),
    }
    let items = core.get_completions("bad", 0, 0).unwrap();
    assert_eq!(items.len(), 15 + 7);
    assert_eq!(LspError::ParseError("boom".to_string()).to_display_string(), "Parse Error: boom");
    let doc = DocumentState::new("u".to_string(), "t".to_string(), 3, 7);
    assert_eq!(doc.version, 3);
    assert!(doc.parsed_ast.is_none());
}

#[test]
fn refactored_handlers() {
    let mut core = LspCore::with_default_config();
    core.open_document("u".to_string(), "val total := 1\nprint(total)\n".to_string(), 1, 0).unwrap();
    assert_eq!(extract_word_at_position(&core, "u", 1, 1).unwrap(), "print");
    assert_eq!(extract_word_at_position(&core, "u", 1, 5).unwrap(), "");
    assert_eq!(extract_word_at_position(&core, "u", 5, 0).unwrap(), "");
    assert!(extract_word_at_position(&core, "v", 0, 0).is_err());
    assert_eq!(handle_hover(&mut core, "u", 1, 0).unwrap(), "**`print(value: String): void`**\n\n*Function*");
    assert_eq!(handle_hover(&mut core, "u", 0, 6).unwrap(), "**`total`**");
    assert_eq!(get_static_hover_info(&"Bool".to_string()), "**`Bool`**\n\n*Built-in type*\n\nBoolean type with values `true` and `false`.");
}

#[test]
fn document_diagnostics_report_parse_and_line_problems() {
    let ds = document_diagnostics("val x = 1\nprint(x)\n");
    assert_eq!(ds.len(), 3);
    assert!(ds[0].message.starts_with("Parse error: "));
    assert_eq!((ds[0].line, ds[0].end_character, ds[0].severity), (0, 0, 1));
    assert_eq!(ds[1].message, "Use := for variable declaration");
    assert_eq!((ds[1].line, ds[1].end_character, ds[1].severity), (0, 9, 1));
    assert_eq!(ds[2].message, "print function used but bolt:stdio not imported");
    assert_eq!((ds[2].line, ds[2].end_character, ds[2].severity), (1, 8, 2));

    let clean = document_diagnostics("import { print } from \"bolt:stdio\"\nval x := 1\nprint(x)\n");
    assert!(clean.is_empty());

    let lex = document_diagnostics("#");
    assert_eq!(lex.len(), 1);
    assert!(lex[0].message.starts_with("Lexer error: "));

    let wide = document_diagnostics("val s = \"é\"\n");
    let last = wide.last().unwrap();
    assert_eq!(last.message, "Use := for variable declaration");
    assert_eq!(last.end_character, 12);
}

#[test]
fn hover_follows_the_last_change() {
    let mut server = LspServer::new();
    let uri = "file:///a.bolt".to_string();
    server.handle_message(Request::DidOpen { uri: uri.clone(), text: "val x := 1\n".to_string() });
    server.handle_message(Request::DidChange { uri: uri.clone(), text: "var y: Integer = 2\n".to_string() });
    match server.handle_message(Request::Hover(Some(HoverTarget { uri: uri.clone(), line: 0, character: 4 }))) {
        Reply::Hover(t) => assert_eq!(t, "**`y`**\n\n*Mutable variable*\n\nType: `Integer`"),
        other => panic!("unexpected {:?}", other),
    }
}

#[test]
fn open_documents_stay_within_the_limit() {
    let mut config = LspConfig::default();
    config.max_documents = 2;
    let mut core = LspCore::new(config);
    core.open_document("a".to_string(), "val a := 1\n".to_string(), 1, 10).unwrap();
    core.open_document("b".to_string(), "val b := 1\n".to_string(), 1, 20).unwrap();
    core.open_document("c".to_string(), "val c := 1\n".to_string(), 1, 30).unwrap();
    assert_eq!(core.documents.len(), 2);
    // The least recently changed document made room.
    assert!(core.documents.get("a").is_none());
    assert!(core.documents.get("b").is_some());
    assert_eq!(core.documents.get("c").unwrap().content, "val c := 1\n");
    // Reopening an open document at the limit keeps the count.
    core.open_document("c".to_string(), "val c := 2\n".to_string(), 2, 40).unwrap();
    assert_eq!(core.documents.len(), 2);
}

#[test]
fn requests_from_method_names() {
    use_request_for();
}

fn use_request_for() {
    let r = request_for("textDocument/didOpen", Some("u".to_string()), Some("t".to_string()), None, None, false);
    assert!(matches!(r, Request::DidOpen { ref uri, ref text } if uri == "u" && text == "t"));
    let r = request_for("textDocument/didChange", Some("u".to_string()), Some("t".to_string()), None, None, false);
    assert!(matches!(r, Request::Notification));
    let r = request_for("textDocument/hover", Some("u".to_string()), None, None, Some((1, 2)), true);
    assert!(matches!(r, Request::Hover(Some(HoverTarget { line: 1, character: 2, .. }))));
    assert!(matches!(request_for("textDocument/hover", None, None, None, Some((1, 2)), true), Request::Hover(None)));
    assert!(matches!(request_for("initialize", None, None, None, None, true), Request::Initialize));
    assert!(matches!(request_for("initialized", None, None, None, None, false), Request::Notification));
    assert!(matches!(request_for("$/cancelRequest", None, None, None, None, false), Request::Unknown { has_id: false }));
    assert!(matches!(request_for("exit", None, None, None, None, false), Request::Exit));
}
