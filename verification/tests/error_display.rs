use bolt::error::{CompileError, LexError, ParseError, SourceLocation};
use std::io::{Error as IoError, ErrorKind};

#[test]
fn test_source_location_display() {
    let loc = SourceLocation { line: 10, column: 5 };
    assert_eq!(loc.to_display_string(), "10:5");
}

#[test]
fn test_parse_error_display() {
    let error = ParseError::UnexpectedToken {
        expected: "identifier".to_string(),
        found: "number".to_string(),
        location: Some(SourceLocation { line: 5, column: 10 }),
    };
    let display = error.to_display_string();
    assert!(display.contains("5:10"));
    assert!(display.contains("identifier"));
    assert!(display.contains("number"));
}

#[test]
fn test_parse_error_without_location() {
    let error = ParseError::UnexpectedEof { expected: "closing brace".to_string(), location: None };
    let display = error.to_display_string();
    assert!(display.contains("Unexpected end of file"));
    assert!(display.contains("closing brace"));
}

#[test]
fn test_lex_error_display() {
    let error = LexError::UnexpectedCharacter {
        character: '@',
        location: SourceLocation { line: 2, column: 3 },
    };
    let display = error.to_display_string();
    assert!(display.contains("2:3"));
    assert!(display.contains("@"));
    assert!(display.contains("Unexpected character"));
}

#[test]
fn test_compile_error_from_parse_error() {
    let parse_error = ParseError::InvalidSyntax { message: "Invalid syntax".to_string(), location: None };
    let converted = CompileError::from(parse_error);
    match converted {
        CompileError::ParseError(_) => {},
        _ => panic!("Expected ParseError variant"),
    }
}

#[test]
fn test_compile_error_from_io_error() {
    let io_error = IoError::new(ErrorKind::NotFound, "File not found");
    let converted = CompileError::from(io_error);
    match converted {
        CompileError::IoError(_) => {},
        _ => panic!("Expected IoError variant"),
    }
}

#[test]
fn test_compile_error_display() {
    let converted = CompileError::CodegenError("Failed to generate code".to_string());
    let display = converted.to_display_string();
    assert!(display.contains("Code generation error"));
    assert!(display.contains("Failed to generate code"));
}

#[test]
fn test_error_trait_implementation() {
    let parse_error = ParseError::NotImplemented { feature: "async functions".to_string(), location: None };
    assert_eq!(parse_error.to_display_string(), "async functions not yet implemented");
}

#[test]
fn exact_error_texts() {
    let e = ParseError::UnexpectedToken {
        expected: "identifier".to_string(),
        found: "number".to_string(),
        location: Some(SourceLocation { line: 5, column: 10 }),
    };
    assert_eq!(e.to_display_string(), "5:10: Expected identifier, found number");
    let l = LexError::InvalidNumber { value: "12x".to_string(), location: SourceLocation { line: 1, column: 0 } };
    assert_eq!(l.to_display_string(), "1:0: Invalid number '12x'");
    let c = CompileError::from(l);
    assert_eq!(c.to_display_string(), "Lexical error: 1:0: Invalid number '12x'");
    let io = CompileError::from(IoError::new(ErrorKind::NotFound, "gone"));
    assert!(io.to_display_string().starts_with("I/O error: "));
}
