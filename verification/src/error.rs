//! Error values of the lexer, the parser and the compiler driver.
use vstd::prelude::*;
use crate::text::{nat_decimal, owned, push_char, usize_to_string};

verus! {

/// `std::io::Error`, carried through unchanged.
#[verifier::external_type_specification]
#[verifier::external_body]
pub struct ExIoError(std::io::Error);

/// A line and column in the source text.
#[derive(Debug, Clone, Copy)]
pub struct SourceLocation {
    pub line: usize,
    pub column: usize,
}

/// `line:column`.
pub open spec fn spec_location_text(loc: SourceLocation) -> Seq<char> {
    nat_decimal(loc.line as nat) + ":"@ + nat_decimal(loc.column as nat)
}

/// `location: ` when there is a location, nothing otherwise.
pub open spec fn spec_location_prefix(loc: Option<SourceLocation>) -> Seq<char> {
    match loc {
        Some(l) => spec_location_text(l) + ": "@,
        None => Seq::empty(),
    }
}

impl SourceLocation {
    /// The text that the original `Display` impl writes: `line:column`.
    pub fn to_display_string(&self) -> (res: String)
        ensures
            res@ == spec_location_text(*self),
    {
        let mut s = usize_to_string(self.line);
        s.append(":");
        let c = usize_to_string(self.column);
        s.append(c.as_str());
        s
    }
}

fn location_prefix(loc: &Option<SourceLocation>) -> (res: String)
    ensures
        res@ == spec_location_prefix(*loc),
{
    match loc {
        Some(l) => {
            let mut s = l.to_display_string();
            s.append(": ");
            s
        },
        None => String::new(),
    }
}

#[derive(Debug)]
pub enum ParseError {
    UnexpectedToken { expected: String, found: String, location: Option<SourceLocation> },
    UnexpectedEof { expected: String, location: Option<SourceLocation> },
    InvalidSyntax { message: String, location: Option<SourceLocation> },
    NotImplemented { feature: String, location: Option<SourceLocation> },
}

/// The text of a parse error.
pub open spec fn spec_parse_error_text(e: ParseError) -> Seq<char> {
    match e {
        ParseError::UnexpectedToken { expected, found, location } => spec_location_prefix(location)
            + "Expected "@ + expected@ + ", found "@ + found@,
        ParseError::UnexpectedEof { expected, location } => spec_location_prefix(location)
            + "Unexpected end of file, expected "@ + expected@,
        ParseError::InvalidSyntax { message, location } => spec_location_prefix(location)
            + message@,
        ParseError::NotImplemented { feature, location } => spec_location_prefix(location)
            + feature@ + " not yet implemented"@,
    }
}

impl ParseError {
    /// The text that the original `Display` impl writes.
    pub fn to_display_string(&self) -> (res: String)
        ensures
            res@ == spec_parse_error_text(*self),
    {
        match self {
            ParseError::UnexpectedToken { expected, found, location } => {
                let mut s = location_prefix(location);
                s.append("Expected ");
                s.append(expected.as_str());
                s.append(", found ");
                s.append(found.as_str());
                s
            },
            ParseError::UnexpectedEof { expected, location } => {
                let mut s = location_prefix(location);
                s.append("Unexpected end of file, expected ");
                s.append(expected.as_str());
                s
            },
            ParseError::InvalidSyntax { message, location } => {
                let mut s = location_prefix(location);
                s.append(message.as_str());
                s
            },
            ParseError::NotImplemented { feature, location } => {
                let mut s = location_prefix(location);
                s.append(feature.as_str());
                s.append(" not yet implemented");
                s
            },
        }
    }
}

#[derive(Debug)]
pub enum LexError {
    UnexpectedCharacter { character: char, location: SourceLocation },
    UnterminatedString { location: SourceLocation },
    UnterminatedComment { location: SourceLocation },
    InvalidNumber { value: String, location: SourceLocation },
}

/// The text of a lexical error.
pub open spec fn spec_lex_error_text(e: LexError) -> Seq<char> {
    match e {
        LexError::UnexpectedCharacter { character, location } => spec_location_text(location)
            + ": Unexpected character '"@ + seq![character] + "'"@,
        LexError::UnterminatedString { location } => spec_location_text(location)
            + ": Unterminated string literal"@,
        LexError::UnterminatedComment { location } => spec_location_text(location)
            + ": Unterminated comment"@,
        LexError::InvalidNumber { value, location } => spec_location_text(location)
            + ": Invalid number '"@ + value@ + "'"@,
    }
}

impl LexError {
    /// The text that the original `Display` impl writes.
    pub fn to_display_string(&self) -> (res: String)
        ensures
            res@ == spec_lex_error_text(*self),
    {
        match self {
            LexError::UnexpectedCharacter { character, location } => {
                let mut s = location.to_display_string();
                s.append(": Unexpected character '");
                push_char(&mut s, *character);
                s.append("'");
                assert(s@ =~= spec_lex_error_text(*self));
                s
            },
            LexError::UnterminatedString { location } => {
                let mut s = location.to_display_string();
                s.append(": Unterminated string literal");
                s
            },
            LexError::UnterminatedComment { location } => {
                let mut s = location.to_display_string();
                s.append(": Unterminated comment");
                s
            },
            LexError::InvalidNumber { value, location } => {
                let mut s = location.to_display_string();
                s.append(": Invalid number '");
                s.append(value.as_str());
                s.append("'");
                s
            },
        }
    }
}

#[derive(Debug)]
pub enum CompileError {
    ParseError(ParseError),
    LexError(LexError),
    CodegenError(String),
    IoError(std::io::Error),
}

/// The text that `Display` writes for an I/O error (std's `to_string`). What
/// the text holds depends on the operating system, so nothing is stated of it.
#[verifier::external_body]
fn io_error_text(e: &std::io::Error) -> String {
    e.to_string()
}

impl CompileError {
    /// The text that the original `Display` impl writes. For an I/O error it is
    /// `I/O error: ` followed by the operating system's description.
    pub fn to_display_string(&self) -> (res: String)
        ensures
            self matches CompileError::ParseError(e) ==> res@ == "Parse error: "@
                + spec_parse_error_text(*e),
            self matches CompileError::LexError(e) ==> res@ == "Lexical error: "@
                + spec_lex_error_text(*e),
            self matches CompileError::CodegenError(m) ==> res@ == "Code generation error: "@
                + m@,
            self is IoError ==> exists|t: Seq<char>| res@ == "I/O error: "@ + t,
    {
        match self {
            CompileError::ParseError(e) => {
                let mut s = owned("Parse error: ");
                let t = e.to_display_string();
                s.append(t.as_str());
                s
            },
            CompileError::LexError(e) => {
                let mut s = owned("Lexical error: ");
                let t = e.to_display_string();
                s.append(t.as_str());
                s
            },
            CompileError::CodegenError(m) => {
                let mut s = owned("Code generation error: ");
                s.append(m.as_str());
                s
            },
            CompileError::IoError(e) => {
                let mut s = owned("I/O error: ");
                let t = io_error_text(e);
                s.append(t.as_str());
                s
            },
        }
    }
}

impl From<ParseError> for CompileError {
    fn from(err: ParseError) -> (res: Self) {
        CompileError::ParseError(err)
    }
}

impl vstd::std_specs::convert::FromSpecImpl<ParseError> for CompileError {
    open spec fn obeys_from_spec() -> bool {
        true
    }

    open spec fn from_spec(v: ParseError) -> CompileError {
        CompileError::ParseError(v)
    }
}

impl From<LexError> for CompileError {
    fn from(err: LexError) -> (res: Self) {
        CompileError::LexError(err)
    }
}

impl vstd::std_specs::convert::FromSpecImpl<LexError> for CompileError {
    open spec fn obeys_from_spec() -> bool {
        true
    }

    open spec fn from_spec(v: LexError) -> CompileError {
        CompileError::LexError(v)
    }
}

impl From<std::io::Error> for CompileError {
    fn from(err: std::io::Error) -> (res: Self) {
        CompileError::IoError(err)
    }
}

impl vstd::std_specs::convert::FromSpecImpl<std::io::Error> for CompileError {
    open spec fn obeys_from_spec() -> bool {
        true
    }

    open spec fn from_spec(v: std::io::Error) -> CompileError {
        CompileError::IoError(v)
    }
}

} // verus!
