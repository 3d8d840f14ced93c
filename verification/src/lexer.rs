//! Turns Bolt source text into tokens.
use vstd::prelude::*;
use crate::text::{chars_of, owned, push_char, string_is};

verus! {

#[derive(Debug, Clone, PartialEq)]
pub enum TokenType {
    Var,
    Val,
    Fun,
    Type,
    If,
    Else,
    True,
    False,
    Return,
    For,
    In,
    Import,
    Export,
    From,
    Native,
    Identifier(String),
    String(String),
    Integer(i64),
    Colon,
    ColonEqual,
    Equal,
    LeftBrace,
    RightBrace,
    LeftParen,
    RightParen,
    LeftBracket,
    RightBracket,
    Comma,
    Semicolon,
    Plus,
    Minus,
    Star,
    Slash,
    Percent,
    EqualEqual,
    NotEqual,
    Less,
    LessEqual,
    Greater,
    GreaterEqual,
    AndAnd,
    OrOr,
    Bang,
    Dot,
    Caret,
    Ampersand,
    Newline,
    Eof,
}

#[derive(Debug, Clone)]
pub struct Token {
    pub token_type: TokenType,
    pub line: usize,
    pub column: usize,
}

/// Model of a [`TokenType`].
pub enum SpecTok {
    Var,
    Val,
    Fun,
    Type,
    If,
    Else,
    True,
    False,
    Return,
    For,
    In,
    Import,
    Export,
    From,
    Native,
    Identifier(Seq<char>),
    String(Seq<char>),
    Integer(i64),
    Colon,
    ColonEqual,
    Equal,
    LeftBrace,
    RightBrace,
    LeftParen,
    RightParen,
    LeftBracket,
    RightBracket,
    Comma,
    Semicolon,
    Plus,
    Minus,
    Star,
    Slash,
    Percent,
    EqualEqual,
    NotEqual,
    Less,
    LessEqual,
    Greater,
    GreaterEqual,
    AndAnd,
    OrOr,
    Bang,
    Dot,
    Caret,
    Ampersand,
    Newline,
    Eof,
}

/// Model of a [`Token`].
pub struct SpecToken {
    pub token_type: SpecTok,
    pub line: usize,
    pub column: usize,
}

pub open spec fn tok_model(t: TokenType) -> SpecTok {
    match t {
        TokenType::Var => SpecTok::Var,
        TokenType::Val => SpecTok::Val,
        TokenType::Fun => SpecTok::Fun,
        TokenType::Type => SpecTok::Type,
        TokenType::If => SpecTok::If,
        TokenType::Else => SpecTok::Else,
        TokenType::True => SpecTok::True,
        TokenType::False => SpecTok::False,
        TokenType::Return => SpecTok::Return,
        TokenType::For => SpecTok::For,
        TokenType::In => SpecTok::In,
        TokenType::Import => SpecTok::Import,
        TokenType::Export => SpecTok::Export,
        TokenType::From => SpecTok::From,
        TokenType::Native => SpecTok::Native,
        TokenType::Identifier(s) => SpecTok::Identifier(s@),
        TokenType::String(s) => SpecTok::String(s@),
        TokenType::Integer(n) => SpecTok::Integer(n),
        TokenType::Colon => SpecTok::Colon,
        TokenType::ColonEqual => SpecTok::ColonEqual,
        TokenType::Equal => SpecTok::Equal,
        TokenType::LeftBrace => SpecTok::LeftBrace,
        TokenType::RightBrace => SpecTok::RightBrace,
        TokenType::LeftParen => SpecTok::LeftParen,
        TokenType::RightParen => SpecTok::RightParen,
        TokenType::LeftBracket => SpecTok::LeftBracket,
        TokenType::RightBracket => SpecTok::RightBracket,
        TokenType::Comma => SpecTok::Comma,
        TokenType::Semicolon => SpecTok::Semicolon,
        TokenType::Plus => SpecTok::Plus,
        TokenType::Minus => SpecTok::Minus,
        TokenType::Star => SpecTok::Star,
        TokenType::Slash => SpecTok::Slash,
        TokenType::Percent => SpecTok::Percent,
        TokenType::EqualEqual => SpecTok::EqualEqual,
        TokenType::NotEqual => SpecTok::NotEqual,
        TokenType::Less => SpecTok::Less,
        TokenType::LessEqual => SpecTok::LessEqual,
        TokenType::Greater => SpecTok::Greater,
        TokenType::GreaterEqual => SpecTok::GreaterEqual,
        TokenType::AndAnd => SpecTok::AndAnd,
        TokenType::OrOr => SpecTok::OrOr,
        TokenType::Bang => SpecTok::Bang,
        TokenType::Dot => SpecTok::Dot,
        TokenType::Caret => SpecTok::Caret,
        TokenType::Ampersand => SpecTok::Ampersand,
        TokenType::Newline => SpecTok::Newline,
        TokenType::Eof => SpecTok::Eof,
    }
}

impl View for TokenType {
    type V = SpecTok;

    open spec fn view(&self) -> SpecTok {
        tok_model(*self)
    }
}

impl View for Token {
    type V = SpecToken;

    open spec fn view(&self) -> SpecToken {
        SpecToken { token_type: self.token_type@, line: self.line, column: self.column }
    }
}

pub open spec fn tokens_model(ts: Seq<Token>) -> Seq<SpecToken> {
    Seq::new(ts.len(), |i: int| ts[i]@)
}

// ---------------------------------------------------------------------------
// Character classes and number text (std)
// ---------------------------------------------------------------------------

/// Whether a character is ASCII.
pub open spec fn is_ascii_char(c: char) -> bool {
    (c as u32) < 128
}

/// Whether std's `char::is_alphabetic` holds of a non-ASCII character (the
/// Unicode Alphabetic property).
pub uninterp spec fn unicode_alphabetic(c: char) -> bool;

/// Whether std's `char::is_numeric` holds of a non-ASCII character (Unicode
/// general categories Nd, Nl, No).
pub uninterp spec fn unicode_numeric(c: char) -> bool;

/// std's `char::is_alphabetic`: among ASCII characters exactly the letters
/// `A`-`Z` and `a`-`z` have the Alphabetic property.
pub open spec fn spec_is_alphabetic(c: char) -> bool {
    if is_ascii_char(c) {
        ('a' <= c && c <= 'z') || ('A' <= c && c <= 'Z')
    } else {
        unicode_alphabetic(c)
    }
}

/// std's `char::is_numeric`: among ASCII characters exactly the digits
/// `0`-`9` are in the numeric categories.
pub open spec fn spec_is_numeric(c: char) -> bool {
    if is_ascii_char(c) {
        '0' <= c && c <= '9'
    } else {
        unicode_numeric(c)
    }
}

/// std's `char::is_alphabetic` (see [`spec_is_alphabetic`]).
#[verifier::external_body]
fn is_alphabetic(c: char) -> (res: bool)
    ensures
        res == spec_is_alphabetic(c),
        !is_ascii_char(c) ==> res == unicode_alphabetic(c),
{
    c.is_alphabetic()
}

/// std's `char::is_numeric` (see [`spec_is_numeric`]).
#[verifier::external_body]
fn is_numeric(c: char) -> (res: bool)
    ensures
        res == spec_is_numeric(c),
        !is_ascii_char(c) ==> res == unicode_numeric(c),
{
    c.is_numeric()
}

/// std's `char::is_alphanumeric`, which its documentation defines as
/// `is_alphabetic() || is_numeric()`.
#[verifier::external_body]
pub(crate) fn is_alphanumeric(c: char) -> (res: bool)
    ensures
        res == (spec_is_alphabetic(c) || spec_is_numeric(c)),
{
    c.is_alphanumeric()
}

pub open spec fn is_ascii_digit(c: char) -> bool {
    '0' <= c && c <= '9'
}

pub open spec fn all_ascii_digits(s: Seq<char>) -> bool {
    forall|i: int| 0 <= i < s.len() ==> is_ascii_digit(#[trigger] s[i])
}

/// Value of a string of decimal digits.
pub open spec fn digits_value(s: Seq<char>) -> int
    decreases s.len(),
{
    if s.len() == 0 {
        0
    } else {
        digits_value(s.subrange(0, s.len() - 1)) * 10 + (s[s.len() - 1] as int - '0' as int)
    }
}

/// What std's `str::parse::<i64>` gives: an optional `+` or `-` followed by
/// one or more ASCII digits, with a value in range; nothing else parses.
pub open spec fn spec_parse_i64(s: Seq<char>) -> Option<i64> {
    if s.len() > 0 && (s[0] == '+' || s[0] == '-') {
        let d = s.subrange(1, s.len() as int);
        let v = if s[0] == '-' { -digits_value(d) } else { digits_value(d) };
        if d.len() > 0 && all_ascii_digits(d) && i64::MIN <= v <= i64::MAX {
            Some(v as i64)
        } else {
            None
        }
    } else {
        let v = digits_value(s);
        if s.len() > 0 && all_ascii_digits(s) && v <= i64::MAX {
            Some(v as i64)
        } else {
            None
        }
    }
}

/// std's `str::parse::<i64>`, which accepts exactly the texts that
/// [`spec_parse_i64`] accepts and gives their value.
#[verifier::external_body]
fn parse_i64(s: &str) -> (res: Option<i64>)
    ensures
        res == spec_parse_i64(s@),
{
    s.parse::<i64>().ok()
}

// ---------------------------------------------------------------------------
// The lexing model
// ---------------------------------------------------------------------------

/// Where the lexer stands: position in the input, and the line and column it reports.
pub struct LexPos {
    pub pos: int,
    pub line: int,
    pub col: int,
}

pub open spec fn at_end(input: Seq<char>, s: LexPos) -> bool {
    s.pos >= input.len()
}

/// The current character; `'\0'` past the end.
pub open spec fn cur(input: Seq<char>, s: LexPos) -> char {
    if at_end(input, s) {
        '\0'
    } else {
        input[s.pos]
    }
}

/// One character further: a newline starts the next line at column 1.
pub open spec fn adv(input: Seq<char>, s: LexPos) -> LexPos {
    if at_end(input, s) {
        s
    } else if input[s.pos] == '\n' {
        LexPos { pos: s.pos + 1, line: s.line + 1, col: 1 }
    } else {
        LexPos { pos: s.pos + 1, line: s.line, col: s.col + 1 }
    }
}

/// Past spaces, tabs and carriage returns (not newlines, which are tokens).
pub open spec fn skip_ws(input: Seq<char>, s: LexPos) -> LexPos
    decreases input.len() - s.pos,
{
    if !at_end(input, s) && (cur(input, s) == ' ' || cur(input, s) == '\r' || cur(input, s) == '\t') {
        skip_ws(input, adv(input, s))
    } else {
        s
    }
}

/// Past the rest of a block comment, up to and including `*/`, or to the end.
/// A newline inside a comment counts twice towards the line number.
pub open spec fn skip_comment(input: Seq<char>, s: LexPos) -> LexPos
    decreases input.len() - s.pos,
{
    if at_end(input, s) {
        s
    } else if cur(input, s) == '*' {
        let s1 = adv(input, s);
        if !at_end(input, s1) && cur(input, s1) == '/' {
            adv(input, s1)
        } else {
            skip_comment(input, s1)
        }
    } else if cur(input, s) == '\n' {
        skip_comment(input, adv(input, LexPos { line: s.line + 1, ..s }))
    } else {
        skip_comment(input, adv(input, s))
    }
}

/// Past the rest of a line comment: up to the newline that ends it (the
/// newline is a token) or to the end.
pub open spec fn skip_line(input: Seq<char>, s: LexPos) -> LexPos
    decreases input.len() - s.pos,
{
    if !at_end(input, s) && cur(input, s) != '\n' {
        skip_line(input, adv(input, s))
    } else {
        s
    }
}

/// Whether a `//` line comment starts at `s`.
pub open spec fn line_comment_at(input: Seq<char>, s: LexPos) -> bool {
    cur(input, s) == '/' && cur(input, adv(input, s)) == '/'
}

/// Whether a `/*` block comment starts at `s`.
pub open spec fn block_comment_at(input: Seq<char>, s: LexPos) -> bool {
    cur(input, s) == '/' && cur(input, adv(input, s)) == '*'
}

/// Past everything between tokens: spaces, tabs and carriage returns, line
/// comments and block comments, in any order.
pub open spec fn skip_trivia(input: Seq<char>, s: LexPos) -> LexPos
    decreases input.len() - s.pos,
{
    let s1 = skip_ws(input, s);
    if line_comment_at(input, s1) {
        let s2 = skip_line(input, s1);
        if s.pos < s2.pos <= input.len() {
            skip_trivia(input, s2)
        } else {
            s2
        }
    } else if block_comment_at(input, s1) {
        let s2 = skip_comment(input, adv(input, adv(input, s1)));
        if s.pos < s2.pos <= input.len() {
            skip_trivia(input, s2)
        } else {
            s2
        }
    } else {
        s1
    }
}

/// The character that an escape `\c` stands for inside a string literal.
pub open spec fn escaped(acc: Seq<char>, c: char) -> Seq<char> {
    if c == 'n' {
        acc.push('\n')
    } else if c == 't' {
        acc.push('\t')
    } else if c == 'r' {
        acc.push('\r')
    } else if c == '\\' {
        acc.push('\\')
    } else if c == '"' {
        acc.push('"')
    } else {
        acc.push('\\').push(c)
    }
}

/// The body of a string literal, up to the closing quote or the end.
pub open spec fn string_body(input: Seq<char>, s: LexPos, acc: Seq<char>) -> (Seq<char>, LexPos)
    decreases input.len() - s.pos,
{
    if at_end(input, s) || cur(input, s) == '"' {
        (acc, s)
    } else if cur(input, s) == '\\' {
        let s1 = adv(input, s);
        if !at_end(input, s1) {
            string_body(input, adv(input, s1), escaped(acc, cur(input, s1)))
        } else {
            string_body(input, s1, acc)
        }
    } else {
        string_body(input, adv(input, s), acc.push(cur(input, s)))
    }
}

/// A string literal starting at its opening quote.
pub open spec fn read_string(input: Seq<char>, s: LexPos) -> (SpecTok, LexPos) {
    let (v, s2) = string_body(input, adv(input, s), Seq::empty());
    let s3 = if !at_end(input, s2) { adv(input, s2) } else { s2 };
    (SpecTok::String(v), s3)
}

/// The longest run of characters for which `numeric_only` (digits) or
/// `is_alphanumeric || '_'` (identifiers) holds.
pub open spec fn scan_run(input: Seq<char>, s: LexPos, acc: Seq<char>, numeric_only: bool) -> (Seq<char>, LexPos)
    decreases input.len() - s.pos,
{
    let c = cur(input, s);
    let ok = if numeric_only {
        spec_is_numeric(c)
    } else {
        spec_is_alphabetic(c) || spec_is_numeric(c) || c == '_'
    };
    if !at_end(input, s) && ok {
        scan_run(input, adv(input, s), acc.push(c), numeric_only)
    } else {
        (acc, s)
    }
}

/// The token of a word: a keyword or an identifier.
pub open spec fn keyword_or_identifier(v: Seq<char>) -> SpecTok {
    if v == "var"@ {
        SpecTok::Var
    } else if v == "val"@ {
        SpecTok::Val
    } else if v == "fun"@ {
        SpecTok::Fun
    } else if v == "type"@ {
        SpecTok::Type
    } else if v == "if"@ {
        SpecTok::If
    } else if v == "else"@ {
        SpecTok::Else
    } else if v == "true"@ {
        SpecTok::True
    } else if v == "false"@ {
        SpecTok::False
    } else if v == "return"@ {
        SpecTok::Return
    } else if v == "for"@ {
        SpecTok::For
    } else if v == "in"@ {
        SpecTok::In
    } else if v == "import"@ {
        SpecTok::Import
    } else if v == "export"@ {
        SpecTok::Export
    } else if v == "from"@ {
        SpecTok::From
    } else {
        SpecTok::Identifier(v)
    }
}

/// A one-character token, or the two-character token it starts when the
/// next character is `second`.
pub open spec fn one_or_two(input: Seq<char>, s: LexPos, second: char, one: SpecTok, two: SpecTok) -> (SpecTok, LexPos) {
    let s1 = adv(input, s);
    if cur(input, s1) == second {
        (two, adv(input, s1))
    } else {
        (one, s1)
    }
}

/// The single-character tokens.
pub open spec fn single_char_token(c: char) -> Option<SpecTok> {
    if c == '{' {
        Some(SpecTok::LeftBrace)
    } else if c == '}' {
        Some(SpecTok::RightBrace)
    } else if c == '(' {
        Some(SpecTok::LeftParen)
    } else if c == ')' {
        Some(SpecTok::RightParen)
    } else if c == '[' {
        Some(SpecTok::LeftBracket)
    } else if c == ']' {
        Some(SpecTok::RightBracket)
    } else if c == ',' {
        Some(SpecTok::Comma)
    } else if c == ';' {
        Some(SpecTok::Semicolon)
    } else if c == '+' {
        Some(SpecTok::Plus)
    } else if c == '-' {
        Some(SpecTok::Minus)
    } else if c == '*' {
        Some(SpecTok::Star)
    } else if c == '%' {
        Some(SpecTok::Percent)
    } else if c == '.' {
        Some(SpecTok::Dot)
    } else if c == '^' {
        Some(SpecTok::Caret)
    } else if c == '\n' {
        Some(SpecTok::Newline)
    } else {
        None
    }
}

/// The next token from a position that is not at the end and not on
/// whitespace or a comment: `None` where the lexer gives up (an unexpected
/// character, a lone `|`, or a number that does not fit).
pub open spec fn next_token(input: Seq<char>, s: LexPos) -> Option<(SpecToken, LexPos)> {
    let ch = cur(input, s);
    let mk = |t: SpecTok, e: LexPos| Some((SpecToken { token_type: t, line: s.line as usize, column: s.col as usize }, e));
    if ch == ':' {
        let (t, e) = one_or_two(input, s, '=', SpecTok::Colon, SpecTok::ColonEqual);
        mk(t, e)
    } else if ch == '=' {
        let (t, e) = one_or_two(input, s, '=', SpecTok::Equal, SpecTok::EqualEqual);
        mk(t, e)
    } else if ch == '!' {
        let (t, e) = one_or_two(input, s, '=', SpecTok::Bang, SpecTok::NotEqual);
        mk(t, e)
    } else if ch == '<' {
        let (t, e) = one_or_two(input, s, '=', SpecTok::Less, SpecTok::LessEqual);
        mk(t, e)
    } else if ch == '>' {
        let (t, e) = one_or_two(input, s, '=', SpecTok::Greater, SpecTok::GreaterEqual);
        mk(t, e)
    } else if ch == '&' {
        let (t, e) = one_or_two(input, s, '&', SpecTok::Ampersand, SpecTok::AndAnd);
        mk(t, e)
    } else if ch == '|' {
        let s1 = adv(input, s);
        if cur(input, s1) == '|' {
            mk(SpecTok::OrOr, adv(input, s1))
        } else {
            None
        }
    } else if ch == '/' {
        mk(SpecTok::Slash, adv(input, s))
    } else if single_char_token(ch) is Some {
        mk(single_char_token(ch)->0, adv(input, s))
    } else if ch == '"' {
        let (t, e) = read_string(input, s);
        mk(t, e)
    } else if spec_is_alphabetic(ch) || ch == '_' {
        let (v, e) = scan_run(input, s, Seq::empty(), false);
        mk(keyword_or_identifier(v), e)
    } else if spec_is_numeric(ch) {
        let (v, e) = scan_run(input, s, Seq::empty(), true);
        match spec_parse_i64(v) {
            Some(n) => mk(SpecTok::Integer(n), e),
            None => None,
        }
    } else {
        None
    }
}

pub open spec fn eof_token(s: LexPos) -> SpecToken {
    SpecToken { token_type: SpecTok::Eof, line: s.line as usize, column: s.col as usize }
}

/// The tokens of the input from `s` on, after `toks`: each token after
/// skipping whitespace and comments, then `Eof`. `None` where the lexer
/// gives up.
pub open spec fn tokenize_from(input: Seq<char>, s: LexPos, toks: Seq<SpecToken>) -> Option<Seq<SpecToken>>
    decreases input.len() - s.pos,
{
    if at_end(input, s) {
        Some(toks.push(eof_token(s)))
    } else {
        let s1 = skip_trivia(input, s);
        if at_end(input, s1) {
            Some(toks.push(eof_token(s1)))
        } else {
            match next_token(input, s1) {
                None => None,
                Some((t, s2)) => if s.pos < s2.pos <= input.len() {
                    tokenize_from(input, s2, toks.push(t))
                } else {
                    None
                },
            }
        }
    }
}

pub open spec fn start_pos() -> LexPos {
    LexPos { pos: 0, line: 1, col: 1 }
}

/// Splits source text into tokens.
pub struct Lexer {
    input: Vec<char>,
    position: usize,
    line: usize,
    column: usize,
}

pub type LexerResult<T> = Result<T, String>;

/// Line and column bounds that keep the counters in range: each character
/// adds at most two lines and one column.
pub open spec fn pos_bounded(input: Seq<char>, s: LexPos) -> bool {
    &&& input.len() <= usize::MAX / 8
    &&& 0 <= s.pos <= input.len()
    &&& 1 <= s.line <= 1 + 2 * s.pos
    &&& 1 <= s.col <= s.pos + 1
}

impl Lexer {
    /// The characters being lexed.
    pub closed spec fn chars(&self) -> Seq<char> {
        self.input@
    }

    /// Where the lexer stands.
    pub closed spec fn lex_pos(&self) -> LexPos {
        LexPos { pos: self.position as int, line: self.line as int, col: self.column as int }
    }

    pub open spec fn wf(&self) -> bool {
        pos_bounded(self.chars(), self.lex_pos())
    }

    /// A lexer at the start of `input`. The input must be small enough that a
    /// copy of its characters fits in memory (four bytes each).
    pub fn new(input: String) -> (res: Self)
        requires
            input@.len() <= usize::MAX / 8,
        ensures
            res.chars() == input@,
            res.lex_pos() == start_pos(),
            res.wf(),
    {
        Self { input: chars_of(input.as_str()), position: 0, line: 1, column: 1 }
    }

    fn is_at_end(&self) -> (res: bool)
        ensures
            res == at_end(self.chars(), self.lex_pos()),
    {
        self.position >= self.input.len()
    }

    fn current_char(&self) -> (res: char)
        ensures
            res == cur(self.chars(), self.lex_pos()),
    {
        if self.is_at_end() {
            '\0'
        } else {
            self.input[self.position]
        }
    }

    fn advance(&mut self)
        requires
            old(self).chars().len() <= usize::MAX / 8,
            old(self).position <= old(self).chars().len(),
            old(self).line <= 2 + 2 * old(self).position,
            1 <= old(self).line,
            1 <= old(self).column <= old(self).position + 1,
        ensures
            final(self).chars() == old(self).chars(),
            final(self).lex_pos() == adv(old(self).chars(), old(self).lex_pos()),
            !at_end(old(self).chars(), old(self).lex_pos()) ==> final(self).wf(),
            at_end(old(self).chars(), old(self).lex_pos()) ==> *final(self) == *old(self),
    {
        if !self.is_at_end() {
            if self.current_char() == '\n' {
                self.line = self.line + 1;
                self.column = 1;
            } else {
                self.column = self.column + 1;
            }
            self.position = self.position + 1;
        }
    }

    fn skip_whitespace(&mut self)
        requires
            old(self).wf(),
        ensures
            final(self).wf(),
            final(self).chars() == old(self).chars(),
            final(self).lex_pos() == skip_ws(old(self).chars(), old(self).lex_pos()),
    {
        loop
            invariant
                self.wf(),
                self.chars() == old(self).chars(),
                skip_ws(self.chars(), self.lex_pos()) == skip_ws(old(self).chars(), old(self).lex_pos()),
            decreases self.chars().len() - self.lex_pos().pos,
        {
            if self.is_at_end() {
                return;
            }
            let c = self.current_char();
            if c == ' ' || c == '\r' || c == '\t' {
                self.advance();
            } else {
                return;
            }
        }
    }

    fn skip_block_comment(&mut self)
        requires
            old(self).wf(),
        ensures
            final(self).wf(),
            final(self).chars() == old(self).chars(),
            final(self).lex_pos() == skip_comment(old(self).chars(), old(self).lex_pos()),
            final(self).lex_pos().pos >= old(self).lex_pos().pos,
    {
        while !self.is_at_end()
            invariant
                self.wf(),
                self.chars() == old(self).chars(),
                self.lex_pos().pos >= old(self).lex_pos().pos,
                skip_comment(self.chars(), self.lex_pos()) == skip_comment(old(self).chars(), old(self).lex_pos()),
            decreases self.chars().len() - self.lex_pos().pos,
        {
            if self.current_char() == '*' {
                self.advance();
                if !self.is_at_end() && self.current_char() == '/' {
                    self.advance();
                    return;
                }
            } else if self.current_char() == '\n' {
                self.line = self.line + 1;
                self.advance();
            } else {
                self.advance();
            }
        }
    }

    /// The character after the current one; `'\0'` past the end.
    fn next_char(&self) -> (res: char)
        requires
            self.wf(),
        ensures
            res == cur(self.chars(), adv(self.chars(), self.lex_pos())),
    {
        if self.position + 1 < self.input.len() {
            self.input[self.position + 1]
        } else {
            '\0'
        }
    }

    fn skip_line_comment(&mut self)
        requires
            old(self).wf(),
        ensures
            final(self).wf(),
            final(self).chars() == old(self).chars(),
            final(self).lex_pos() == skip_line(old(self).chars(), old(self).lex_pos()),
    {
        while !self.is_at_end() && self.current_char() != '\n'
            invariant
                self.wf(),
                self.chars() == old(self).chars(),
                skip_line(self.chars(), self.lex_pos()) == skip_line(old(self).chars(), old(self).lex_pos()),
            decreases self.chars().len() - self.lex_pos().pos,
        {
            self.advance();
        }
    }

    /// Skips spaces, tabs, carriage returns and comments up to the next
    /// token (see [`skip_trivia`]).
    fn skip_trivia(&mut self)
        requires
            old(self).wf(),
        ensures
            final(self).wf(),
            final(self).chars() == old(self).chars(),
            final(self).lex_pos() == skip_trivia(old(self).chars(), old(self).lex_pos()),
    {
        loop
            invariant
                self.wf(),
                self.chars() == old(self).chars(),
                skip_trivia(self.chars(), self.lex_pos()) == skip_trivia(old(self).chars(), old(self).lex_pos()),
            decreases self.chars().len() - self.lex_pos().pos,
        {
            let before = self.position;
            let ghost s0 = self.lex_pos();
            self.skip_whitespace();
            if self.current_char() == '/' && self.next_char() == '/' {
                self.skip_line_comment();
            } else if self.current_char() == '/' && self.next_char() == '*' {
                self.advance();
                self.advance();
                self.skip_block_comment();
            } else {
                return;
            }
            assert(skip_trivia(self.chars(), s0) == if s0.pos < self.lex_pos().pos <= self.chars().len() {
                skip_trivia(self.chars(), self.lex_pos())
            } else {
                self.lex_pos()
            });
            if self.position <= before {
                return;
            }
        }
    }

    fn read_string(&mut self) -> (res: TokenType)
        requires
            old(self).wf(),
            !at_end(old(self).chars(), old(self).lex_pos()),
        ensures
            final(self).wf(),
            final(self).chars() == old(self).chars(),
            (res@, final(self).lex_pos()) == read_string(old(self).chars(), old(self).lex_pos()),
    {
        self.advance();
        let mut value = String::new();
        let ghost start = self.lex_pos();
        let ghost target = string_body(self.chars(), start, Seq::empty());
        while !self.is_at_end() && self.current_char() != '"'
            invariant
                self.wf(),
                self.chars() == old(self).chars(),
                string_body(self.chars(), self.lex_pos(), value@) == target,
            decreases self.chars().len() - self.lex_pos().pos,
        {
            if self.current_char() == '\\' {
                self.advance();
                if !self.is_at_end() {
                    let c = self.current_char();
                    if c == 'n' {
                        push_char(&mut value, '\n');
                    } else if c == 't' {
                        push_char(&mut value, '\t');
                    } else if c == 'r' {
                        push_char(&mut value, '\r');
                    } else if c == '\\' {
                        push_char(&mut value, '\\');
                    } else if c == '"' {
                        push_char(&mut value, '"');
                    } else {
                        push_char(&mut value, '\\');
                        push_char(&mut value, c);
                    }
                    self.advance();
                }
            } else {
                let c = self.current_char();
                push_char(&mut value, c);
                self.advance();
            }
        }
        if !self.is_at_end() {
            self.advance();
        }
        TokenType::String(value)
    }

    /// Reads a run of identifier characters (or of numeric characters only).
    fn scan(&mut self, numeric_only: bool) -> (res: String)
        requires
            old(self).wf(),
        ensures
            final(self).wf(),
            final(self).chars() == old(self).chars(),
            (res@, final(self).lex_pos()) == scan_run(old(self).chars(), old(self).lex_pos(), Seq::empty(), numeric_only),
    {
        let mut value = String::new();
        loop
            invariant
                self.wf(),
                self.chars() == old(self).chars(),
                scan_run(self.chars(), self.lex_pos(), value@, numeric_only)
                    == scan_run(old(self).chars(), old(self).lex_pos(), Seq::empty(), numeric_only),
            decreases self.chars().len() - self.lex_pos().pos,
        {
            if self.is_at_end() {
                return value;
            }
            let c = self.current_char();
            let ok = if numeric_only {
                is_numeric(c)
            } else {
                is_alphanumeric(c) || c == '_'
            };
            if !ok {
                return value;
            }
            push_char(&mut value, c);
            self.advance();
        }
    }

    fn read_identifier(&mut self) -> (res: TokenType)
        requires
            old(self).wf(),
        ensures
            final(self).wf(),
            final(self).chars() == old(self).chars(),
            ({
                let (v, e) = scan_run(old(self).chars(), old(self).lex_pos(), Seq::empty(), false);
                res@ == keyword_or_identifier(v) && final(self).lex_pos() == e
            }),
    {
        let value = self.scan(false);
        if string_is(&value, "var") {
            TokenType::Var
        } else if string_is(&value, "val") {
            TokenType::Val
        } else if string_is(&value, "fun") {
            TokenType::Fun
        } else if string_is(&value, "type") {
            TokenType::Type
        } else if string_is(&value, "if") {
            TokenType::If
        } else if string_is(&value, "else") {
            TokenType::Else
        } else if string_is(&value, "true") {
            TokenType::True
        } else if string_is(&value, "false") {
            TokenType::False
        } else if string_is(&value, "return") {
            TokenType::Return
        } else if string_is(&value, "for") {
            TokenType::For
        } else if string_is(&value, "in") {
            TokenType::In
        } else if string_is(&value, "import") {
            TokenType::Import
        } else if string_is(&value, "export") {
            TokenType::Export
        } else if string_is(&value, "from") {
            TokenType::From
        } else {
            TokenType::Identifier(value)
        }
    }

    /// Reads a number; `None` when its text is not an `i64`.
    fn read_number(&mut self) -> (res: Option<TokenType>)
        requires
            old(self).wf(),
        ensures
            final(self).wf(),
            final(self).chars() == old(self).chars(),
            ({
                let (v, e) = scan_run(old(self).chars(), old(self).lex_pos(), Seq::empty(), true);
                &&& final(self).lex_pos() == e
                &&& match spec_parse_i64(v) {
                    Some(n) => res matches Some(t) && t@ == SpecTok::Integer(n),
                    None => res is None,
                }
            }),
    {
        let value = self.scan(true);
        match parse_i64(value.as_str()) {
            Some(n) => Some(TokenType::Integer(n)),
            None => None,
        }
    }

    fn one_or_two(&mut self, second: char, one: TokenType, two: TokenType) -> (res: TokenType)
        requires
            old(self).wf(),
            !at_end(old(self).chars(), old(self).lex_pos()),
        ensures
            final(self).wf(),
            final(self).chars() == old(self).chars(),
            (res@, final(self).lex_pos()) == one_or_two(old(self).chars(), old(self).lex_pos(), second, one@, two@),
    {
        self.advance();
        if self.current_char() == second {
            self.advance();
            two
        } else {
            one
        }
    }

    /// The next token; `None` where the original lexer panics.
    fn next_token(&mut self) -> (res: Option<Token>)
        requires
            old(self).wf(),
        ensures
            final(self).wf(),
            final(self).chars() == old(self).chars(),
            match next_token(old(self).chars(), old(self).lex_pos()) {
                Some((t, e)) => res matches Some(r) && r@ == t && final(self).lex_pos() == e,
                None => res is None,
            },
    {
        let line = self.line;
        let column = self.column;
        let ch = self.current_char();
        let token_type = if ch == ':' {
            self.one_or_two('=', TokenType::Colon, TokenType::ColonEqual)
        } else if ch == '=' {
            self.one_or_two('=', TokenType::Equal, TokenType::EqualEqual)
        } else if ch == '!' {
            self.one_or_two('=', TokenType::Bang, TokenType::NotEqual)
        } else if ch == '<' {
            self.one_or_two('=', TokenType::Less, TokenType::LessEqual)
        } else if ch == '>' {
            self.one_or_two('=', TokenType::Greater, TokenType::GreaterEqual)
        } else if ch == '&' {
            self.one_or_two('&', TokenType::Ampersand, TokenType::AndAnd)
        } else if ch == '|' {
            self.advance();
            if self.current_char() == '|' {
                self.advance();
                TokenType::OrOr
            } else {
                return None;
            }
        } else if ch == '/' {
            self.advance();
            TokenType::Slash
        } else if ch == '{' {
            self.advance();
            TokenType::LeftBrace
        } else if ch == '}' {
            self.advance();
            TokenType::RightBrace
        } else if ch == '(' {
            self.advance();
            TokenType::LeftParen
        } else if ch == ')' {
            self.advance();
            TokenType::RightParen
        } else if ch == '[' {
            self.advance();
            TokenType::LeftBracket
        } else if ch == ']' {
            self.advance();
            TokenType::RightBracket
        } else if ch == ',' {
            self.advance();
            TokenType::Comma
        } else if ch == ';' {
            self.advance();
            TokenType::Semicolon
        } else if ch == '+' {
            self.advance();
            TokenType::Plus
        } else if ch == '-' {
            self.advance();
            TokenType::Minus
        } else if ch == '*' {
            self.advance();
            TokenType::Star
        } else if ch == '%' {
            self.advance();
            TokenType::Percent
        } else if ch == '.' {
            self.advance();
            TokenType::Dot
        } else if ch == '^' {
            self.advance();
            TokenType::Caret
        } else if ch == '\n' {
            self.advance();
            TokenType::Newline
        } else if ch == '"' {
            self.read_string()
        } else if is_alphabetic(ch) || ch == '_' {
            self.read_identifier()
        } else if is_numeric(ch) {
            match self.read_number() {
                Some(t) => t,
                None => {
                    return None;
                },
            }
        } else {
            return None;
        };
        Some(Token { token_type, line, column })
    }

    /// All tokens, ending with `Eof`; `None` where the original lexer panics.
    fn lex_all(&mut self) -> (res: Option<Vec<Token>>)
        requires
            old(self).wf(),
        ensures
            final(self).chars() == old(self).chars(),
            match tokenize_from(old(self).chars(), old(self).lex_pos(), Seq::empty()) {
                Some(ts) => res matches Some(v) && tokens_model(v@) == ts,
                None => res is None,
            },
    {
        let mut tokens: Vec<Token> = Vec::new();
        let ghost target = tokenize_from(old(self).chars(), old(self).lex_pos(), Seq::empty());
        assert(tokens_model(tokens@) =~= Seq::<SpecToken>::empty());
        loop
            invariant
                self.wf(),
                self.chars() == old(self).chars(),
                tokenize_from(self.chars(), self.lex_pos(), tokens_model(tokens@)) == target,
                target == tokenize_from(old(self).chars(), old(self).lex_pos(), Seq::empty()),
            decreases self.chars().len() - self.lex_pos().pos,
        {
            let ghost b = self.lex_pos();
            let ghost prev = tokens_model(tokens@);
            if self.is_at_end() {
                tokens.push(Token { token_type: TokenType::Eof, line: self.line, column: self.column });
                assert(tokens_model(tokens@) =~= prev.push(eof_token(b)));
                return Some(tokens);
            }
            let before = self.position;
            self.skip_trivia();
            if self.is_at_end() {
                tokens.push(Token { token_type: TokenType::Eof, line: self.line, column: self.column });
                assert(tokens_model(tokens@) =~= prev.push(eof_token(self.lex_pos())));
                return Some(tokens);
            }
            match self.next_token() {
                Some(token) => {
                    if self.position <= before {
                        // Every token moves the position on; this keeps the loop finite.
                        return None;
                    }
                    let ghost tm = token@;
                    tokens.push(token);
                    assert(tokens_model(tokens@) =~= prev.push(tm));
                },
                None => {
                    return None;
                },
            }
        }
    }

    /// The tokens of the whole input, ending with the end marker: `Err`
    /// exactly where the lexer gives up (an unexpected character, a lone `|`,
    /// a number out of range).
    pub fn tokenize(&mut self) -> (res: LexerResult<Vec<Token>>)
        requires
            old(self).wf(),
        ensures
            match tokenize_from(old(self).chars(), old(self).lex_pos(), Seq::empty()) {
                Some(ts) => res matches Ok(v) && tokens_model(v@) == ts,
                None => res is Err,
            },
    {
        match self.lex_all() {
            Some(v) => Ok(v),
            None => Err(owned("Unexpected character")),
        }
    }
}

} // verus!
