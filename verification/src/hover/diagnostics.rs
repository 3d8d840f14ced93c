//! Diagnostics of an open document: whether it lexes and parses, and two
//! line checks (`print` without importing `bolt:stdio`, and `=` where a
//! declaration wants `:=`).
use vstd::prelude::*;
use crate::c_codegen::indent::lines;
use crate::lexer::{start_pos, tokenize_from, Lexer};
use crate::module::parse_source;
use crate::parser::Parser;
use crate::text::{chars_of, contains_text, owned, str_contains, strings_model};
use super::split_lines;
use super::spec::{lemma_lines_total, lemma_total_len_subrange, total_len};

verus! {

/// A problem found in a document, on one line from its start to
/// `end_character` (a count of UTF-8 bytes).
#[derive(Debug)]
pub struct Diagnostic {
    pub line: usize,
    pub end_character: usize,
    /// 1 for an error, 2 for a warning.
    pub severity: u8,
    pub message: String,
}

/// Model of [`Diagnostic`].
pub struct SpecDiagnostic {
    pub line: int,
    pub end_character: int,
    pub severity: int,
    pub message: Seq<char>,
}

impl View for Diagnostic {
    type V = SpecDiagnostic;

    open spec fn view(&self) -> SpecDiagnostic {
        SpecDiagnostic {
            line: self.line as int,
            end_character: self.end_character as int,
            severity: self.severity as int,
            message: self.message@,
        }
    }
}

pub open spec fn diagnostics_model(v: Seq<Diagnostic>) -> Seq<SpecDiagnostic> {
    Seq::new(v.len(), |i: int| v[i]@)
}

/// The number of bytes that UTF-8 takes for a character.
pub open spec fn char_utf8_len(c: char) -> int {
    if (c as u32) < 0x80 {
        1
    } else if (c as u32) < 0x800 {
        2
    } else if (c as u32) < 0x10000 {
        3
    } else {
        4
    }
}

/// The number of bytes that UTF-8 takes for a text.
pub open spec fn utf8_len(s: Seq<char>) -> int
    decreases s.len(),
{
    if s.len() == 0 {
        0
    } else {
        utf8_len(s.drop_last()) + char_utf8_len(s.last())
    }
}

/// The diagnostics of line `i` of `text`.
pub open spec fn line_diagnostics(text: Seq<char>, i: int, line: Seq<char>) -> Seq<SpecDiagnostic> {
    let print_warning = if contains_text(line, "print("@) && !contains_text(text, "bolt:stdio"@) {
        seq![SpecDiagnostic {
            line: i,
            end_character: utf8_len(line),
            severity: 2,
            message: "print function used but bolt:stdio not imported"@,
        }]
    } else {
        Seq::empty()
    };
    let assignment_error = if contains_text(line, "val "@) && contains_text(line, " = "@) && !contains_text(
        line,
        " := "@,
    ) {
        seq![SpecDiagnostic { line: i, end_character: utf8_len(line), severity: 1, message: "Use := for variable declaration"@ }]
    } else {
        Seq::empty()
    };
    print_warning + assignment_error
}

/// The diagnostics of the first `n` lines of `text`, line by line.
pub open spec fn lines_diagnostics(text: Seq<char>, ls: Seq<Seq<char>>, n: int) -> Seq<SpecDiagnostic>
    decreases n,
{
    if n <= 0 {
        Seq::empty()
    } else {
        lines_diagnostics(text, ls, n - 1) + line_diagnostics(text, n - 1, ls[n - 1])
    }
}

/// Whether a diagnostic reports that the text does not lex or parse: on
/// line 0 with an empty range, an error whose message starts with
/// `Lexer error: ` or `Parse error: ` as the lexer or the parser gave up.
pub open spec fn parse_failure(text: Seq<char>, d: SpecDiagnostic) -> bool {
    let head = if tokenize_from(text, start_pos(), Seq::empty()) is None {
        "Lexer error: "@
    } else {
        "Parse error: "@
    };
    &&& d.line == 0
    &&& d.end_character == 0
    &&& d.severity == 1
    &&& d.message.len() >= head.len()
    &&& d.message.subrange(0, head.len() as int) == head
}

proof fn lemma_utf8_len_bound(s: Seq<char>)
    ensures
        s.len() <= utf8_len(s) <= 4 * s.len(),
    decreases s.len(),
{
    if s.len() > 0 {
        lemma_utf8_len_bound(s.drop_last());
    }
}

proof fn lemma_line_short(text: Seq<char>, i: int)
    requires
        0 <= i < lines(text).len(),
    ensures
        lines(text)[i].len() <= text.len(),
{
    let ls = lines(text);
    lemma_lines_total(text);
    lemma_total_len_subrange(ls, i, i + 1);
    let one = ls.subrange(i, i + 1);
    assert(one.drop_first() =~= Seq::<Seq<char>>::empty());
    assert(one[0] == ls[i]);
    assert(total_len(one) == ls[i].len() + total_len(one.drop_first()));
}

/// The number of UTF-8 bytes of a line.
fn byte_length(line: &String) -> (res: usize)
    requires
        line@.len() <= usize::MAX / 8,
    ensures
        res == utf8_len(line@),
{
    let cs = chars_of(line.as_str());
    let mut n: usize = 0;
    let mut k: usize = 0;
    while k < cs.len()
        invariant
            k <= cs@.len(),
            cs@ == line@,
            cs@.len() <= usize::MAX / 8,
            n == utf8_len(cs@.take(k as int)),
        decreases cs@.len() - k,
    {
        proof {
            assert(cs@.take(k + 1).drop_last() =~= cs@.take(k as int));
            lemma_utf8_len_bound(cs@.take(k as int));
        }
        let code = cs[k] as u32;
        let w: usize = if code < 0x80 {
            1
        } else if code < 0x800 {
            2
        } else if code < 0x10000 {
            3
        } else {
            4
        };
        n = n + w;
        k = k + 1;
    }
    assert(cs@.take(k as int) =~= cs@);
    n
}

/// Adds a diagnostic whose message is `head` followed by `detail`.
fn push_failure(out: &mut Vec<Diagnostic>, head: &str, detail: &String)
    ensures
        final(out)@.len() == old(out)@.len() + 1,
        forall|j: int| 0 <= j < old(out)@.len() ==> final(out)@[j] == old(out)@[j],
        final(out)@[old(out)@.len() as int]@ == (SpecDiagnostic {
            line: 0,
            end_character: 0,
            severity: 1,
            message: head@ + detail@,
        }),
{
    let mut message = owned(head);
    message.append(detail.as_str());
    out.push(Diagnostic { line: 0, end_character: 0, severity: 1, message });
}

/// The diagnostics of a document: first one for a text that does not lex
/// or parse (see [`parse_failure`]), then those of its lines in order (see
/// [`line_diagnostics`]).
pub fn document_diagnostics(text: &str) -> (res: Vec<Diagnostic>)
    requires
        text@.len() <= usize::MAX / 8,
    ensures
        ({
            let head = if parse_source(text@) is Some { 0int } else { 1int };
            let ls = lines(text@);
            &&& diagnostics_model(res@) == diagnostics_model(res@).subrange(0, head) + lines_diagnostics(
                text@,
                ls,
                ls.len() as int,
            )
            &&& res@.len() >= head
            &&& head == 1 ==> parse_failure(text@, res@[0]@)
        }),
{
    let mut out: Vec<Diagnostic> = Vec::new();
    let ghost source = text@;
    let mut lexer = Lexer::new(owned(text));
    match lexer.tokenize() {
        Ok(tokens) => {
            proof {
                let ts = tokenize_from(source, start_pos(), Seq::empty()).unwrap();
                assert(crate::lexer::tokens_model(tokens@) == ts);
                assert(crate::parser::tok_types(tokens@) =~= Seq::new(ts.len(), |i: int| ts[i].token_type));
            }
            let mut parser = Parser::new(tokens);
            match parser.parse() {
                Ok(_) => {},
                Err(e) => {
                    push_failure(&mut out, "Parse error: ", &e);
                    proof {
                        reveal_strlit("Parse error: ");
                        assert(out@[0]@.message.subrange(0, 13) =~= "Parse error: "@);
                    }
                },
            }
        },
        Err(e) => {
            push_failure(&mut out, "Lexer error: ", &e);
            proof {
                reveal_strlit("Lexer error: ");
                assert(out@[0]@.message.subrange(0, 13) =~= "Lexer error: "@);
            }
        },
    }
    let ghost head: int = out@.len() as int;
    let ghost first = diagnostics_model(out@);
    assert(head == if parse_source(text@) is Some { 0int } else { 1int });
    assert(head == 1 ==> parse_failure(text@, out@[0]@));
    let has_stdio = str_contains(text, "bolt:stdio");
    let ls = split_lines(text);
    let ghost lm = lines(text@);
    let mut i: usize = 0;
    while i < ls.len()
        invariant
            i <= ls@.len(),
            strings_model(ls@) == lm,
            lm == lines(text@),
            text@.len() <= usize::MAX / 8,
            has_stdio == contains_text(text@, "bolt:stdio"@),
            out@.len() >= head,
            first.len() == head,
            head == (if parse_source(text@) is Some { 0int } else { 1int }),
            head == 1 ==> parse_failure(text@, out@[0]@),
            diagnostics_model(out@) == first + lines_diagnostics(text@, lm, i as int),
        decreases ls@.len() - i,
    {
        let line = &ls[i];
        assert(line@ == lm[i as int]);
        proof {
            lemma_line_short(text@, i as int);
        }
        let width = byte_length(line);
        let ghost before = diagnostics_model(out@);
        if str_contains(line.as_str(), "print(") && !has_stdio {
            out.push(
                Diagnostic {
                    line: i,
                    end_character: width,
                    severity: 2,
                    message: owned("print function used but bolt:stdio not imported"),
                },
            );
        }
        if str_contains(line.as_str(), "val ") && str_contains(line.as_str(), " = ") && !str_contains(
            line.as_str(),
            " := ",
        ) {
            out.push(Diagnostic { line: i, end_character: width, severity: 1, message: owned("Use := for variable declaration") });
        }
        assert(diagnostics_model(out@) =~= before + line_diagnostics(text@, i as int, lm[i as int]));
        i = i + 1;
    }
    proof {
        assert(diagnostics_model(out@).subrange(0, head) =~= first);
    }
    out
}

} // verus!
