//! What hovering over a word of a document shows, over character
//! sequences.
use vstd::prelude::*;
use crate::c_codegen::indent::{first_newline, lines, spec_is_whitespace, strip_cr};
use crate::codegen::statements::trim_end_text;
use crate::lexer::{spec_is_alphabetic, spec_is_numeric};
use crate::text::{ends_with, seq_join, starts_with};

verus! {

/// A text without its leading whitespace.
pub open spec fn trim_start_text(s: Seq<char>) -> Seq<char>
    decreases s.len(),
{
    if s.len() > 0 && spec_is_whitespace(s[0]) {
        trim_start_text(s.drop_first())
    } else {
        s
    }
}

/// A text without leading and trailing whitespace, as `str::trim` gives it.
pub open spec fn trim_text(s: Seq<char>) -> Seq<char> {
    trim_start_text(trim_end_text(s))
}

/// Position of the first `c` in `s`, if any.
pub open spec fn first_of(s: Seq<char>, c: char) -> Option<int>
    decreases s.len(),
{
    if s.len() == 0 {
        None
    } else if s[0] == c {
        Some(0)
    } else {
        match first_of(s.drop_first(), c) {
            Some(i) => Some(i + 1),
            None => None,
        }
    }
}

/// The part of `s` before the first `c` (all of `s` without one).
pub open spec fn before_char(s: Seq<char>, c: char) -> Seq<char> {
    match first_of(s, c) {
        Some(i) => s.take(i),
        None => s,
    }
}

/// The part of `s` before the first space, colon or equals sign.
pub open spec fn name_part(s: Seq<char>) -> Seq<char>
    decreases s.len(),
{
    if s.len() == 0 || s[0] == ' ' || s[0] == ':' || s[0] == '=' {
        Seq::empty()
    } else {
        seq![s[0]] + name_part(s.drop_first())
    }
}

/// How many times `c` occurs in `s`.
pub open spec fn count_of(s: Seq<char>, c: char) -> int
    decreases s.len(),
{
    if s.len() == 0 {
        0
    } else {
        (if s.last() == c {
            1int
        } else {
            0int
        }) + count_of(s.drop_last(), c)
    }
}

/// `s` without the suffix `suffix`, or nothing when it does not end so.
pub open spec fn cut_suffix(s: Seq<char>, suffix: Seq<char>) -> Seq<char> {
    if ends_with(s, suffix) {
        s.take(s.len() - suffix.len())
    } else {
        Seq::empty()
    }
}

/// `docs` with `content` in front, unless it is empty.
pub open spec fn with_doc(docs: Seq<Seq<char>>, content: Seq<char>) -> Seq<Seq<char>> {
    if content.len() == 0 {
        docs
    } else {
        seq![content] + docs
    }
}

/// The comment lines found walking up from line `i` (exclusive), added in
/// front of `docs`; `found_end` says whether the end `*/` of a comment was
/// seen. Blank lines are skipped; anything else ends the walk.
pub open spec fn doc_scan(ls: Seq<Seq<char>>, i: int, docs: Seq<Seq<char>>, found_end: bool) -> Seq<Seq<char>>
    decreases i,
{
    if i <= 0 || i > ls.len() {
        docs
    } else {
        let line = trim_text(ls[i - 1]);
        if line.len() == 0 {
            doc_scan(ls, i - 1, docs, found_end)
        } else if ends_with(line, "*/"@) && !found_end {
            if starts_with(line, "/**"@) {
                with_doc(docs, trim_text(cut_suffix(line.skip(3), "*/"@)))
            } else if starts_with(line, "*"@) {
                doc_scan(ls, i - 1, with_doc(docs, trim_text(cut_suffix(line.skip(1), "*/"@))), true)
            } else {
                doc_scan(ls, i - 1, docs, true)
            }
        } else if !found_end {
            docs
        } else if starts_with(line, "*"@) && !starts_with(line, "/**"@) {
            doc_scan(ls, i - 1, with_doc(docs, trim_text(line.skip(1))), found_end)
        } else if starts_with(line, "/**"@) && !ends_with(line, "*/"@) {
            with_doc(docs, trim_text(line.skip(3)))
        } else {
            docs
        }
    }
}

/// The documentation comment right above line `decl`, its lines joined by
/// blank lines.
pub open spec fn doc_above(ls: Seq<Seq<char>>, decl: int) -> Option<Seq<char>> {
    if ls.len() == 0 || decl < 0 || decl >= ls.len() {
        None
    } else {
        let docs = doc_scan(ls, decl, Seq::empty(), false);
        if docs.len() == 0 {
            None
        } else {
            Some(seq_join(docs, "\n\n"@))
        }
    }
}

/// The declared type of a `val`/`var` line: between the first colon and the
/// next colon or equals sign, trimmed; inferred when there is no colon.
pub open spec fn type_info(rest: Seq<char>) -> Seq<char> {
    match first_of(rest, ':') {
        Some(p) => "Type: `"@ + trim_text(before_char(before_char(rest.skip(p + 1), ':'), '=')) + "`"@,
        None => "Type: *inferred*"@,
    }
}

/// Hover text of a variable.
pub open spec fn variable_text(name: Seq<char>, doc: Option<Seq<char>>, kind: Seq<char>, info: Seq<char>) -> Seq<char> {
    match doc {
        Some(d) => "**`"@ + name + "`**\n\n"@ + d + "\n\n*"@ + kind + "*\n\n"@ + info,
        None => "**`"@ + name + "`**\n\n*"@ + kind + "*\n\n"@ + info,
    }
}

/// The first `val` or `var` declaration of `name` at or after line `i`.
pub open spec fn find_variable(ls: Seq<Seq<char>>, name: Seq<char>, i: int) -> Option<Seq<char>>
    decreases ls.len() - i,
{
    if i < 0 || i >= ls.len() {
        None
    } else {
        let line = trim_text(ls[i]);
        if starts_with(line, "val "@) && name_part(line.skip(4)) == name {
            Some(variable_text(name, doc_above(ls, i), "Immutable variable"@, type_info(line.skip(4))))
        } else if starts_with(line, "var "@) && name_part(line.skip(4)) == name {
            Some(variable_text(name, doc_above(ls, i), "Mutable variable"@, type_info(line.skip(4))))
        } else {
            find_variable(ls, name, i + 1)
        }
    }
}

/// Collecting a function's signature from line `j` on: trimmed lines joined
/// by spaces (none after a line ending in `{`) until the braces opened
/// balance; `None` where more braces close than opened.
pub open spec fn signature_scan(ls: Seq<Seq<char>>, j: int, acc: Seq<char>, count: int, in_function: bool) -> Option<
    Seq<char>,
>
    decreases ls.len() - j,
{
    if j < 0 || j >= ls.len() {
        Some(acc)
    } else {
        let line = trim_text(ls[j]);
        let acc1 = acc + line;
        let opens = first_of(line, '{') is Some;
        let c1 = if opens {
            count + count_of(line, '{')
        } else {
            count
        };
        let in1 = in_function || opens;
        let c2 = if first_of(line, '}') is Some {
            c1 - count_of(line, '}')
        } else {
            c1
        };
        if c2 < 0 {
            None
        } else if in1 && c2 == 0 {
            Some(acc1)
        } else {
            let acc2 = if !ends_with(line, "{"@) && j < ls.len() - 1 {
                acc1 + " "@
            } else {
                acc1
            };
            signature_scan(ls, j + 1, acc2, c2, in1)
        }
    }
}

/// The signature of the function declared at line `i`: what precedes its
/// opening brace, trimmed.
pub open spec fn signature_at(ls: Seq<Seq<char>>, i: int) -> Option<Seq<char>> {
    match signature_scan(ls, i, Seq::empty(), 0, false) {
        Some(s) => Some(
            match first_of(s, '{') {
                Some(p) => trim_text(s.take(p)),
                None => s,
            },
        ),
        None => None,
    }
}

/// Whether a line declares the function `name`.
pub open spec fn declares_function(raw: Seq<char>, name: Seq<char>) -> bool {
    let line = trim_text(raw);
    starts_with(line, "fun "@) && match first_of(line.skip(4), '(') {
        Some(p) => trim_text(line.skip(4).take(p)) == name,
        None => false,
    }
}

/// The first line at or after `i` that declares the function `name`.
pub open spec fn function_line(ls: Seq<Seq<char>>, name: Seq<char>, i: int) -> Option<int>
    decreases ls.len() - i,
{
    if i < 0 || i >= ls.len() {
        None
    } else if declares_function(ls[i], name) {
        Some(i)
    } else {
        function_line(ls, name, i + 1)
    }
}

/// Hover text of a function declared at line `i`.
pub open spec fn function_text(ls: Seq<Seq<char>>, name: Seq<char>, i: int) -> Seq<char> {
    let sig = signature_at(ls, i).unwrap();
    match doc_above(ls, i) {
        Some(d) => "**`"@ + name + "`**\n\n"@ + d + "\n\n*Function*\n\n```bolt\n"@ + sig + "\n```"@,
        None => "**`"@ + name + "`**\n\n*Function*\n\n```bolt\n"@ + sig + "\n```"@,
    }
}

/// Whether looking up the function `name` goes through: the braces of the
/// declaration found never close more than they opened.
pub open spec fn function_lookup_ok(ls: Seq<Seq<char>>, name: Seq<char>) -> bool {
    match function_line(ls, name, 0) {
        Some(i) => signature_at(ls, i) is Some,
        None => true,
    }
}

/// The first function declaration of `name`.
pub open spec fn find_function(ls: Seq<Seq<char>>, name: Seq<char>) -> Option<Seq<char>> {
    match function_line(ls, name, 0) {
        Some(i) => Some(function_text(ls, name, i)),
        None => None,
    }
}

/// Characters that belong to words.
pub open spec fn word_char(c: char) -> bool {
    spec_is_alphabetic(c) || spec_is_numeric(c) || c == '_'
}

/// Where the word around position `k` begins.
pub open spec fn word_start(line: Seq<char>, k: int) -> int
    decreases k,
{
    if k > 0 && k <= line.len() && word_char(line[k - 1]) {
        word_start(line, k - 1)
    } else {
        k
    }
}

/// Where the word around position `k` ends.
pub open spec fn word_end(line: Seq<char>, k: int) -> int
    decreases line.len() - k,
{
    if 0 <= k < line.len() && word_char(line[k]) {
        word_end(line, k + 1)
    } else {
        k
    }
}

/// The text returned when nothing is known.
pub open spec fn no_info() -> Seq<char> {
    "No information available"@
}

/// Whether hovering at a position goes through: a position inside a line by
/// its byte length is also inside it by characters.
pub open spec fn hover_position_ok(document: Seq<char>, line: int, character: int) -> bool {
    let ls = lines(document);
    line < 0 || line >= ls.len() || character >= (vstd::utf8::encode_utf8(ls[line]).len() as usize) || character
        <= ls[line].len()
}

/// The text for a word nothing is known of.
pub open spec fn identifier_text(word: Seq<char>) -> Seq<char> {
    "**`"@ + word + "`**\n\n*Identifier*\n\nNo additional information available."@
}

/// The word under a position of a document, if any: the run of letters,
/// digits and underscores around it, on a line the position lies in.
pub open spec fn hover_word(document: Seq<char>, line: int, character: int) -> Option<Seq<char>> {
    let ls = lines(document);
    if line < 0 || line >= ls.len() {
        None
    } else {
        let cur = ls[line];
        if character >= (vstd::utf8::encode_utf8(cur).len() as usize) {
            None
        } else {
            let s = word_start(cur, character);
            let e = word_end(cur, character);
            if s == e {
                None
            } else {
                Some(cur.subrange(s, e))
            }
        }
    }
}

/// What hovering shows: the fixed text of a keyword or library function;
/// otherwise the document's declaration of the word as a function, then as
/// a variable; otherwise that nothing is known.
pub open spec fn hover_text(document: Seq<char>, line: int, character: int) -> Seq<char> {
    match hover_word(document, line, character) {
        None => no_info(),
        Some(w) => match crate::hover::keywords::keyword_hover(w) {
            Some(t) => t,
            None => match find_function(lines(document), w) {
                Some(f) => f,
                None => match find_variable(lines(document), w, 0) {
                    Some(v) => v,
                    None => identifier_text(w),
                },
            },
        },
    }
}

/// Whether hovering goes through: the position is inside its line by
/// characters when it is by bytes, and a function declaration looked up
/// has balanced braces.
pub open spec fn hover_ok(document: Seq<char>, line: int, character: int) -> bool {
    &&& hover_position_ok(document, line, character)
    &&& match hover_word(document, line, character) {
        Some(w) => crate::hover::keywords::keyword_hover(w) is Some || function_lookup_ok(lines(document), w),
        None => true,
    }
}

/// The total length of a list of lines.
pub open spec fn total_len(ls: Seq<Seq<char>>) -> int
    decreases ls.len(),
{
    if ls.len() == 0 {
        0
    } else {
        ls[0].len() + total_len(ls.drop_first())
    }
}

pub proof fn lemma_first_newline(s: Seq<char>)
    ensures
        0 <= first_newline(s) <= s.len(),
        first_newline(s) < s.len() ==> s[first_newline(s)] == '\n',
    decreases s.len(),
{
    if s.len() > 0 && s[0] != '\n' {
        lemma_first_newline(s.drop_first());
    }
}

/// The lines of a text are no longer, together, than the text.
pub proof fn lemma_lines_total(s: Seq<char>)
    ensures
        total_len(lines(s)) <= s.len(),
    decreases s.len(),
{
    if s.len() > 0 {
        lemma_first_newline(s);
        let j = first_newline(s);
        if 0 <= j < s.len() {
            let rest = s.subrange(j + 1, s.len() as int);
            lemma_lines_total(rest);
            let l = strip_cr(s.subrange(0, j));
            assert(l.len() <= j);
            let all = seq![l] + lines(rest);
            assert(all.drop_first() =~= lines(rest));
            assert(all[0] == l);
            assert(lines(s) == all);
            assert(total_len(all) == l.len() + total_len(lines(rest)));
        } else {
            assert(seq![s].drop_first() =~= Seq::<Seq<char>>::empty());
            assert(lines(s) == seq![s]);
            assert(total_len(seq![s]) == s.len() + total_len(Seq::<Seq<char>>::empty()));
        }
    }
}

/// A part of a list of lines is no longer than the whole.
pub proof fn lemma_total_len_subrange(ls: Seq<Seq<char>>, a: int, b: int)
    requires
        0 <= a <= b <= ls.len(),
    ensures
        0 <= total_len(ls.subrange(a, b)) <= total_len(ls),
    decreases ls.len(),
{
    if ls.len() > 0 {
        if a > 0 {
            assert(ls.drop_first().subrange(a - 1, b - 1) =~= ls.subrange(a, b));
            lemma_total_len_subrange(ls.drop_first(), a - 1, b - 1);
        } else if b > 0 {
            assert(ls.drop_first().subrange(0, b - 1) =~= ls.subrange(0, b).drop_first());
            lemma_total_len_subrange(ls.drop_first(), 0, b - 1);
        } else {
            lemma_total_len_subrange(ls.drop_first(), 0, 0);
            assert(ls.subrange(0, 0) =~= Seq::<Seq<char>>::empty());
        }
    }
}

/// One more line at the end of a part.
pub proof fn lemma_total_len_extend(ls: Seq<Seq<char>>, a: int, b: int)
    requires
        0 <= a <= b < ls.len(),
    ensures
        total_len(ls.subrange(a, b + 1)) == total_len(ls.subrange(a, b)) + ls[b].len(),
    decreases b - a,
{
    if a < b {
        assert(ls.subrange(a, b + 1).drop_first() =~= ls.subrange(a + 1, b + 1));
        assert(ls.subrange(a, b).drop_first() =~= ls.subrange(a + 1, b));
        lemma_total_len_extend(ls, a + 1, b);
    } else {
        assert(ls.subrange(a, b + 1).drop_first() =~= Seq::<Seq<char>>::empty());
        assert(ls.subrange(a, b) =~= Seq::<Seq<char>>::empty());
    }
}

pub proof fn lemma_count_bound(s: Seq<char>, c: char)
    ensures
        0 <= count_of(s, c) <= s.len(),
    decreases s.len(),
{
    if s.len() > 0 {
        lemma_count_bound(s.drop_last(), c);
    }
}

pub proof fn lemma_trim_len(s: Seq<char>)
    ensures
        trim_text(s).len() <= s.len(),
{
    lemma_trim_end_len(s);
    lemma_trim_start_len(trim_end_text(s));
}

proof fn lemma_trim_end_len(s: Seq<char>)
    ensures
        trim_end_text(s).len() <= s.len(),
    decreases s.len(),
{
    if s.len() > 0 && spec_is_whitespace(s.last()) {
        lemma_trim_end_len(s.drop_last());
    }
}

proof fn lemma_trim_start_len(s: Seq<char>)
    ensures
        trim_start_text(s).len() <= s.len(),
    decreases s.len(),
{
    if s.len() > 0 && spec_is_whitespace(s[0]) {
        lemma_trim_start_len(s.drop_first());
    }
}

} // verus!
