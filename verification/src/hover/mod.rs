//! Hover information for a word of a document: fixed texts for keywords and
//! library functions, and otherwise what the document declares of the word
//! (a function's signature or a variable's type, with the documentation
//! comment above the declaration).
use vstd::prelude::*;
use crate::c_codegen::indent::{first_newline, is_whitespace, lines, spec_is_whitespace, strip_cr};
use crate::codegen::statements::{trim_end, trim_end_text};
use crate::text::{chars_of, ends_with, join_strings, owned, push_char, seq_join, starts_with, str_ends_with,
    str_starts_with, strings_model};

pub mod diagnostics;
pub mod keywords;
pub mod server;
pub mod spec;

use keywords::{keyword_hover, keyword_hover_text};
use spec::{
    before_char, count_of, cut_suffix, declares_function, doc_above, doc_scan, find_function, find_variable,
    first_of, function_line, function_lookup_ok, function_text, hover_position_ok, name_part, no_info,
    signature_at, signature_scan, trim_start_text, trim_text, type_info, variable_text, word_char, word_end,
    word_start,
};

verus! {

/// The lines of a text, as `str::lines` gives them.
pub fn split_lines(text: &str) -> (res: Vec<String>)
    ensures
        strings_model(res@) == lines(text@),
        text@.len() <= usize::MAX,
{
    let cs = chars_of(text);
    let n = cs.len();
    let mut out: Vec<String> = Vec::new();
    let mut start: usize = 0;
    assert(cs@.subrange(0, n as int) =~= text@);
    assert(strings_model(out@) =~= Seq::<Seq<char>>::empty());
    while start < n
        invariant
            start <= n,
            n == cs@.len(),
            cs@ == text@,
            strings_model(out@) + lines(cs@.subrange(start as int, n as int)) == lines(text@),
        decreases n - start,
    {
        let ghost rest = cs@.subrange(start as int, n as int);
        let mut k = start;
        while k < n && cs[k] != '\n'
            invariant
                start <= k <= n,
                n == cs@.len(),
                rest == cs@.subrange(start as int, n as int),
                first_newline(rest) == (k - start) + first_newline(cs@.subrange(k as int, n as int)),
            decreases n - k,
        {
            assert(cs@.subrange(k as int, n as int).drop_first() =~= cs@.subrange(k + 1, n as int));
            k = k + 1;
        }
        let line_end = if k < n && k > start && cs[k - 1] == '\r' {
            k - 1
        } else {
            k
        };
        let ghost line = cs@.subrange(start as int, line_end as int);
        proof {
            let j = first_newline(rest);
            assert(j == k - start);
            if k < n {
                assert(rest.subrange(0, j) =~= cs@.subrange(start as int, k as int));
                assert(rest.subrange(j + 1, rest.len() as int) =~= cs@.subrange(k + 1, n as int));
                assert(strip_cr(cs@.subrange(start as int, k as int)) =~= line);
                assert(lines(rest) == seq![line] + lines(cs@.subrange(k + 1, n as int)));
            } else {
                assert(lines(rest) == seq![line]);
                assert(cs@.subrange(n as int, n as int) =~= Seq::<char>::empty());
                assert(lines(rest) == seq![line] + lines(cs@.subrange(n as int, n as int)));
            }
        }
        let mut l = String::new();
        let mut p = start;
        while p < line_end
            invariant
                start <= p <= line_end <= n,
                n == cs@.len(),
                l@ == cs@.subrange(start as int, p as int),
            decreases line_end - p,
        {
            push_char(&mut l, cs[p]);
            assert(cs@.subrange(start as int, p + 1) =~= cs@.subrange(start as int, p as int).push(cs@[p as int]));
            p = p + 1;
        }
        let ghost before = strings_model(out@);
        out.push(l);
        assert(strings_model(out@) =~= before.push(line));
        proof {
            let next = if k < n {
                k + 1
            } else {
                n as int
            };
            vstd::seq_lib::lemma_concat_associative(before, seq![line], lines(cs@.subrange(next, n as int)));
            assert(before.push(line) =~= before + seq![line]);
        }
        start = if k < n {
            k + 1
        } else {
            n
        };
    }
    assert(cs@.subrange(n as int, n as int) =~= Seq::<char>::empty());
    assert(strings_model(out@) + Seq::<Seq<char>>::empty() =~= strings_model(out@));
    out
}

/// `s` without its leading whitespace.
fn trim_start(s: &String) -> (res: String)
    ensures
        res@ == trim_start_text(s@),
{
    let chars = chars_of(s.as_str());
    let n = chars.len();
    let mut k: usize = 0;
    assert(s@.skip(0) =~= s@);
    while k < n && is_whitespace(chars[k])
        invariant
            k <= n,
            n == chars@.len(),
            chars@ == s@,
            trim_start_text(s@) == trim_start_text(s@.skip(k as int)),
        decreases n - k,
    {
        assert(s@.skip(k as int).drop_first() =~= s@.skip(k + 1));
        k = k + 1;
    }
    let mut res = String::new();
    let mut i: usize = k;
    while i < n
        invariant
            k <= i <= n,
            n == chars@.len(),
            chars@ == s@,
            res@ == s@.subrange(k as int, i as int),
        decreases n - i,
    {
        push_char(&mut res, chars[i]);
        assert(s@.subrange(k as int, i + 1) =~= s@.subrange(k as int, i as int).push(chars@[i as int]));
        i = i + 1;
    }
    assert(s@.subrange(k as int, n as int) =~= s@.skip(k as int));
    res
}

/// `s` without leading and trailing whitespace, as `str::trim` gives it.
pub fn trim(s: &String) -> (res: String)
    ensures
        res@ == trim_text(s@),
{
    let e = trim_end(s);
    trim_start(&e)
}

/// Position of the first `c` in `s`.
fn find_char(s: &Vec<char>, c: char) -> (res: Option<usize>)
    ensures
        match first_of(s@, c) {
            Some(i) => res matches Some(k) && k as int == i && k < s@.len(),
            None => res is None,
        },
        res matches Some(k) ==> k < s@.len(),
{
    assert(s@.skip(0) =~= s@);
    let mut i: usize = 0;
    while i < s.len()
        invariant
            i <= s@.len(),
            first_of(s@, c) == match first_of(s@.skip(i as int), c) {
                Some(j) => Some(j + i),
                None => None,
            },
        decreases s@.len() - i,
    {
        assert(s@.skip(i as int).drop_first() =~= s@.skip(i + 1));
        if s[i] == c {
            return Some(i);
        }
        i = i + 1;
    }
    assert(s@.skip(i as int) =~= Seq::<char>::empty());
    None
}

/// How many times `c` occurs in `s`.
fn count_char(s: &Vec<char>, c: char) -> (res: usize)
    ensures
        res == count_of(s@, c),
{
    let mut n: usize = 0;
    let mut i: usize = 0;
    while i < s.len()
        invariant
            i <= s@.len(),
            n == count_of(s@.take(i as int), c),
            n <= i,
        decreases s@.len() - i,
    {
        assert(s@.take(i + 1).drop_last() =~= s@.take(i as int));
        if s[i] == c {
            n = n + 1;
        }
        i = i + 1;
    }
    assert(s@.take(i as int) =~= s@);
    n
}

/// The characters `s[from..to]` as a `String`.
pub(crate) fn slice_string(s: &Vec<char>, from: usize, to: usize) -> (res: String)
    requires
        from <= to <= s@.len(),
    ensures
        res@ == s@.subrange(from as int, to as int),
{
    let mut res = String::new();
    let mut i = from;
    while i < to
        invariant
            from <= i <= to <= s@.len(),
            res@ == s@.subrange(from as int, i as int),
        decreases to - i,
    {
        push_char(&mut res, s[i]);
        assert(s@.subrange(from as int, i + 1) =~= s@.subrange(from as int, i as int).push(s@[i as int]));
        i = i + 1;
    }
    res
}

/// The part of `s` before the first space, colon or equals sign.
fn name_part_of(s: &Vec<char>, from: usize) -> (res: String)
    requires
        from <= s@.len(),
    ensures
        res@ == name_part(s@.skip(from as int)),
{
    let mut i = from;
    while i < s.len() && s[i] != ' ' && s[i] != ':' && s[i] != '='
        invariant
            from <= i <= s@.len(),
            name_part(s@.skip(from as int)) == s@.subrange(from as int, i as int) + name_part(s@.skip(i as int)),
        decreases s@.len() - i,
    {
        assert(s@.skip(i as int).drop_first() =~= s@.skip(i + 1));
        assert(s@.subrange(from as int, i + 1) =~= s@.subrange(from as int, i as int) + seq![s@[i as int]]);
        i = i + 1;
    }
    assert(name_part(s@.skip(i as int)) =~= Seq::<char>::empty());
    slice_string(s, from, i)
}

/// `s` without `suffix`, or nothing when it does not end so.
fn cut_suffix_string(s: &Vec<char>, from: usize, suffix: &str) -> (res: String)
    requires
        from <= s@.len(),
    ensures
        res@ == cut_suffix(s@.skip(from as int), suffix@),
{
    let rest = slice_string(s, from, s.len());
    assert(rest@ =~= s@.skip(from as int));
    if str_ends_with(rest.as_str(), suffix) {
        let sc = chars_of(suffix);
        let end = s.len() - sc.len();
        let r = slice_string(s, from, end);
        assert(r@ =~= rest@.take(rest@.len() - suffix@.len()));
        r
    } else {
        String::new()
    }
}

/// The documentation comment right above a declaration (see
/// [`doc_above`]).
pub fn extract_documentation(lines: &Vec<String>, declaration_line: usize) -> (res: Option<String>)
    ensures
        match doc_above(strings_model(lines@), declaration_line as int) {
            Some(d) => res matches Some(r) && r@ == d,
            None => res is None,
        },
{
    let ghost ls = strings_model(lines@);
    if lines.len() == 0 || declaration_line >= lines.len() {
        return None;
    }
    let mut docs: Vec<String> = Vec::new();
    let mut found_end = false;
    let mut i = declaration_line;
    proof {
        reveal_strlit("*/");
        reveal_strlit("/**");
        reveal_strlit("*");
    }
    assert(strings_model(docs@) =~= Seq::<Seq<char>>::empty());
    loop
        invariant_except_break
            doc_scan(ls, declaration_line as int, Seq::empty(), false) == doc_scan(
                ls,
                i as int,
                strings_model(docs@),
                found_end,
            ),
        invariant
            i <= declaration_line < lines@.len(),
            ls == strings_model(lines@),
        ensures
            doc_scan(ls, declaration_line as int, Seq::empty(), false) == strings_model(docs@),
        decreases i,
    {
        if i == 0 {
            break;
        }
        let ghost before = strings_model(docs@);
        let line = trim(&lines[i - 1]);
        let cs = chars_of(line.as_str());
        if cs.len() == 0 {
            i = i - 1;
            continue;
        }
        let ends = str_ends_with(line.as_str(), "*/");
        let opens = str_starts_with(line.as_str(), "/**");
        let star = str_starts_with(line.as_str(), "*");
        proof {
            reveal_strlit("*/");
            reveal_strlit("/**");
            reveal_strlit("*");
        }
        if ends && !found_end {
            found_end = true;
            if opens {
                let content = trim(&cut_suffix_string(&cs, 3, "*/"));
                if !content.as_str().is_empty() {
                    docs.insert(0, content);
                    assert(strings_model(docs@) =~= seq![content@] + before);
                }
                break;
            }
            if star {
                let content = trim(&cut_suffix_string(&cs, 1, "*/"));
                if !content.as_str().is_empty() {
                    docs.insert(0, content);
                    assert(strings_model(docs@) =~= seq![content@] + before);
                }
            }
            i = i - 1;
            continue;
        }
        if !found_end {
            break;
        }
        if star && !opens {
            let tail = slice_string(&cs, 1, cs.len());
            let content = trim(&tail);
            assert(tail@ =~= line@.skip(1));
            if !content.as_str().is_empty() {
                docs.insert(0, content);
                assert(strings_model(docs@) =~= seq![content@] + before);
            }
            i = i - 1;
            continue;
        }
        if opens && !ends {
            let tail = slice_string(&cs, 3, cs.len());
            let content = trim(&tail);
            assert(tail@ =~= line@.skip(3));
            if !content.as_str().is_empty() {
                docs.insert(0, content);
                assert(strings_model(docs@) =~= seq![content@] + before);
            }
            break;
        }
        break;
    }
    if docs.len() == 0 {
        None
    } else {
        Some(join_strings(&docs, "\n\n"))
    }
}

/// The characters `s[from..to]`.
fn sub_chars(s: &Vec<char>, from: usize, to: usize) -> (res: Vec<char>)
    requires
        from <= to <= s@.len(),
    ensures
        res@ == s@.subrange(from as int, to as int),
{
    let mut res: Vec<char> = Vec::new();
    let mut i = from;
    while i < to
        invariant
            from <= i <= to <= s@.len(),
            res@ == s@.subrange(from as int, i as int),
        decreases to - i,
    {
        res.push(s[i]);
        assert(s@.subrange(from as int, i + 1) =~= s@.subrange(from as int, i as int).push(s@[i as int]));
        i = i + 1;
    }
    res
}

/// The part of `s` before the first `c`.
fn before_char_chars(s: &Vec<char>, c: char) -> (res: Vec<char>)
    ensures
        res@ == before_char(s@, c),
{
    match find_char(s, c) {
        Some(p) => {
            let r = sub_chars(s, 0, p);
            assert(r@ =~= s@.take(p as int));
            r
        },
        None => sub_chars(s, 0, s.len()),
    }
}

/// The declared type of a `val`/`var` line from the text after the keyword
/// (see [`type_info`]).
fn type_info_text(rest: &Vec<char>) -> (res: String)
    ensures
        res@ == type_info(rest@),
{
    match find_char(rest, ':') {
        Some(p) => {
            let n = rest.len();
            assert(p < n);
            let after = sub_chars(rest, p + 1, n);
            assert(after@ =~= rest@.skip(p + 1));
            let seg = before_char_chars(&before_char_chars(&after, ':'), '=');
            let mut seg_text = String::new();
            let mut k: usize = 0;
            while k < seg.len()
                invariant
                    k <= seg@.len(),
                    seg_text@ == seg@.take(k as int),
                decreases seg@.len() - k,
            {
                push_char(&mut seg_text, seg[k]);
                assert(seg@.take(k + 1) =~= seg@.take(k as int).push(seg@[k as int]));
                k = k + 1;
            }
            assert(seg@.take(k as int) =~= seg@);
            let mut t = owned("Type: `");
            t.append(trim(&seg_text).as_str());
            t.append("`");
            t
        },
        None => owned("Type: *inferred*"),
    }
}

/// The hover text of a variable (see [`variable_text`]).
fn variable_info(lines: &Vec<String>, i: usize, name: &str, kind: &str, rest: &Vec<char>) -> (res: String)
    ensures
        res@ == variable_text(name@, doc_above(strings_model(lines@), i as int), kind@, type_info(rest@)),
{
    let info = type_info_text(rest);
    let mut res = owned("**`");
    res.append(name);
    res.append("`**\n\n");
    match extract_documentation(lines, i) {
        Some(d) => {
            res.append(d.as_str());
            res.append("\n\n*");
        },
        None => {
            proof {
                vstd::seq_lib::lemma_concat_associative("**`"@ + name@, "`**\n\n"@, "*"@);
                assert("`**\n\n"@ + "*"@ =~= "`**\n\n*"@) by {
                    reveal_strlit("`**\n\n");
                    reveal_strlit("*");
                    reveal_strlit("`**\n\n*");
                }
            }
            res.append("*");
        },
    }
    res.append(kind);
    res.append("*\n\n");
    res.append(info.as_str());
    res
}

/// The keyword-free rest of a line starting with a 4-character keyword.
fn rest_after_keyword(cs: &Vec<char>) -> (res: Vec<char>)
    requires
        cs@.len() >= 4,
    ensures
        res@ == cs@.skip(4),
{
    let r = sub_chars(cs, 4, cs.len());
    assert(r@ =~= cs@.skip(4));
    r
}

/// The hover text of the first `val` or `var` declaration of `var_name` (see
/// [`find_variable`]).
pub fn find_variable_declaration(document: &str, var_name: &str) -> (res: Option<String>)
    ensures
        match find_variable(lines(document@), var_name@, 0) {
            Some(t) => res matches Some(r) && r@ == t,
            None => res is None,
        },
{
    let doc_lines = split_lines(document);
    let ghost ls = lines(document@);
    proof {
        reveal_strlit("val ");
        reveal_strlit("var ");
    }
    let mut i: usize = 0;
    while i < doc_lines.len()
        invariant
            i <= doc_lines@.len(),
            ls == strings_model(doc_lines@),
            ls == lines(document@),
            find_variable(ls, var_name@, 0) == find_variable(ls, var_name@, i as int),
        decreases doc_lines@.len() - i,
    {
        let line = trim(&doc_lines[i]);
        let cs = chars_of(line.as_str());
        proof {
            reveal_strlit("val ");
            reveal_strlit("var ");
        }
        if str_starts_with(line.as_str(), "val ") {
            let rest = rest_after_keyword(&cs);
            let np = name_part_of(&cs, 4);
            if crate::text::string_is(&np, var_name) {
                return Some(variable_info(&doc_lines, i, var_name, "Immutable variable", &rest));
            }
        }
        if str_starts_with(line.as_str(), "var ") {
            let rest = rest_after_keyword(&cs);
            let np = name_part_of(&cs, 4);
            if crate::text::string_is(&np, var_name) {
                return Some(variable_info(&doc_lines, i, var_name, "Mutable variable", &rest));
            }
        }
        i = i + 1;
    }
    None
}

/// Whether a line declares the function `name` (see [`declares_function`]).
fn declares_function_line(raw: &String, name: &str) -> (res: bool)
    ensures
        res == declares_function(raw@, name@),
{
    let line = trim(raw);
    proof {
        reveal_strlit("fun ");
    }
    if !str_starts_with(line.as_str(), "fun ") {
        return false;
    }
    let cs = chars_of(line.as_str());
    let rest = rest_after_keyword(&cs);
    match find_char(&rest, '(') {
        Some(p) => {
            let before = slice_string(&rest, 0, p);
            assert(before@ =~= rest@.take(p as int));
            let name_text = trim(&before);
            crate::text::string_is(&name_text, name)
        },
        None => false,
    }
}

/// The signature of the function declared at line `i` (see
/// [`signature_at`]); nothing where more braces close than opened.
fn signature_text(lines: &Vec<String>, i: usize) -> (res: Option<String>)
    requires
        i < lines@.len(),
        spec::total_len(strings_model(lines@)) <= usize::MAX,
    ensures
        match signature_at(strings_model(lines@), i as int) {
            Some(t) => res matches Some(r) && r@ == t,
            None => res is None,
        },
{
    let ghost ls = strings_model(lines@);
    let mut sig = String::new();
    let mut count: usize = 0;
    let mut in_function = false;
    let mut j = i;
    proof {
        assert(ls.subrange(i as int, i as int) =~= Seq::<Seq<char>>::empty());
        spec::lemma_total_len_subrange(ls, i as int, i as int);
    }
    loop
        invariant_except_break
            signature_scan(ls, i as int, Seq::empty(), 0, false) == signature_scan(
                ls,
                j as int,
                sig@,
                count as int,
                in_function,
            ),
        invariant
            i <= j <= lines@.len(),
            ls == strings_model(lines@),
            count <= spec::total_len(ls.subrange(i as int, j as int)),
            spec::total_len(ls) <= usize::MAX,
        ensures
            signature_scan(ls, i as int, Seq::empty(), 0, false) == Some(sig@),
        decreases lines@.len() - j,
    {
        if j >= lines.len() {
            break;
        }
        let fl = trim(&lines[j]);
        let fc = chars_of(fl.as_str());
        let opens = find_char(&fc, '{').is_some();
        let closes = find_char(&fc, '}').is_some();
        proof {
            spec::lemma_trim_len(ls[j as int]);
            spec::lemma_count_bound(fl@, '{');
            spec::lemma_count_bound(fl@, '}');
            spec::lemma_total_len_extend(ls, i as int, j as int);
            spec::lemma_total_len_subrange(ls, i as int, j + 1);
            reveal_strlit("{");
        }
        sig.append(fl.as_str());
        if opens {
            let c = count_char(&fc, '{');
            count = count + c;
            in_function = true;
        }
        if closes {
            let c = count_char(&fc, '}');
            if c > count {
                return None;
            }
            count = count - c;
        }
        if in_function && count == 0 {
            break;
        }
        if !str_ends_with(fl.as_str(), "{") && j < lines.len() - 1 {
            sig.append(" ");
        }
        j = j + 1;
    }
    let sc = chars_of(sig.as_str());
    match find_char(&sc, '{') {
        Some(p) => {
            let before = slice_string(&sc, 0, p);
            assert(before@ =~= sig@.take(p as int));
            Some(trim(&before))
        },
        None => Some(sig),
    }
}

/// Whether looking up the function `func_name` in a document goes through
/// (see [`function_lookup_ok`]).
pub fn function_lookup_defined(document: &str, func_name: &str) -> (res: bool)
    ensures
        res == function_lookup_ok(lines(document@), func_name@),
{
    let doc_lines = split_lines(document);
    let ghost ls = lines(document@);
    proof {
        spec::lemma_lines_total(document@);
    }
    let mut i: usize = 0;
    while i < doc_lines.len()
        invariant
            i <= doc_lines@.len(),
            ls == strings_model(doc_lines@),
            ls == lines(document@),
            spec::total_len(ls) <= usize::MAX,
            function_line(ls, func_name@, 0) == function_line(ls, func_name@, i as int),
        decreases doc_lines@.len() - i,
    {
        if declares_function_line(&doc_lines[i], func_name) {
            return signature_text(&doc_lines, i).is_some();
        }
        i = i + 1;
    }
    true
}

/// The hover text of the first function declaration of `func_name` (see
/// [`find_function`]).
pub fn find_function_declaration(document: &str, func_name: &str) -> (res: Option<String>)
    requires
        function_lookup_ok(lines(document@), func_name@),
    ensures
        match find_function(lines(document@), func_name@) {
            Some(t) => res matches Some(r) && r@ == t,
            None => res is None,
        },
{
    let doc_lines = split_lines(document);
    let ghost ls = lines(document@);
    proof {
        spec::lemma_lines_total(document@);
    }
    let mut i: usize = 0;
    while i < doc_lines.len()
        invariant
            i <= doc_lines@.len(),
            ls == strings_model(doc_lines@),
            ls == lines(document@),
            function_lookup_ok(ls, func_name@),
            spec::total_len(ls) <= usize::MAX,
            function_line(ls, func_name@, 0) == function_line(ls, func_name@, i as int),
        decreases doc_lines@.len() - i,
    {
        if declares_function_line(&doc_lines[i], func_name) {
            let sig = signature_text(&doc_lines, i).unwrap();
            let mut res = owned("**`");
            res.append(func_name);
            match extract_documentation(&doc_lines, i) {
                Some(d) => {
                    res.append("`**\n\n");
                    res.append(d.as_str());
                    res.append("\n\n*Function*\n\n```bolt\n");
                },
                None => {
                    res.append("`**\n\n*Function*\n\n```bolt\n");
                },
            }
            res.append(sig.as_str());
            res.append("\n```");
            return Some(res);
        }
        i = i + 1;
    }
    None
}

/// The word under a position (see [`spec::hover_word`]).
fn word_at(doc_lines: &Vec<String>, line: usize, character: usize) -> (res: Option<String>)
    requires
        line < doc_lines@.len() ==> character >= (vstd::utf8::encode_utf8(doc_lines@[line as int]@).len() as usize)
            || character <= doc_lines@[line as int]@.len(),
    ensures
        ({
            let ls = strings_model(doc_lines@);
            let w = if line >= ls.len() {
                None
            } else {
                let cur = ls[line as int];
                if character >= (vstd::utf8::encode_utf8(cur).len() as usize) {
                    None
                } else {
                    let s = word_start(cur, character as int);
                    let e = word_end(cur, character as int);
                    if s == e {
                        None
                    } else {
                        Some(cur.subrange(s, e))
                    }
                }
            };
            match w {
                Some(t) => res matches Some(r) && r@ == t,
                None => res is None,
            }
        }),
{
    if line >= doc_lines.len() {
        return None;
    }
    let current = &doc_lines[line];
    if character >= current.as_str().len() {
        return None;
    }
    let chars = chars_of(current.as_str());
    let ghost cur = current@;
    let mut start = character;
    while start > 0 && (crate::lexer::is_alphanumeric(chars[start - 1]) || chars[start - 1] == '_')
        invariant
            start <= character <= chars@.len(),
            chars@ == cur,
            word_start(cur, character as int) == word_start(cur, start as int),
        decreases start,
    {
        start = start - 1;
    }
    let mut end = character;
    while end < chars.len() && (crate::lexer::is_alphanumeric(chars[end]) || chars[end] == '_')
        invariant
            character <= end <= chars@.len(),
            chars@ == cur,
            word_end(cur, character as int) == word_end(cur, end as int),
        decreases chars@.len() - end,
    {
        end = end + 1;
    }
    if start == end {
        return None;
    }
    Some(slice_string(&chars, start, end))
}

/// Whether hovering at a position goes through (see [`spec::hover_ok`]).
pub fn hover_defined(document: &str, line: usize, character: usize) -> (res: bool)
    ensures
        res == spec::hover_ok(document@, line as int, character as int),
{
    let doc_lines = split_lines(document);
    if line < doc_lines.len() {
        let current = &doc_lines[line];
        let chars = chars_of(current.as_str());
        if character < current.as_str().len() && character > chars.len() {
            return false;
        }
    }
    match word_at(&doc_lines, line, character) {
        Some(word) => {
            if keyword_hover_text(&word).is_some() {
                true
            } else {
                function_lookup_defined(document, word.as_str())
            }
        },
        None => true,
    }
}

/// What hovering at a position of a document shows (see
/// [`spec::hover_text`]).
pub fn get_hover_info(document: &str, line: usize, character: usize) -> (res: String)
    requires
        spec::hover_ok(document@, line as int, character as int),
    ensures
        res@ == spec::hover_text(document@, line as int, character as int),
{
    let doc_lines = split_lines(document);
    match word_at(&doc_lines, line, character) {
        None => owned("No information available"),
        Some(word) => match keyword_hover_text(&word) {
            Some(t) => t,
            None => match find_function_declaration(document, word.as_str()) {
                Some(f) => f,
                None => match find_variable_declaration(document, word.as_str()) {
                    Some(v) => v,
                    None => {
                        let mut t = owned("**`");
                        t.append(word.as_str());
                        t.append("`**\n\n*Identifier*\n\nNo additional information available.");
                        t
                    },
                },
            },
        },
    }
}

} // verus!
