//! Re-indenting generated code: the lines of a text, each given a new
//! leading indentation.
use vstd::prelude::*;
use crate::text::{chars_of, push_char};

verus! {

/// Whether std's `char::is_whitespace` holds of `c`: the Unicode
/// White_Space property, which these code points have: U+0009 to U+000D,
/// U+0020, U+0085, U+00A0, U+1680, U+2000 to U+200A, U+2028, U+2029,
/// U+202F, U+205F and U+3000.
pub open spec fn spec_is_whitespace(c: char) -> bool {
    let n = c as u32;
    ||| (0x9 <= n && n <= 0xd)
    ||| n == 0x20
    ||| n == 0x85
    ||| n == 0xa0
    ||| n == 0x1680
    ||| (0x2000 <= n && n <= 0x200a)
    ||| n == 0x2028
    ||| n == 0x2029
    ||| n == 0x202f
    ||| n == 0x205f
    ||| n == 0x3000
}

/// std's `char::is_whitespace` (see [`spec_is_whitespace`]).
#[verifier::external_body]
pub(crate) fn is_whitespace(c: char) -> (res: bool)
    ensures
        res == spec_is_whitespace(c),
{
    c.is_whitespace()
}

/// Position of the first newline of `s`, or its length when it has none.
pub open spec fn first_newline(s: Seq<char>) -> int
    decreases s.len(),
{
    if s.len() == 0 {
        0
    } else if s[0] == '\n' {
        0
    } else {
        1 + first_newline(s.drop_first())
    }
}

/// A line without the carriage return that ends it, if any.
pub open spec fn strip_cr(line: Seq<char>) -> Seq<char> {
    if line.len() > 0 && line.last() == '\r' {
        line.drop_last()
    } else {
        line
    }
}

/// The lines of a text as `str::lines` gives them: split at each newline,
/// a carriage return before a newline dropped, no empty line after a final
/// newline.
pub open spec fn lines(s: Seq<char>) -> Seq<Seq<char>>
    decreases s.len(),
{
    if s.len() == 0 {
        Seq::empty()
    } else {
        let j = first_newline(s);
        if 0 <= j < s.len() {
            seq![strip_cr(s.subrange(0, j))] + lines(s.subrange(j + 1, s.len() as int))
        } else {
            seq![s]
        }
    }
}

/// Whether a line is blank (only whitespace).
pub open spec fn blank(line: Seq<char>) -> bool {
    forall|i: int| 0 <= i < line.len() ==> spec_is_whitespace(#[trigger] line[i])
}

/// A line without any number of leading four-space groups.
pub open spec fn strip_indent(line: Seq<char>) -> Seq<char>
    decreases line.len(),
{
    if line.len() >= 4 && line.subrange(0, 4) == "    "@ {
        strip_indent(line.subrange(4, line.len() as int))
    } else {
        line
    }
}

/// Lines re-indented: a blank line becomes empty, any other loses its
/// leading four-space groups and gets `indent`; each ends with a newline.
pub open spec fn reindent_lines(ls: Seq<Seq<char>>, indent: Seq<char>) -> Seq<char>
    decreases ls.len(),
{
    if ls.len() == 0 {
        Seq::empty()
    } else {
        let line = ls[0];
        let out = if blank(line) {
            "\n"@
        } else {
            indent + strip_indent(line) + "\n"@
        };
        out + reindent_lines(ls.drop_first(), indent)
    }
}

/// `text` re-indented line by line with `indent`.
pub open spec fn reindent(text: Seq<char>, indent: Seq<char>) -> Seq<char> {
    reindent_lines(lines(text), indent)
}

proof fn lemma_reindent_cons(l: Seq<char>, ls: Seq<Seq<char>>, indent: Seq<char>)
    ensures
        reindent_lines(seq![l] + ls, indent) == (if blank(l) {
            "\n"@
        } else {
            indent + strip_indent(l) + "\n"@
        }) + reindent_lines(ls, indent),
{
    assert((seq![l] + ls).drop_first() =~= ls);
}

/// Appends the characters `cs[from..to]` to `out`.
pub(crate) fn push_range(out: &mut String, cs: &Vec<char>, from: usize, to: usize)
    requires
        from <= to <= cs@.len(),
    ensures
        final(out)@ == old(out)@ + cs@.subrange(from as int, to as int),
{
    let mut k = from;
    while k < to
        invariant
            from <= k <= to,
            to <= cs@.len(),
            out@ == old(out)@ + cs@.subrange(from as int, k as int),
        decreases to - k,
    {
        push_char(out, cs[k]);
        assert(cs@.subrange(from as int, k + 1) =~= cs@.subrange(from as int, k as int).push(cs@[k as int]));
        k = k + 1;
    }
}

/// Whether `cs[from..to]` is blank.
fn range_blank(cs: &Vec<char>, from: usize, to: usize) -> (res: bool)
    requires
        from <= to <= cs@.len(),
    ensures
        res == blank(cs@.subrange(from as int, to as int)),
{
    let mut k = from;
    while k < to
        invariant
            from <= k <= to,
            to <= cs@.len(),
            forall|i: int| from <= i < k ==> spec_is_whitespace(cs@[i]),
        decreases to - k,
    {
        if !is_whitespace(cs[k]) {
            assert(cs@.subrange(from as int, to as int)[k - from] == cs@[k as int]);
            return false;
        }
        k = k + 1;
    }
    assert forall|i: int| 0 <= i < to - from implies spec_is_whitespace(
        #[trigger] cs@.subrange(from as int, to as int)[i],
    ) by {
        assert(cs@.subrange(from as int, to as int)[i] == cs@[from + i]);
    }
    true
}

/// Start of `cs[from..to]` after its leading four-space groups.
fn skip_indent(cs: &Vec<char>, from: usize, to: usize) -> (res: usize)
    requires
        from <= to <= cs@.len(),
    ensures
        from <= res <= to,
        strip_indent(cs@.subrange(from as int, to as int)) == cs@.subrange(res as int, to as int),
    decreases to - from,
{
    if to - from >= 4 && cs[from] == ' ' && cs[from + 1] == ' ' && cs[from + 2] == ' ' && cs[from + 3] == ' ' {
        proof {
            let l = cs@.subrange(from as int, to as int);
            assert(l.subrange(0, 4) =~= "    "@) by {
                reveal_strlit("    ");
            }
            assert(l.subrange(4, l.len() as int) =~= cs@.subrange(from + 4, to as int));
        }
        skip_indent(cs, from + 4, to)
    } else {
        proof {
            let l = cs@.subrange(from as int, to as int);
            reveal_strlit("    ");
            if l.len() >= 4 && l.subrange(0, 4) == "    "@ {
                assert(l[0] == l.subrange(0, 4)[0]);
                assert(l[1] == l.subrange(0, 4)[1]);
                assert(l[2] == l.subrange(0, 4)[2]);
                assert(l[3] == l.subrange(0, 4)[3]);
            }
        }
        from
    }
}

/// Appends `text` re-indented with `indent` to `out`.
pub fn push_reindented(out: &mut String, text: &String, indent: &str)
    ensures
        final(out)@ == old(out)@ + reindent(text@, indent@),
{
    let cs = chars_of(text.as_str());
    let n = cs.len();
    let mut start: usize = 0;
    assert(cs@.subrange(0, n as int) =~= text@);
    while start < n
        invariant
            start <= n,
            n == cs@.len(),
            cs@ == text@,
            out@ + reindent_lines(lines(cs@.subrange(start as int, n as int)), indent@) == old(out)@ + reindent(
                text@,
                indent@,
            ),
        decreases n - start,
    {
        let ghost rest = cs@.subrange(start as int, n as int);
        let mut k = start;
        while k < n && cs[k] != '\n'
            invariant
                start <= k <= n,
                n == cs@.len(),
                rest == cs@.subrange(start as int, n as int),
                first_newline(rest) == (k - start) + first_newline(cs@.subrange(k as int, n as int)),
                forall|i: int| start <= i < k ==> cs@[i] != '\n',
            decreases n - k,
        {
            assert(cs@.subrange(k as int, n as int).drop_first() =~= cs@.subrange(k + 1, n as int));
            k = k + 1;
        }
        // `k` is the end of this line: a newline, or the end of the text
        let line_end = if k < n && k > start && cs[k - 1] == '\r' {
            k - 1
        } else {
            k
        };
        proof {
            let j = first_newline(rest);
            assert(j == k - start);
            if k < n {
                assert(rest.subrange(0, j) =~= cs@.subrange(start as int, k as int));
                assert(rest.subrange(j + 1, rest.len() as int) =~= cs@.subrange(k + 1, n as int));
                let l = cs@.subrange(start as int, k as int);
                if k > start && cs@[k - 1] == '\r' {
                    assert(strip_cr(l) =~= cs@.subrange(start as int, line_end as int));
                } else {
                    assert(strip_cr(l) =~= cs@.subrange(start as int, line_end as int));
                }
                assert(lines(rest) == seq![cs@.subrange(start as int, line_end as int)] + lines(
                    cs@.subrange(k + 1, n as int),
                ));
            } else {
                assert(lines(rest) == seq![cs@.subrange(start as int, line_end as int)]);
                assert(lines(rest) == seq![cs@.subrange(start as int, line_end as int)] + lines(
                    cs@.subrange(n as int, n as int),
                )) by {
                    assert(cs@.subrange(n as int, n as int) =~= Seq::<char>::empty());
                }
            }
            lemma_reindent_cons(
                cs@.subrange(start as int, line_end as int),
                lines(cs@.subrange(if k < n { k + 1 } else { n as int }, n as int)),
                indent@,
            );
        }
        proof {
            reveal_strlit("\n");
        }
        if range_blank(&cs, start, line_end) {
            push_char(out, '\n');
        } else {
            out.append(indent);
            let from = skip_indent(&cs, start, line_end);
            push_range(out, &cs, from, line_end);
            push_char(out, '\n');
        }
        start = if k < n {
            k + 1
        } else {
            n
        };
    }
    proof {
        assert(cs@.subrange(n as int, n as int) =~= Seq::<char>::empty());
    }
}

} // verus!
