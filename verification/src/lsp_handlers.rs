//! Request handlers of the language server built on [`LspCore`]: the word
//! under the cursor, and hover text from the type checker with fixed texts
//! to fall back on.
use vstd::prelude::*;
use crate::c_codegen::indent::lines;
use crate::hover::spec::{word_char, word_end, word_start};
use crate::hover::split_lines;
use crate::lsp_core::{ensure_error, ensured_docs, parses, type_info_text, LspCore, LspError};
use crate::name_map::{assoc_get, lemma_map_values_get};
use crate::text::{chars_of, owned, string_is, strings_model};

verus! {

/// The word at a position of a line: the run of letters, digits and
/// underscores through the character at that position, or nothing when
/// that character is not one of them or lies outside the line.
pub open spec fn word_at_position(ls: Seq<Seq<char>>, line: int, character: int) -> Seq<char> {
    if line < 0 || line >= ls.len() {
        Seq::empty()
    } else {
        let cur = ls[line];
        if character >= (vstd::utf8::encode_utf8(cur).len() as usize) || character >= cur.len() || !word_char(
            cur[character],
        ) {
            Seq::empty()
        } else {
            cur.subrange(word_start(cur, character), word_end(cur, character))
        }
    }
}

/// The fixed hover text of a word.
pub open spec fn static_hover(word: Seq<char>) -> Seq<char> {
    if word == "print"@ {
        "**`print(value)`**\n\n*Built-in function*\n\nPrints a value to the console."@
    } else if word == "val"@ {
        "**`val`**\n\n*Keyword*\n\nDeclares an immutable variable with type inference."@
    } else if word == "var"@ {
        "**`var`**\n\n*Keyword*\n\nDeclares a mutable variable with type inference."@
    } else if word == "fun"@ {
        "**`fun`**\n\n*Keyword*\n\nDefines a function with parameters and return type."@
    } else if word == "Integer"@ {
        "**`Integer`**\n\n*Built-in type*\n\n64-bit signed integer type."@
    } else if word == "String"@ {
        "**`String`**\n\n*Built-in type*\n\nUTF-8 string type."@
    } else if word == "Bool"@ {
        "**`Bool`**\n\n*Built-in type*\n\nBoolean type with values `true` and `false`."@
    } else {
        "**`"@ + word + "`**"@
    }
}

/// The fixed hover text of a word (see [`static_hover`]).
pub fn get_static_hover_info(word: &String) -> (res: String)
    ensures
        res@ == static_hover(word@),
{
    if string_is(word, "print") {
        owned("**`print(value)`**\n\n*Built-in function*\n\nPrints a value to the console.")
    } else if string_is(word, "val") {
        owned("**`val`**\n\n*Keyword*\n\nDeclares an immutable variable with type inference.")
    } else if string_is(word, "var") {
        owned("**`var`**\n\n*Keyword*\n\nDeclares a mutable variable with type inference.")
    } else if string_is(word, "fun") {
        owned("**`fun`**\n\n*Keyword*\n\nDefines a function with parameters and return type.")
    } else if string_is(word, "Integer") {
        owned("**`Integer`**\n\n*Built-in type*\n\n64-bit signed integer type.")
    } else if string_is(word, "String") {
        owned("**`String`**\n\n*Built-in type*\n\nUTF-8 string type.")
    } else if string_is(word, "Bool") {
        owned("**`Bool`**\n\n*Built-in type*\n\nBoolean type with values `true` and `false`.")
    } else {
        let mut t = owned("**`");
        t.append(word.as_str());
        t.append("`**");
        t
    }
}

/// The word at a position of an open document (see [`word_at_position`]).
pub fn extract_word_at_position(core: &LspCore, uri: &str, line: usize, character: usize) -> (res: Result<
    String,
    LspError,
>)
    ensures
        match assoc_get(core.docs(), uri@) {
            Some(d) => res matches Ok(w) && w@ == word_at_position(lines(d.content), line as int, character as int),
            None => res matches Err(LspError::DocumentNotFound(u)) && u@ == uri@,
        },
{
    proof {
        lemma_map_values_get(core.documents@, |d: crate::lsp_core::DocumentState| d@, uri@);
    }
    let document = match core.documents.get(uri) {
        Some(d) => d,
        None => {
            return Err(LspError::DocumentNotFound(owned(uri)));
        },
    };
    let doc_lines = split_lines(document.content.as_str());
    if line >= doc_lines.len() {
        return Ok(String::new());
    }
    let line_text = &doc_lines[line];
    if character >= line_text.as_str().len() {
        return Ok(String::new());
    }
    let chars = chars_of(line_text.as_str());
    if character >= chars.len() {
        return Ok(String::new());
    }
    if !crate::lexer::is_alphanumeric(chars[character]) && chars[character] != '_' {
        return Ok(String::new());
    }
    let ghost cur = line_text@;
    let mut start = character;
    while start > 0 && (crate::lexer::is_alphanumeric(chars[start - 1]) || chars[start - 1] == '_')
        invariant
            start <= character < chars@.len(),
            chars@ == cur,
            word_start(cur, character as int) == word_start(cur, start as int),
        decreases start,
    {
        start = start - 1;
    }
    let mut end = character;
    while end < chars.len() - 1 && (crate::lexer::is_alphanumeric(chars[end + 1]) || chars[end + 1] == '_')
        invariant
            character <= end < chars@.len(),
            chars@ == cur,
            word_end(cur, character as int) == word_end(cur, end + 1),
        decreases chars@.len() - end,
    {
        end = end + 1;
    }
    let n = chars.len();
    assert(end < n);
    let word = crate::hover::slice_string(&chars, start, end + 1);
    Ok(word)
}

/// The hover text for a position of an open document: the type checker's
/// information on the word there, or the word's fixed text.
pub fn handle_hover(core: &mut LspCore, uri: &str, line: usize, character: usize) -> (res: Result<String, LspError>)
    requires
        old(core).wf(),
    ensures
        match assoc_get(old(core).docs(), uri@) {
            None => res matches Err(LspError::DocumentNotFound(u)) && u@ == uri@ && *final(core) == *old(core),
            Some(d) => {
                let word = word_at_position(lines(d.content), line as int, character as int);
                &&& final(core).docs() == ensured_docs(old(core).docs(), uri@)
                &&& match res {
                    Ok(t) => parses(old(core).docs(), uri@) && t@ == match type_info_text(
                        old(core).type_checker.state(),
                        word,
                    ) {
                        Some(info) => if old(core).config.type_checking_enabled {
                            info
                        } else {
                            static_hover(word)
                        },
                        None => static_hover(word),
                    },
                    Err(e) => !parses(old(core).docs(), uri@) && ensure_error(old(core).docs(), uri@, e),
                }
            },
        },
        final(core).wf(),
{
    let word = match extract_word_at_position(core, uri, line, character) {
        Ok(w) => w,
        Err(e) => {
            return Err(e);
        },
    };
    match core.get_type_info(uri, word.as_str(), line) {
        Ok(Some(info)) => Ok(info),
        Ok(None) => Ok(get_static_hover_info(&word)),
        Err(e) => Err(e),
    }
}

} // verus!
