//! Properties that hold across the operations of the library: what a later
//! lookup gives after a declaration, what leaving a scope restores, what a
//! map gives back after an insertion, and more.
use vstd::prelude::*;
use crate::ast::{SpecExpr, SpecStmt, SpecType};
use crate::name_map::{assoc_get, assoc_insert, assoc_remove, lemma_assoc_index, lemma_assoc_insert};
use crate::text::nat_decimal;
use crate::lexer::{
    adv, at_end, eof_token, next_token, read_string, skip_trivia, start_pos, string_body, tokenize_from, LexPos, SpecTok,
    SpecToken,
};
use crate::ast::BinaryOperator;
use crate::c_codegen::expr::{c_expr, is_string_expr, op_text, ArrayLens, VarKinds};
use crate::codegen::expressions::plain_expr;
use crate::parser_spec::level_op;
use crate::module::{import_key, parse_source, resolve_from, SpecExports, SpecImportStep};
use crate::c_codegen::program_spec::{
    add_req, analyze_expr, analyze_exprs, analyze_fields, analyze_nested, analyze_stmt, analyze_stmts, analyze_type,
    analyze_types, code_pass, function_step, type_arg_name, Emitted,
};
use crate::c_codegen::expr::arg_names;
use crate::c_codegen::program::lemma_cg_substitute_all;
use crate::c_codegen::program_spec::{cg_substitute, cg_substitute_all, named_type};
use crate::codegen::monomorphization::SpecMonomorph;
use crate::c_codegen::stmt_spec::main_stmt;
use crate::lsp_core::{ensured_docs, without_stale, SpecDoc};
use crate::hover::server::{docs_after, reply_to, HoverTarget, Request, SpecReply};
use crate::hover::spec::hover_text;
use crate::type_checker::spec::{
    binary_result, check, check_all, check_program_state, collect_all, compatible, infer, infer_args, infer_elems,
    report, type_debug_text, SpecTypeError, TcState,
};
use crate::symbol_table::{
    spec_declare, spec_enter_scope, spec_exit_scope, spec_is_initialized, spec_lookup, spec_lookup_from,
    spec_mark_initialized, spec_new_table, spec_uninitialized, spec_wf, SpecScope, SpecScopeKind, SpecSymbol,
    SpecSymbolKind, SpecSymbolTable,
};
use crate::codegen::monomorphization::{
    concrete_for, first_index, lemma_substitute_all, spec_substitute, substitute_all, Monomorphizer,
};

verus! {

// ---------------------------------------------------------------------------
// Name maps
// ---------------------------------------------------------------------------

/// A name map gives back what was last inserted under a name, and inserting
/// under one name leaves every other name as it was.
pub proof fn name_map_insert_then_get<V>(entries: Seq<(Seq<char>, V)>, key: Seq<char>, value: V, other: Seq<char>)
    ensures
        assoc_get(assoc_insert(entries, key, value), key) == Some(value),
        other != key ==> assoc_get(assoc_insert(entries, key, value), other) == assoc_get(entries, other),
{
    lemma_assoc_insert(entries, key, value, key);
    lemma_assoc_insert(entries, key, value, other);
}

/// Whether no name has two entries.
pub open spec fn distinct_keys<V>(entries: Seq<(Seq<char>, V)>) -> bool {
    forall|i: int, j: int| 0 <= i < j < entries.len() ==> entries[i].0 != entries[j].0
}

/// After removing a name, a name map no longer has it, and every other name
/// is as it was.
pub proof fn name_map_remove_then_get<V>(entries: Seq<(Seq<char>, V)>, key: Seq<char>, other: Seq<char>)
    requires
        distinct_keys(entries),
    ensures
        assoc_get(assoc_remove(entries, key), key) is None,
        other != key ==> assoc_get(assoc_remove(entries, key), other) == assoc_get(entries, other),
{
    lemma_assoc_index(entries, key);
    lemma_assoc_index(entries, other);
    match crate::name_map::assoc_index(entries, key) {
        Some(i) => {
            let r = entries.remove(i);
            entries.remove_ensures(i);
            lemma_assoc_index(r, key);
            lemma_assoc_index(r, other);
            match crate::name_map::assoc_index(r, key) {
                Some(j) => {
                    if j < i {
                        assert(entries[j].0 == key);
                    } else {
                        assert(entries[j + 1].0 == key);
                    }
                },
                None => {},
            }
            if other != key {
                match crate::name_map::assoc_index(entries, other) {
                    Some(k) => {
                        if k < i {
                            crate::name_map::lemma_assoc_get_first(r, other, k);
                        } else {
                            assert(r[k - 1] == entries[k]);
                            assert forall|m: int| 0 <= m < k - 1 implies r[m].0 != other by {
                                if m >= i {
                                    assert(r[m] == entries[m + 1]);
                                }
                            }
                            crate::name_map::lemma_assoc_get_first(r, other, k - 1);
                        }
                    },
                    None => {
                        assert forall|m: int| 0 <= m < r.len() implies r[m].0 != other by {
                            if m >= i {
                                assert(r[m] == entries[m + 1]);
                            }
                        }
                        assert(crate::name_map::assoc_index(r, other) is None);
                    },
                }
            }
        },
        None => {},
    }
}

// ---------------------------------------------------------------------------
// Symbol tables
// ---------------------------------------------------------------------------

proof fn lemma_assoc_get_push(s: Seq<(Seq<char>, usize)>, k: Seq<char>, v: usize, n: Seq<char>)
    ensures
        assoc_get(s.push((k, v)), n) == if assoc_get(s, n) is Some {
            assoc_get(s, n)
        } else if n == k {
            Some(v)
        } else {
            None
        },
    decreases s.len(),
{
    if s.len() > 0 {
        assert(s.push((k, v)).drop_first() =~= s.drop_first().push((k, v)));
        assert(s.push((k, v))[0] == s[0]);
        lemma_assoc_get_push(s.drop_first(), k, v, n);
        if s[0].0 != n {
            assert(assoc_get(s, n) == assoc_get(s.drop_first(), n));
            assert(assoc_get(s.push((k, v)), n) == assoc_get(s.drop_first().push((k, v)), n));
        }
    } else {
        let t = s.push((k, v));
        assert(t.drop_first() =~= Seq::<(Seq<char>, usize)>::empty());
        assert(t[0] == (k, v));
        assert(assoc_get(t.drop_first(), n) is None);
        assert(assoc_get(s, n) is None);
    }
}

/// Lookups of `n` agree on two scope lists whose first scopes agree on `n`
/// and on their parents.
proof fn lemma_lookup_agrees(s1: Seq<SpecScope>, s2: Seq<SpecScope>, sid: usize, n: Seq<char>, bound: int)
    requires
        sid < bound <= s1.len(),
        bound <= s2.len(),
        forall|i: int|
            0 <= i < bound ==> assoc_get(#[trigger] s1[i].symbols, n) == assoc_get(s2[i].symbols, n) && s1[i].parent
                == s2[i].parent,
    ensures
        spec_lookup_from(s1, sid, n) == spec_lookup_from(s2, sid, n),
    decreases sid,
{
    assert(assoc_get(s1[sid as int].symbols, n) == assoc_get(s2[sid as int].symbols, n));
    match assoc_get(s1[sid as int].symbols, n) {
        Some(_) => {},
        None => match s1[sid as int].parent {
            Some(p) => if p < sid {
                lemma_lookup_agrees(s1, s2, p, n, bound);
            },
            None => {},
        },
    }
}

/// A successful declaration is found by a lookup of its name right after.
pub proof fn lookup_after_declare(st: SpecSymbolTable, name: Seq<char>, sym: SpecSymbol)
    requires
        spec_wf(st),
        spec_declare(st, name, sym).1 is Some,
    ensures
        spec_lookup(spec_declare(st, name, sym).0, name) == spec_declare(st, name, sym).1,
{
    let cur = st.current_scope as int;
    lemma_assoc_get_push(st.scopes[cur].symbols, name, st.next_symbol_id, name);
}

/// Declaring a name changes the lookup of no other name.
pub proof fn declare_keeps_other_names(st: SpecSymbolTable, name: Seq<char>, sym: SpecSymbol, other: Seq<char>)
    requires
        spec_wf(st),
        other != name,
    ensures
        spec_lookup(spec_declare(st, name, sym).0, other) == spec_lookup(st, other),
{
    let st2 = spec_declare(st, name, sym).0;
    let cur = st.current_scope as int;
    assert forall|i: int| 0 <= i < st.scopes.len() implies assoc_get(#[trigger] st2.scopes[i].symbols, other)
        == assoc_get(st.scopes[i].symbols, other) && st2.scopes[i].parent == st.scopes[i].parent by {
        if i == cur {
            lemma_assoc_get_push(st.scopes[cur].symbols, name, st.next_symbol_id, other);
        }
    }
    lemma_lookup_agrees(st2.scopes, st.scopes, st.current_scope, other, st.scopes.len() as int);
}

/// A name cannot be declared twice in the same scope: the second
/// declaration fails.
pub proof fn redeclaration_fails(st: SpecSymbolTable, name: Seq<char>, sym1: SpecSymbol, sym2: SpecSymbol)
    requires
        spec_wf(st),
        spec_declare(st, name, sym1).1 is Some,
    ensures
        spec_declare(spec_declare(st, name, sym1).0, name, sym2).1 is None,
{
    let cur = st.current_scope as int;
    lemma_assoc_get_push(st.scopes[cur].symbols, name, st.next_symbol_id, name);
}

/// Entering a scope and leaving it again makes the former scope current
/// again, and every name looks up as it did before.
pub proof fn enter_then_exit_restores(st: SpecSymbolTable, kind: SpecScopeKind, n: Seq<char>)
    requires
        spec_wf(st),
        st.next_scope_id < usize::MAX,
    ensures
        spec_exit_scope(spec_enter_scope(st, kind)).1 == Ok::<usize, Seq<char>>(st.current_scope),
        spec_exit_scope(spec_enter_scope(st, kind)).0.current_scope == st.current_scope,
        spec_lookup(spec_exit_scope(spec_enter_scope(st, kind)).0, n) == spec_lookup(st, n),
{
    let st1 = spec_enter_scope(st, kind);
    let st2 = spec_exit_scope(st1).0;
    assert(st1.scopes[st1.current_scope as int].parent == Some(st.current_scope));
    assert forall|i: int| 0 <= i < st.scopes.len() implies assoc_get(#[trigger] st2.scopes[i].symbols, n)
        == assoc_get(st.scopes[i].symbols, n) && st2.scopes[i].parent == st.scopes[i].parent by {}
    lemma_lookup_agrees(st2.scopes, st.scopes, st.current_scope, n, st.scopes.len() as int);
}

/// The global scope cannot be left.
pub proof fn global_scope_cannot_be_left(st: SpecSymbolTable)
    requires
        spec_wf(st),
        st.current_scope == st.global_scope,
    ensures
        spec_exit_scope(st).1 is Err,
        spec_exit_scope(st).0 == st,
{
}

/// Entering a scope adds it as the last scope, with the next scope id, below
/// the current scope and one level deeper, empty; it becomes current and the
/// last child of its parent. Every other scope and every symbol stay as they
/// were.
pub proof fn enter_scope_adds_child(st: SpecSymbolTable, kind: SpecScopeKind)
    requires
        spec_wf(st),
        st.next_scope_id < usize::MAX,
    ensures
        ({
            let r = st.next_scope_id;
            let c = st.current_scope;
            let st2 = spec_enter_scope(st, kind);
            &&& r == st.scopes.len()
            &&& st2.scopes.len() == st.scopes.len() + 1
            &&& st2.current_scope == r
            &&& st2.scopes[r as int] == (SpecScope {
                id: r,
                kind,
                parent: Some(c),
                children: Seq::empty(),
                symbols: Seq::empty(),
                depth: (st.scopes[c as int].depth + 1) as usize,
            })
            &&& st2.scopes[c as int].children == st.scopes[c as int].children.push(r)
            &&& forall|i: int| 0 <= i < st.scopes.len() && i != c ==> #[trigger] st2.scopes[i] == st.scopes[i]
            &&& st2.symbols == st.symbols
            &&& spec_wf(st2)
        }),
{
}

/// The uninitialized variables are exactly the symbols not yet initialized,
/// in increasing order of id: only variables can be uninitialized. (A
/// table holds at most `usize::MAX` symbols.)
pub proof fn uninitialized_are_the_unset_variables(syms: Seq<SpecSymbol>)
    requires
        syms.len() <= usize::MAX,
    ensures
        forall|k: int| 0 <= k < spec_uninitialized(syms).len() ==> {
            let id = #[trigger] spec_uninitialized(syms)[k];
            &&& id < syms.len()
            &&& !spec_is_initialized(syms[id as int])
            &&& syms[id as int].kind matches SpecSymbolKind::Variable { initialized: false, .. }
        },
        forall|a: int, b: int|
            0 <= a < b < spec_uninitialized(syms).len() ==> spec_uninitialized(syms)[a] < spec_uninitialized(syms)[b],
        forall|i: int| 0 <= i < syms.len() && !spec_is_initialized(#[trigger] syms[i]) ==> spec_uninitialized(syms).contains(i as usize),
    decreases syms.len(),
{
    if syms.len() > 0 {
        let n = syms.len() - 1;
        let pre = syms.subrange(0, n);
        uninitialized_are_the_unset_variables(pre);
        let rest = spec_uninitialized(pre);
        let r = spec_uninitialized(syms);
        assert forall|i: int| 0 <= i < pre.len() implies #[trigger] pre[i] == syms[i] by {}
        let last_unset = !spec_is_initialized(syms[n]);
        if last_unset {
            assert(r == rest.push(n as usize));
        } else {
            assert(r == rest);
        }
        assert forall|k: int| 0 <= k < r.len() implies {
            let id = #[trigger] r[k];
            &&& id < syms.len()
            &&& !spec_is_initialized(syms[id as int])
            &&& syms[id as int].kind matches SpecSymbolKind::Variable { initialized: false, .. }
        } by {
            if k < rest.len() {
                assert(r[k] == rest[k]);
                assert(pre[rest[k] as int] == syms[rest[k] as int]);
            } else {
                assert(r[k] == n as usize);
            }
        }
        assert forall|a: int, b: int| 0 <= a < b < r.len() implies r[a] < r[b] by {
            assert(r[a] == rest[a]);
            if b < rest.len() {
                assert(r[b] == rest[b]);
            } else {
                assert(rest[a] < pre.len());
            }
        }
        assert forall|i: int| 0 <= i < syms.len() && !spec_is_initialized(#[trigger] syms[i]) implies r.contains(i as usize) by {
            if i < n {
                assert(pre[i] == syms[i]);
                let k = choose|k: int| 0 <= k < rest.len() && rest[k] == i as usize;
                assert(r[k] == rest[k]);
            } else {
                assert(r[r.len() - 1] == i as usize);
            }
        }
    }
}

/// Initializing a variable takes it off the uninitialized list and keeps
/// whether it is mutable; doing it again changes nothing.
pub proof fn initialized_variable_leaves_the_list(syms: Seq<SpecSymbol>, id: usize)
    requires
        id < syms.len() <= usize::MAX,
    ensures
        !spec_uninitialized(syms.update(id as int, spec_mark_initialized(syms[id as int]))).contains(id),
        spec_mark_initialized(spec_mark_initialized(syms[id as int])) == spec_mark_initialized(syms[id as int]),
        syms[id as int].kind matches SpecSymbolKind::Variable { mutable, .. } ==> spec_mark_initialized(
            syms[id as int],
        ).kind == (SpecSymbolKind::Variable { mutable, initialized: true }),
{
    let s2 = syms.update(id as int, spec_mark_initialized(syms[id as int]));
    uninitialized_are_the_unset_variables(s2);
    if spec_uninitialized(s2).contains(id) {
        let k = choose|k: int| 0 <= k < spec_uninitialized(s2).len() && spec_uninitialized(s2)[k] == id;
        assert(!spec_is_initialized(s2[spec_uninitialized(s2)[k] as int]));
    }
}

/// Symbol ids of a table are fresh: within each scope they increase in
/// declaration order, and all lie below the next id to hand out.
pub open spec fn ids_fresh(st: SpecSymbolTable) -> bool {
    &&& forall|i: int, a: int, b: int|
        0 <= i < st.scopes.len() && 0 <= a < b < st.scopes[i].symbols.len() ==> (#[trigger] st.scopes[i].symbols[a]).1
            < (#[trigger] st.scopes[i].symbols[b]).1
    &&& forall|i: int, a: int|
        0 <= i < st.scopes.len() && 0 <= a < st.scopes[i].symbols.len() ==> (#[trigger] st.scopes[i].symbols[a]).1
            < st.next_symbol_id
}

proof fn lemma_declare_fresh(st: SpecSymbolTable, name: Seq<char>, sym: SpecSymbol)
    requires
        ids_fresh(st),
        spec_wf(st),
        st.next_symbol_id < usize::MAX,
    ensures
        ids_fresh(spec_declare(st, name, sym).0),
{
    let st2 = spec_declare(st, name, sym).0;
    let cur = st.current_scope as int;
    let old_len = st.scopes[cur].symbols.len();
    let grew = assoc_get(st.scopes[cur].symbols, name) is None;
    assert(st2.scopes.len() == st.scopes.len());
    assert forall|i: int| 0 <= i < st2.scopes.len() && !(grew && i == cur) implies #[trigger] st2.scopes[i] == st.scopes[i] by {}
    if grew {
        assert(st2.scopes[cur].symbols == st.scopes[cur].symbols.push((name, st.next_symbol_id)));
    }
    assert forall|i: int, a: int, b: int|
        0 <= i < st2.scopes.len() && 0 <= a < b < st2.scopes[i].symbols.len() implies (#[trigger] st2.scopes[i].symbols[a]).1
            < (#[trigger] st2.scopes[i].symbols[b]).1 by {
        if grew && i == cur {
            assert(st2.scopes[i].symbols[a] == st.scopes[i].symbols[a]);
            if b < old_len {
                assert(st2.scopes[i].symbols[b] == st.scopes[i].symbols[b]);
            }
        }
    }
    assert forall|i: int, a: int|
        0 <= i < st2.scopes.len() && 0 <= a < st2.scopes[i].symbols.len() implies (#[trigger] st2.scopes[i].symbols[a]).1
            < st2.next_symbol_id by {
        if grew && i == cur && a < old_len {
            assert(st2.scopes[i].symbols[a] == st.scopes[i].symbols[a]);
        }
    }
}

proof fn lemma_enter_fresh(st: SpecSymbolTable, kind: SpecScopeKind)
    requires
        ids_fresh(st),
        spec_wf(st),
    ensures
        ids_fresh(spec_enter_scope(st, kind)),
{
    let st2 = spec_enter_scope(st, kind);
    assert forall|i: int| 0 <= i < st.scopes.len() implies (#[trigger] st2.scopes[i]).symbols == st.scopes[i].symbols by {}
    assert(st2.scopes[st.scopes.len() as int].symbols.len() == 0);
    assert forall|i: int, a: int, b: int|
        0 <= i < st2.scopes.len() && 0 <= a < b < st2.scopes[i].symbols.len() implies (#[trigger] st2.scopes[i].symbols[a]).1
            < (#[trigger] st2.scopes[i].symbols[b]).1 by {
        if i < st.scopes.len() {
            assert(st2.scopes[i].symbols == st.scopes[i].symbols);
        }
    }
    assert forall|i: int, a: int|
        0 <= i < st2.scopes.len() && 0 <= a < st2.scopes[i].symbols.len() implies (#[trigger] st2.scopes[i].symbols[a]).1
            < st2.next_symbol_id by {
        if i < st.scopes.len() {
            assert(st2.scopes[i].symbols == st.scopes[i].symbols);
        }
    }
}

/// A fresh table's ids are fresh, and declaring, entering and leaving
/// scopes keep them so (as long as the counters do not run out), so no
/// scope ever lists an id twice.
pub proof fn symbol_ids_stay_fresh(st: SpecSymbolTable, name: Seq<char>, sym: SpecSymbol, kind: SpecScopeKind)
    ensures
        ids_fresh(spec_new_table()),
        ids_fresh(st) && spec_wf(st) && st.next_symbol_id < usize::MAX ==> ids_fresh(spec_declare(st, name, sym).0),
        ids_fresh(st) && spec_wf(st) ==> ids_fresh(spec_enter_scope(st, kind)),
        ids_fresh(st) ==> ids_fresh(spec_exit_scope(st).0),
        ids_fresh(st) ==> forall|i: int| 0 <= i < st.scopes.len() ==> Seq::new(
            st.scopes[i].symbols.len(),
            |j: int| st.scopes[i].symbols[j].1,
        ).no_duplicates(),
{
    if ids_fresh(st) && spec_wf(st) && st.next_symbol_id < usize::MAX {
        lemma_declare_fresh(st, name, sym);
    }
    if ids_fresh(st) && spec_wf(st) {
        lemma_enter_fresh(st, kind);
    }
    if ids_fresh(st) {
        assert forall|i: int| 0 <= i < st.scopes.len() implies Seq::new(
            st.scopes[i].symbols.len(),
            |j: int| st.scopes[i].symbols[j].1,
        ).no_duplicates() by {
            let ids = Seq::new(st.scopes[i].symbols.len(), |j: int| st.scopes[i].symbols[j].1);
            assert forall|a: int, b: int| 0 <= a < ids.len() && 0 <= b < ids.len() && a != b implies ids[a] != ids[b] by {
                if a < b {
                    assert(st.scopes[i].symbols[a].1 < st.scopes[i].symbols[b].1);
                } else {
                    assert(st.scopes[i].symbols[b].1 < st.scopes[i].symbols[a].1);
                }
            }
        }
    }
}

/// Substituting with no type parameters leaves a type as it is.
pub proof fn substitution_without_parameters_is_identity(t: SpecType)
    ensures
        spec_substitute(t, Seq::empty(), Seq::empty()) == t,
    decreases t, 1nat,
{
    match t {
        SpecType::Pointer(inner) => substitution_without_parameters_is_identity(*inner),
        SpecType::Generic { name, type_params } => substitution_list_without_parameters_is_identity(type_params),
        _ => {},
    }
}

proof fn substitution_list_without_parameters_is_identity(ts: Seq<SpecType>)
    ensures
        substitute_all(ts, Seq::empty(), Seq::empty()) == ts,
    decreases ts, 0nat,
{
    lemma_substitute_all(ts, Seq::empty(), Seq::empty());
    assert forall|i: int| 0 <= i < ts.len() implies substitute_all(ts, Seq::empty(), Seq::empty())[i] == ts[i] by {
        substitution_without_parameters_is_identity(ts[i]);
    }
    assert(substitute_all(ts, Seq::empty(), Seq::empty()) =~= ts);
}

/// After registering one generic type on a fresh monomorphizer, exactly
/// that type is known and no instance is required.
pub proof fn one_registration_on_a_fresh_monomorphizer(
    fresh: Monomorphizer,
    registered: Monomorphizer,
    name: Seq<char>,
    definition: (Seq<Seq<char>>, Seq<(Seq<char>, SpecType)>),
)
    requires
        forall|n: Seq<char>| fresh.definition(n) is None,
        fresh.required() == Set::<SpecMonomorph>::empty(),
        registered.definition(name) == Some(definition),
        forall|n: Seq<char>| n != name ==> registered.definition(n) == fresh.definition(n),
        registered.required() == fresh.required(),
    ensures
        forall|n: Seq<char>| (registered.definition(n) is Some) == (n == name),
        registered.required().is_empty(),
{
    assert forall|n: Seq<char>| (registered.definition(n) is Some) == (n == name) by {
        if n != name {
            assert(registered.definition(n) == fresh.definition(n));
        }
    }
}

/// Requiring the same instance again adds nothing: required instances form
/// a set.
pub proof fn requiring_twice_is_requiring_once(required: Set<SpecMonomorph>, m: SpecMonomorph)
    ensures
        required.insert(m).insert(m) == required.insert(m),
{
    assert(required.insert(m).insert(m) =~= required.insert(m));
}

/// A name declared in an inner scope shadows the outer one while that scope
/// is current; once it is left, the name looks up as before.
pub proof fn shadowing(st: SpecSymbolTable, kind: SpecScopeKind, name: Seq<char>, sym: SpecSymbol)
    requires
        spec_wf(st),
        st.next_scope_id < usize::MAX,
    ensures
        ({
            let inner = spec_enter_scope(st, kind);
            let (declared, id) = spec_declare(inner, name, sym);
            &&& id == Some(inner.next_symbol_id)
            &&& spec_lookup(declared, name) == id
            &&& spec_lookup(spec_exit_scope(declared).0, name) == spec_lookup(st, name)
        }),
{
    let inner = spec_enter_scope(st, kind);
    let (declared, id) = spec_declare(inner, name, sym);
    let cur = inner.current_scope as int;
    assert(inner.scopes[cur].symbols =~= Seq::<(Seq<char>, usize)>::empty());
    lemma_assoc_get_push(inner.scopes[cur].symbols, name, inner.next_symbol_id, name);
    let back = spec_exit_scope(declared).0;
    assert(declared.scopes[cur].parent == Some(st.current_scope));
    assert(back.current_scope == st.current_scope);
    assert forall|i: int| 0 <= i < st.scopes.len() implies assoc_get(#[trigger] back.scopes[i].symbols, name)
        == assoc_get(st.scopes[i].symbols, name) && back.scopes[i].parent == st.scopes[i].parent by {}
    lemma_lookup_agrees(back.scopes, st.scopes, st.current_scope, name, st.scopes.len() as int);
}

// ---------------------------------------------------------------------------
// Type checking
// ---------------------------------------------------------------------------

/// Whether `a` begins `b`.
pub open spec fn prefix_of<A>(a: Seq<A>, b: Seq<A>) -> bool {
    a.len() <= b.len() && b.take(a.len() as int) == a
}

proof fn lemma_prefix_trans<A>(a: Seq<A>, b: Seq<A>, c: Seq<A>)
    requires
        prefix_of(a, b),
        prefix_of(b, c),
    ensures
        prefix_of(a, c),
{
    assert forall|i: int| 0 <= i < a.len() implies c.take(a.len() as int)[i] == a[i] by {
        assert(c.take(b.len() as int)[i] == c[i]);
        assert(b.take(a.len() as int)[i] == b[i]);
    }
    assert(c.take(a.len() as int) =~= a);
}

proof fn lemma_prefix_push<A>(a: Seq<A>, x: A)
    ensures
        prefix_of(a, a.push(x)),
{
    assert(a.push(x).take(a.len() as int) =~= a);
}

proof fn lemma_prefix_refl<A>(a: Seq<A>)
    ensures
        prefix_of(a, a),
{
    assert(a.take(a.len() as int) =~= a);
}

/// Inferring a type only adds errors: signatures and variables stay.
pub proof fn inference_only_adds_errors(st: TcState, e: SpecExpr)
    ensures
        prefix_of(st.errors, infer(st, e).0.errors),
        infer(st, e).0.functions == st.functions,
        infer(st, e).0.variables == st.variables,
    decreases e, 0int,
{
    lemma_prefix_refl(st.errors);
    match e {
        SpecExpr::Identifier(name) => {
            lemma_prefix_push(st.errors, SpecTypeError { message: "Undefined variable: '"@ + name + "'"@, line: 0, column: 0 });
        },
        SpecExpr::FunctionCall { name, args } => match assoc_get(st.functions, name) {
            Some(sig) => {
                if args.len() != sig.params.len() {
                    let m = "Function '"@ + name + "' expects "@ + nat_decimal(sig.params.len()) + " arguments, found "@
                        + nat_decimal(args.len());
                    lemma_prefix_push(st.errors, SpecTypeError { message: m, line: 0, column: 0 });
                } else {
                    args_only_add_errors(st, name, args, sig.params, args.len() as int);
                }
            },
            None => {
                lemma_prefix_push(st.errors, SpecTypeError { message: "Undefined function: '"@ + name + "'"@, line: 0, column: 0 });
            },
        },
        SpecExpr::BinaryOp { left, operator, right } => {
            let (st1, lt) = infer(st, *left);
            let (st2, rt) = infer(st1, *right);
            inference_only_adds_errors(st, *left);
            inference_only_adds_errors(st1, *right);
            lemma_prefix_trans(st.errors, st1.errors, st2.errors);
            match binary_result(lt, operator, rt).1 {
                Some(m) => {
                    lemma_prefix_push(st2.errors, SpecTypeError { message: m, line: 0, column: 0 });
                    lemma_prefix_trans(st.errors, st2.errors, report(st2, m).errors);
                },
                None => {},
            }
        },
        SpecExpr::UnaryOp { operator, operand } => {
            let (st1, t) = infer(st, *operand);
            inference_only_adds_errors(st, *operand);
            let m = "Logical NOT requires Bool operand, found "@ + type_debug_text(t);
            lemma_prefix_push(st1.errors, SpecTypeError { message: m, line: 0, column: 0 });
            lemma_prefix_trans(st.errors, st1.errors, report(st1, m).errors);
        },
        SpecExpr::ArrayLiteral(elements) => {
            if elements.len() > 0 {
                let (st1, t0) = infer(st, elements[0]);
                inference_only_adds_errors(st, elements[0]);
                elements_only_add_errors(st1, elements, t0, elements.len() as int);
                lemma_prefix_trans(st.errors, st1.errors, infer_elems(st1, elements, t0, elements.len() as int).errors);
            }
        },
        SpecExpr::ArrayAccess { array, index } => {
            let (st1, at) = infer(st, *array);
            let (st2, it) = infer(st1, *index);
            inference_only_adds_errors(st, *array);
            inference_only_adds_errors(st1, *index);
            lemma_prefix_trans(st.errors, st1.errors, st2.errors);
            let m1 = "Array index must be Integer, found "@ + type_debug_text(it);
            lemma_prefix_push(st2.errors, SpecTypeError { message: m1, line: 0, column: 0 });
            lemma_prefix_trans(st.errors, st2.errors, report(st2, m1).errors);
            let st3 = if compatible(SpecType::Integer, it) {
                st2
            } else {
                report(st2, m1)
            };
            let m2 = "Cannot index into "@ + type_debug_text(at) + ", expected Array"@;
            lemma_prefix_push(st3.errors, SpecTypeError { message: m2, line: 0, column: 0 });
            lemma_prefix_trans(st.errors, st3.errors, report(st3, m2).errors);
        },
        SpecExpr::AddressOf { operand } => {
            inference_only_adds_errors(st, *operand);
        },
        SpecExpr::Dereference { operand } => {
            let (st1, t) = infer(st, *operand);
            inference_only_adds_errors(st, *operand);
            let m = "Cannot dereference "@ + type_debug_text(t) + ", expected Pointer"@;
            lemma_prefix_push(st1.errors, SpecTypeError { message: m, line: 0, column: 0 });
            lemma_prefix_trans(st.errors, st1.errors, report(st1, m).errors);
        },
        _ => {},
    }
}

proof fn args_only_add_errors(
    st: TcState,
    fname: Seq<char>,
    args: Seq<SpecExpr>,
    params: Seq<(Seq<char>, SpecType)>,
    n: int,
)
    ensures
        prefix_of(st.errors, infer_args(st, fname, args, params, n).errors),
        infer_args(st, fname, args, params, n).functions == st.functions,
        infer_args(st, fname, args, params, n).variables == st.variables,
    decreases args, n,
{
    lemma_prefix_refl(st.errors);
    if !(n <= 0 || n > args.len() || n > params.len()) {
        let st1 = infer_args(st, fname, args, params, n - 1);
        args_only_add_errors(st, fname, args, params, n - 1);
        let (st2, at) = infer(st1, args[n - 1]);
        inference_only_adds_errors(st1, args[n - 1]);
        lemma_prefix_trans(st.errors, st1.errors, st2.errors);
        let (pname, pt) = params[n - 1];
        let m = "Function '"@ + fname + "' parameter '"@ + pname + "' expects "@ + type_debug_text(pt) + ", found "@
            + type_debug_text(at);
        lemma_prefix_push(st2.errors, SpecTypeError { message: m, line: 0, column: 0 });
        lemma_prefix_trans(st.errors, st2.errors, report(st2, m).errors);
    }
}

proof fn elements_only_add_errors(st: TcState, elements: Seq<SpecExpr>, t0: SpecType, n: int)
    ensures
        prefix_of(st.errors, infer_elems(st, elements, t0, n).errors),
        infer_elems(st, elements, t0, n).functions == st.functions,
        infer_elems(st, elements, t0, n).variables == st.variables,
    decreases elements, n,
{
    lemma_prefix_refl(st.errors);
    if !(n <= 1 || n > elements.len()) {
        let st1 = infer_elems(st, elements, t0, n - 1);
        elements_only_add_errors(st, elements, t0, n - 1);
        let (st2, t) = infer(st1, elements[n - 1]);
        inference_only_adds_errors(st1, elements[n - 1]);
        lemma_prefix_trans(st.errors, st1.errors, st2.errors);
        let m = "Array element "@ + nat_decimal((n - 1) as nat) + " has type "@ + type_debug_text(t) + ", expected "@
            + type_debug_text(t0);
        lemma_prefix_push(st2.errors, SpecTypeError { message: m, line: 0, column: 0 });
        lemma_prefix_trans(st.errors, st2.errors, report(st2, m).errors);
    }
}

/// Checking a statement never drops an error already reported, and never
/// changes the known function signatures.
pub proof fn checking_only_adds_errors(st: TcState, s: SpecStmt)
    ensures
        prefix_of(st.errors, check(st, s).errors),
        check(st, s).functions == st.functions,
    decreases s, 0int,
{
    lemma_prefix_refl(st.errors);
    match s {
        SpecStmt::VarDecl { name, type_annotation, value } | SpecStmt::ValDecl { name, type_annotation, value } => {
            let (st1, t) = infer(st, value);
            inference_only_adds_errors(st, value);
            match type_annotation {
                Some(d) => {
                    let m = "Type mismatch: variable '"@ + name + "' declared as "@ + type_debug_text(d)
                        + ", but assigned "@ + type_debug_text(t);
                    lemma_prefix_push(st1.errors, SpecTypeError { message: m, line: 0, column: 0 });
                    lemma_prefix_trans(st.errors, st1.errors, report(st1, m).errors);
                },
                None => {},
            }
        },
        SpecStmt::Assignment { variable, value } => match assoc_get(st.variables, variable) {
            Some(vt) => {
                let (st1, t) = infer(st, value);
                inference_only_adds_errors(st, value);
                let m = "Type mismatch: cannot assign "@ + type_debug_text(t) + " to variable '"@ + variable
                    + "' of type "@ + type_debug_text(vt);
                lemma_prefix_push(st1.errors, SpecTypeError { message: m, line: 0, column: 0 });
                lemma_prefix_trans(st.errors, st1.errors, report(st1, m).errors);
            },
            None => {
                lemma_prefix_push(st.errors, SpecTypeError { message: "Undefined variable: '"@ + variable + "'"@, line: 0, column: 0 });
            },
        },
        SpecStmt::If { condition, then_body, else_body } => {
            let (st1, ct) = infer(st, condition);
            inference_only_adds_errors(st, condition);
            let m = "If condition must be boolean, found "@ + type_debug_text(ct);
            lemma_prefix_push(st1.errors, SpecTypeError { message: m, line: 0, column: 0 });
            lemma_prefix_trans(st.errors, st1.errors, report(st1, m).errors);
            let st2 = if compatible(SpecType::Bool, ct) {
                st1
            } else {
                report(st1, m)
            };
            statements_only_add_errors(st2, then_body, then_body.len() as int);
            let st3 = check_all(st2, then_body, then_body.len() as int);
            lemma_prefix_trans(st.errors, st2.errors, st3.errors);
            match else_body {
                Some(eb) => {
                    statements_only_add_errors(st3, eb, eb.len() as int);
                    lemma_prefix_trans(st.errors, st3.errors, check_all(st3, eb, eb.len() as int).errors);
                },
                None => {},
            }
        },
        SpecStmt::Function { body, .. } => {
            statements_only_add_errors(st, body, body.len() as int);
        },
        SpecStmt::Return(Some(e)) => {
            inference_only_adds_errors(st, e);
        },
        SpecStmt::ForIn { iterable, body, .. } => {
            let (st1, t) = infer(st, iterable);
            inference_only_adds_errors(st, iterable);
            statements_only_add_errors(st1, body, body.len() as int);
            lemma_prefix_trans(st.errors, st1.errors, check_all(st1, body, body.len() as int).errors);
            let m = "Cannot iterate over "@ + type_debug_text(t) + ", expected Array"@;
            lemma_prefix_push(st1.errors, SpecTypeError { message: m, line: 0, column: 0 });
            lemma_prefix_trans(st.errors, st1.errors, report(st1, m).errors);
        },
        SpecStmt::Expression(e) => {
            inference_only_adds_errors(st, e);
        },
        _ => {},
    }
}

proof fn statements_only_add_errors(st: TcState, ss: Seq<SpecStmt>, n: int)
    ensures
        prefix_of(st.errors, check_all(st, ss, n).errors),
        check_all(st, ss, n).functions == st.functions,
    decreases ss, n,
{
    lemma_prefix_refl(st.errors);
    if !(n <= 0 || n > ss.len()) {
        let st1 = check_all(st, ss, n - 1);
        statements_only_add_errors(st, ss, n - 1);
        checking_only_adds_errors(st1, ss[n - 1]);
        lemma_prefix_trans(st.errors, st1.errors, check(st1, ss[n - 1]).errors);
    }
}

proof fn collecting_keeps_errors(st: TcState, ss: Seq<SpecStmt>, n: int)
    ensures
        collect_all(st, ss, n).errors == st.errors,
        collect_all(st, ss, n).variables == st.variables,
    decreases n,
{
    if !(n <= 0 || n > ss.len()) {
        collecting_keeps_errors(st, ss, n - 1);
    }
}

/// Checking a program never drops an error reported before: the errors
/// afterwards begin with those before.
pub proof fn program_check_only_adds_errors(st: TcState, ss: Seq<SpecStmt>)
    ensures
        prefix_of(st.errors, check_program_state(st, ss).errors),
{
    collecting_keeps_errors(st, ss, ss.len() as int);
    statements_only_add_errors(collect_all(st, ss, ss.len() as int), ss, ss.len() as int);
}

/// Compatible types are the same type: compatibility is the equality of
/// built-in types, arrays and pointers (a custom or generic type is
/// compatible with nothing).
pub proof fn compatible_types_are_equal(expected: SpecType, actual: SpecType)
    requires
        compatible(expected, actual),
    ensures
        expected == actual,
        compatible(actual, expected),
    decreases expected,
{
    match (expected, actual) {
        (SpecType::Array(e), SpecType::Array(a)) => {
            compatible_types_are_equal(*e, *a);
        },
        (SpecType::Pointer(e), SpecType::Pointer(a)) => {
            compatible_types_are_equal(*e, *a);
        },
        _ => {},
    }
}

// ---------------------------------------------------------------------------
// Lexing
// ---------------------------------------------------------------------------

/// A successful tokenization keeps the tokens it started with and ends with
/// an end-of-file token.
pub proof fn tokens_end_with_eof(input: Seq<char>, s: LexPos, toks: Seq<SpecToken>)
    requires
        tokenize_from(input, s, toks) is Some,
    ensures
        ({
            let ts = tokenize_from(input, s, toks).unwrap();
            &&& ts.len() > toks.len()
            &&& ts.last().token_type == SpecTok::Eof
            &&& ts.take(toks.len() as int) == toks
        }),
    decreases input.len() - s.pos,
{
    if at_end(input, s) {
        assert(toks.push(eof_token(s)).take(toks.len() as int) =~= toks);
    } else {
        let s1 = skip_trivia(input, s);
        if at_end(input, s1) {
            assert(toks.push(eof_token(s1)).take(toks.len() as int) =~= toks);
        } else {
            let (t, s2) = next_token(input, s1).unwrap();
            tokens_end_with_eof(input, s2, toks.push(t));
            let ts = tokenize_from(input, s2, toks.push(t)).unwrap();
            assert(ts.take(toks.len() as int) =~= ts.take((toks.len() + 1) as int).take(toks.len() as int));
            assert(toks.push(t).take(toks.len() as int) =~= toks);
        }
    }
}

// ---------------------------------------------------------------------------
// Modules
// ---------------------------------------------------------------------------

/// When every import of a program names a loaded module with exports,
/// resolving the imports asks for nothing more.
pub proof fn loaded_imports_resolve(
    modules: Seq<(Seq<char>, Seq<SpecStmt>)>,
    exports: Seq<(Seq<char>, SpecExports)>,
    resolved: Seq<(Seq<char>, Seq<Seq<char>>)>,
    ss: Seq<SpecStmt>,
    i: int,
)
    requires
        0 <= i,
        forall|j: int|
            i <= j < ss.len() ==> (#[trigger] ss[j] matches SpecStmt::Import { source_path, .. } ==> assoc_get(
                modules,
                source_path,
            ) is Some && assoc_get(exports, source_path) is Some),
    ensures
        resolve_from(modules, exports, resolved, ss, i).1 == SpecImportStep::Done,
    decreases ss.len() - i,
{
    if i < ss.len() {
        let r = match ss[i] {
            SpecStmt::Import { module_name, source_path, items } => match items {
                Some(names) => assoc_insert(resolved, import_key(module_name, source_path), names),
                None => {
                    let e = assoc_get(exports, source_path).unwrap();
                    assoc_insert(resolved, import_key(module_name, source_path), e.functions + e.types + e.variables)
                },
            },
            _ => resolved,
        };
        loaded_imports_resolve(modules, exports, r, ss, i + 1);
    }
}

// ---------------------------------------------------------------------------
// Code generation
// ---------------------------------------------------------------------------

/// Whether a statement defines a function named `main`.
pub open spec fn defines_main(s: SpecStmt) -> bool {
    s matches SpecStmt::Function { name, .. } && name == "main"@
}

/// A compiled program calls its own `main` exactly when it defines a
/// function of that name (or one was defined before).
pub proof fn user_main_iff_defined(e: Emitted, ss: Seq<SpecStmt>)
    ensures
        code_pass(e, ss).user_main <==> (e.user_main || exists|i: int| 0 <= i < ss.len() && defines_main(#[trigger] ss[i])),
    decreases ss.len(),
{
    if ss.len() > 0 {
        let e1 = if ss[0] is Function {
            function_step(e, ss[0])
        } else {
            Emitted { gen: main_stmt(e.gen, ss[0]), ..e }
        };
        let rest = ss.drop_first();
        user_main_iff_defined(e1, rest);
        reveal_strlit("main");
        reveal_strlit("print");
        reveal_strlit("println");
        assert("main"@ != "print"@ && "main"@ != "println"@) by {
            assert("main"@.len() != "print"@.len());
            assert("main"@.len() != "println"@.len());
        }
        match ss[0] {
            SpecStmt::Function { name, .. } => {
                if name == "print"@ || name == "println"@ {
                    assert(!defines_main(ss[0]));
                }
            },
            _ => {},
        }
        assert(e1.user_main == (e.user_main || defines_main(ss[0])));
        if exists|i: int| 0 <= i < ss.len() && defines_main(#[trigger] ss[i]) {
            let i = choose|i: int| 0 <= i < ss.len() && defines_main(#[trigger] ss[i]);
            if i > 0 {
                assert(rest[i - 1] == ss[i]);
                assert(defines_main(rest[i - 1]));
            }
        }
        if exists|i: int| 0 <= i < rest.len() && defines_main(#[trigger] rest[i]) {
            let i = choose|i: int| 0 <= i < rest.len() && defines_main(#[trigger] rest[i]);
            assert(ss[i + 1] == rest[i]);
            assert(defines_main(ss[i + 1]));
        }
    }
}

/// `r` is `req` with instances added after it, and repeats none if `req`
/// repeats none.
pub open spec fn grows(req: Seq<SpecMonomorph>, r: Seq<SpecMonomorph>) -> bool {
    &&& req.len() <= r.len()
    &&& r.subrange(0, req.len() as int) == req
    &&& req.no_duplicates() ==> r.no_duplicates()
}

proof fn lemma_grows_refl(req: Seq<SpecMonomorph>)
    ensures
        grows(req, req),
{
    assert(req.subrange(0, req.len() as int) =~= req);
}

proof fn lemma_grows_trans(a: Seq<SpecMonomorph>, b: Seq<SpecMonomorph>, c: Seq<SpecMonomorph>)
    requires
        grows(a, b),
        grows(b, c),
    ensures
        grows(a, c),
{
    assert(c.subrange(0, a.len() as int) =~= c.subrange(0, b.len() as int).subrange(0, a.len() as int));
}

proof fn lemma_add_req_grows(req: Seq<SpecMonomorph>, m: SpecMonomorph)
    ensures
        grows(req, add_req(req, m)),
{
    if req.contains(m) {
        lemma_grows_refl(req);
    } else {
        let r = req.push(m);
        assert(r.subrange(0, req.len() as int) =~= req);
        if req.no_duplicates() {
            assert forall|i: int, j: int| 0 <= i < r.len() && 0 <= j < r.len() && i != j implies r[i] != r[j] by {
                if i == req.len() {
                    assert(req[j] != m);
                } else if j == req.len() {
                    assert(req[i] != m);
                }
            }
        }
    }
}

proof fn lemma_analyze_type_grows(req: Seq<SpecMonomorph>, t: SpecType)
    ensures
        grows(req, analyze_type(req, t)),
    decreases t, 1nat,
{
    match t {
        SpecType::Generic { name, type_params } => {
            lemma_analyze_nested_grows(req, type_params);
            let r1 = analyze_nested(req, type_params);
            let m = SpecMonomorph {
                base_name: name,
                type_args: Seq::new(type_params.len(), |i: int| type_arg_name(type_params[i])),
            };
            lemma_add_req_grows(r1, m);
            lemma_grows_trans(req, r1, add_req(r1, m));
        },
        SpecType::Pointer(inner) => lemma_analyze_type_grows(req, *inner),
        _ => lemma_grows_refl(req),
    }
}

proof fn lemma_analyze_nested_grows(req: Seq<SpecMonomorph>, ts: Seq<SpecType>)
    ensures
        grows(req, analyze_nested(req, ts)),
    decreases ts, 0nat,
{
    if ts.len() == 0 {
        lemma_grows_refl(req);
    } else {
        let r1 = match ts[0] {
            SpecType::Generic { .. } => analyze_type(req, ts[0]),
            _ => req,
        };
        match ts[0] {
            SpecType::Generic { .. } => lemma_analyze_type_grows(req, ts[0]),
            _ => lemma_grows_refl(req),
        }
        lemma_analyze_nested_grows(r1, ts.drop_first());
        lemma_grows_trans(req, r1, analyze_nested(r1, ts.drop_first()));
    }
}

proof fn lemma_analyze_expr_grows(req: Seq<SpecMonomorph>, e: SpecExpr)
    ensures
        grows(req, analyze_expr(req, e)),
    decreases e, 1nat,
{
    match e {
        SpecExpr::StructLiteral { struct_name, type_args, fields } => {
            let r1 = match type_args {
                Some(args) => add_req(req, SpecMonomorph { base_name: struct_name, type_args: arg_names(args) }),
                None => req,
            };
            match type_args {
                Some(args) => lemma_add_req_grows(req, SpecMonomorph { base_name: struct_name, type_args: arg_names(args) }),
                None => lemma_grows_refl(req),
            }
            lemma_analyze_fields_grows(r1, fields);
            lemma_grows_trans(req, r1, analyze_fields(r1, fields));
        },
        SpecExpr::FunctionCall { args, .. } => lemma_analyze_exprs_grows(req, args),
        SpecExpr::NamespacedFunctionCall { args, .. } => lemma_analyze_exprs_grows(req, args),
        SpecExpr::BinaryOp { left, right, .. } => {
            lemma_analyze_expr_grows(req, *left);
            let r1 = analyze_expr(req, *left);
            lemma_analyze_expr_grows(r1, *right);
            lemma_grows_trans(req, r1, analyze_expr(r1, *right));
        },
        SpecExpr::UnaryOp { operand, .. } => lemma_analyze_expr_grows(req, *operand),
        SpecExpr::FieldAccess { object, .. } => lemma_analyze_expr_grows(req, *object),
        SpecExpr::ArrayAccess { array, index } => {
            lemma_analyze_expr_grows(req, *array);
            let r1 = analyze_expr(req, *array);
            lemma_analyze_expr_grows(r1, *index);
            lemma_grows_trans(req, r1, analyze_expr(r1, *index));
        },
        SpecExpr::AddressOf { operand } => lemma_analyze_expr_grows(req, *operand),
        SpecExpr::Dereference { operand } => lemma_analyze_expr_grows(req, *operand),
        _ => lemma_grows_refl(req),
    }
}

proof fn lemma_analyze_exprs_grows(req: Seq<SpecMonomorph>, es: Seq<SpecExpr>)
    ensures
        grows(req, analyze_exprs(req, es)),
    decreases es, 0nat,
{
    if es.len() == 0 {
        lemma_grows_refl(req);
    } else {
        lemma_analyze_expr_grows(req, es[0]);
        let r1 = analyze_expr(req, es[0]);
        lemma_analyze_exprs_grows(r1, es.drop_first());
        lemma_grows_trans(req, r1, analyze_exprs(r1, es.drop_first()));
    }
}

proof fn lemma_analyze_fields_grows(req: Seq<SpecMonomorph>, fs: Seq<(Seq<char>, SpecExpr)>)
    ensures
        grows(req, analyze_fields(req, fs)),
    decreases fs, 0nat,
{
    if fs.len() == 0 {
        lemma_grows_refl(req);
    } else {
        lemma_analyze_expr_grows(req, fs[0].1);
        let r1 = analyze_expr(req, fs[0].1);
        lemma_analyze_fields_grows(r1, fs.drop_first());
        lemma_grows_trans(req, r1, analyze_fields(r1, fs.drop_first()));
    }
}

proof fn lemma_analyze_types_grows(req: Seq<SpecMonomorph>, ts: Seq<SpecType>)
    ensures
        grows(req, analyze_types(req, ts)),
    decreases ts.len(),
{
    if ts.len() == 0 {
        lemma_grows_refl(req);
    } else {
        lemma_analyze_type_grows(req, ts[0]);
        let r1 = analyze_type(req, ts[0]);
        lemma_analyze_types_grows(r1, ts.drop_first());
        lemma_grows_trans(req, r1, analyze_types(r1, ts.drop_first()));
    }
}

proof fn lemma_analyze_stmt_grows(req: Seq<SpecMonomorph>, s: SpecStmt)
    ensures
        grows(req, analyze_stmt(req, s)),
{
    match s {
        SpecStmt::VarDecl { type_annotation, value, .. } | SpecStmt::ValDecl { type_annotation, value, .. } => {
            let r1 = match type_annotation {
                Some(t) => analyze_type(req, t),
                None => req,
            };
            match type_annotation {
                Some(t) => lemma_analyze_type_grows(req, t),
                None => lemma_grows_refl(req),
            }
            lemma_analyze_expr_grows(r1, value);
            lemma_grows_trans(req, r1, analyze_expr(r1, value));
        },
        SpecStmt::Function { params, return_type, .. } => {
            let ts = Seq::new(params.len(), |i: int| params[i].1);
            lemma_analyze_types_grows(req, ts);
            let r1 = analyze_types(req, ts);
            match return_type {
                Some(t) => {
                    lemma_analyze_type_grows(r1, t);
                    lemma_grows_trans(req, r1, analyze_type(r1, t));
                },
                None => {},
            }
        },
        SpecStmt::Expression(e) => lemma_analyze_expr_grows(req, e),
        _ => lemma_grows_refl(req),
    }
}

/// Recording the generic instances that statements need keeps the ones
/// recorded before, first and in their order, and records no instance
/// twice: the instances form a set kept in the order first needed.
pub proof fn required_instances_grow_without_repeats(req: Seq<SpecMonomorph>, ss: Seq<SpecStmt>)
    ensures
        req.len() <= analyze_stmts(req, ss).len(),
        analyze_stmts(req, ss).subrange(0, req.len() as int) == req,
        req.no_duplicates() ==> analyze_stmts(req, ss).no_duplicates(),
    decreases ss.len(),
{
    if ss.len() == 0 {
        lemma_grows_refl(req);
    } else {
        lemma_analyze_stmt_grows(req, ss[0]);
        let r1 = analyze_stmt(req, ss[0]);
        required_instances_grow_without_repeats(r1, ss.drop_first());
        lemma_grows_trans(req, r1, analyze_stmts(r1, ss.drop_first()));
    }
}

// ---------------------------------------------------------------------------
// Language server documents
// ---------------------------------------------------------------------------

/// Parsing a document on demand twice is the same as once.
pub proof fn ensure_parsed_is_idempotent(docs: Seq<(Seq<char>, SpecDoc)>, uri: Seq<char>)
    ensures
        ensured_docs(ensured_docs(docs, uri), uri) == ensured_docs(docs, uri),
{
    match assoc_get(docs, uri) {
        Some(d) => if d.parsed is None {
            match parse_source(d.content) {
                Some(ss) => {
                    lemma_assoc_insert(docs, uri, SpecDoc { parsed: Some(ss), ..d }, uri);
                },
                None => {},
            }
        },
        None => {},
    }
}

/// Making room drops at most `limit` documents, never one changed at or
/// after `cutoff`, and keeps the others in order.
pub proof fn cleanup_keeps_recent(docs: Seq<(Seq<char>, SpecDoc)>, cutoff: int, limit: int)
    requires
        limit >= 0,
    ensures
        without_stale(docs, cutoff, limit).len() >= docs.len() - limit,
        forall|i: int|
            0 <= i < docs.len() && (#[trigger] docs[i]).1.last_updated >= cutoff ==> without_stale(
                docs,
                cutoff,
                limit,
            ).contains(docs[i]),
    decreases docs.len(),
{
    if docs.len() > 0 {
        let rest = docs.drop_first();
        if limit > 0 && docs[0].1.last_updated < cutoff {
            cleanup_keeps_recent(rest, cutoff, limit - 1);
            assert forall|i: int| 0 <= i < docs.len() && (#[trigger] docs[i]).1.last_updated >= cutoff implies without_stale(
                docs,
                cutoff,
                limit,
            ).contains(docs[i]) by {
                assert(i > 0);
                assert(rest[i - 1] == docs[i]);
            }
        } else {
            cleanup_keeps_recent(rest, cutoff, limit);
            let w = without_stale(rest, cutoff, limit);
            assert forall|i: int| 0 <= i < docs.len() && (#[trigger] docs[i]).1.last_updated >= cutoff implies (seq![docs[0]]
                + w).contains(docs[i]) by {
                if i == 0 {
                    assert((seq![docs[0]] + w)[0] == docs[0]);
                } else {
                    assert(rest[i - 1] == docs[i]);
                    let k = choose|k: int| 0 <= k < w.len() && w[k] == docs[i];
                    assert((seq![docs[0]] + w)[k + 1] == docs[i]);
                }
            }
        }
    }
}

// ---------------------------------------------------------------------------
// The first language server
// ---------------------------------------------------------------------------

/// A hover over a document answers from the text it was last opened or
/// changed with; documents under other URIs answer as before.
pub proof fn hover_reads_last_text(docs: Seq<(Seq<char>, Seq<char>)>, uri: String, text: String, target: HoverTarget)
    ensures
        docs_after(docs, Request::DidChange { uri, text }) == docs_after(docs, Request::DidOpen { uri, text }),
        target.uri@ == uri@ ==> reply_to(docs_after(docs, Request::DidOpen { uri, text }), Request::Hover(Some(target)))
            == SpecReply::Hover(hover_text(text@, target.line as int, target.character as int)),
        target.uri@ != uri@ ==> reply_to(docs_after(docs, Request::DidOpen { uri, text }), Request::Hover(Some(target)))
            == reply_to(docs, Request::Hover(Some(target))),
{
    lemma_assoc_insert(docs, uri@, text@, target.uri@);
}

// ---------------------------------------------------------------------------
// Operators
// ---------------------------------------------------------------------------

/// The C text of each binary operator is the way Bolt writes that same
/// operator: lexed on its own it is one token, the whole text, and the
/// parser reads that token back, at its precedence level, as the very
/// operator it was written for.
pub proof fn c_operator_text_reads_back(op: BinaryOperator)
    ensures
        next_token(op_text(op), start_pos()) is Some,
        next_token(op_text(op), start_pos()).unwrap().1.pos == op_text(op).len(),
        exists|level: int|
            0 <= level <= 4 && level_op(level, next_token(op_text(op), start_pos()).unwrap().0.token_type) == Some(op),
{
    let text = op_text(op);
    match op {
        BinaryOperator::Add => {
            reveal_strlit("+");
            assert(level_op(3, next_token(text, start_pos()).unwrap().0.token_type) == Some(op));
        },
        BinaryOperator::Subtract => {
            reveal_strlit("-");
            assert(level_op(3, next_token(text, start_pos()).unwrap().0.token_type) == Some(op));
        },
        BinaryOperator::Multiply => {
            reveal_strlit("*");
            assert(level_op(4, next_token(text, start_pos()).unwrap().0.token_type) == Some(op));
        },
        BinaryOperator::Divide => {
            reveal_strlit("/");
            assert(level_op(4, next_token(text, start_pos()).unwrap().0.token_type) == Some(op));
        },
        BinaryOperator::Modulo => {
            reveal_strlit("%");
            assert(level_op(4, next_token(text, start_pos()).unwrap().0.token_type) == Some(op));
        },
        BinaryOperator::Equal => {
            reveal_strlit("==");
            assert(level_op(2, next_token(text, start_pos()).unwrap().0.token_type) == Some(op));
        },
        BinaryOperator::NotEqual => {
            reveal_strlit("!=");
            assert(level_op(2, next_token(text, start_pos()).unwrap().0.token_type) == Some(op));
        },
        BinaryOperator::Less => {
            reveal_strlit("<");
            assert(level_op(2, next_token(text, start_pos()).unwrap().0.token_type) == Some(op));
        },
        BinaryOperator::LessEqual => {
            reveal_strlit("<=");
            assert(level_op(2, next_token(text, start_pos()).unwrap().0.token_type) == Some(op));
        },
        BinaryOperator::Greater => {
            reveal_strlit(">");
            assert(level_op(2, next_token(text, start_pos()).unwrap().0.token_type) == Some(op));
        },
        BinaryOperator::GreaterEqual => {
            reveal_strlit(">=");
            assert(level_op(2, next_token(text, start_pos()).unwrap().0.token_type) == Some(op));
        },
        BinaryOperator::And => {
            reveal_strlit("&&");
            assert(level_op(1, next_token(text, start_pos()).unwrap().0.token_type) == Some(op));
        },
        BinaryOperator::Or => {
            reveal_strlit("||");
            assert(level_op(0, next_token(text, start_pos()).unwrap().0.token_type) == Some(op));
        },
    }
}

/// The C text of a binary operation is built from the C texts of its
/// operands, left then right, around the operator's C text (which reads
/// back as that operator, see [`c_operator_text_reads_back`]), in
/// parentheses: in both code generators, string concatenation apart.
pub proof fn binary_operations_compose(vars: VarKinds, lens: ArrayLens, l: SpecExpr, op: BinaryOperator, r: SpecExpr)
    ensures
        plain_expr(SpecExpr::BinaryOp { left: Box::new(l), operator: op, right: Box::new(r) }) == "("@ + plain_expr(l)
            + " "@ + op_text(op) + " "@ + plain_expr(r) + ")"@,
        !(op == BinaryOperator::Add && (is_string_expr(vars, l) || is_string_expr(vars, r))) ==> c_expr(
            vars,
            lens,
            SpecExpr::BinaryOp { left: Box::new(l), operator: op, right: Box::new(r) },
        ) == "("@ + c_expr(vars, lens, l) + " "@ + op_text(op) + " "@ + c_expr(vars, lens, r) + ")"@,
{
}

/// No two operator tokens parse to the same operator, whatever their
/// precedence levels: each operator has its own token.
pub proof fn operator_tokens_are_distinct(l1: int, t1: SpecTok, l2: int, t2: SpecTok)
    requires
        level_op(l1, t1) is Some,
        level_op(l1, t1) == level_op(l2, t2),
    ensures
        t1 == t2,
{
}

/// The type of a binary operation: a comparison, an equality or a logical
/// operation is a `Bool` and arithmetic an `Integer`, whatever the
/// operands; an error is reported exactly when the operands are not of the
/// types the operator takes (integers for arithmetic and comparisons,
/// booleans for `&&` and `||`, the same primitive type for equalities).
pub proof fn well_typed_binary_operations(l: SpecType, op: BinaryOperator, r: SpecType)
    ensures
        (op is Less || op is LessEqual || op is Greater || op is GreaterEqual) && l == SpecType::Integer && r
            == SpecType::Integer ==> binary_result(l, op, r) == (SpecType::Bool, None::<Seq<char>>),
        (op is Add || op is Subtract || op is Multiply || op is Divide || op is Modulo) && l == SpecType::Integer && r
            == SpecType::Integer ==> binary_result(l, op, r) == (SpecType::Integer, None::<Seq<char>>),
        (op is And || op is Or) && l == SpecType::Bool && r == SpecType::Bool ==> binary_result(l, op, r) == (
            SpecType::Bool,
            None::<Seq<char>>,
        ),
        (op is Equal || op is NotEqual) && (l is Integer || l is String || l is Bool) && l == r ==> binary_result(
            l,
            op,
            r,
        ) == (SpecType::Bool, None::<Seq<char>>),
        (op is Add || op is Subtract || op is Multiply || op is Divide || op is Modulo) ==> binary_result(l, op, r).0
            == SpecType::Integer,
        !(op is Add || op is Subtract || op is Multiply || op is Divide || op is Modulo) ==> binary_result(l, op, r).0
            == SpecType::Bool,
        (op is Add || op is Subtract || op is Multiply || op is Divide || op is Modulo || op is Less || op is LessEqual
            || op is Greater || op is GreaterEqual) && (l != SpecType::Integer || r != SpecType::Integer) ==> binary_result(
            l,
            op,
            r,
        ).1 is Some,
        (op is And || op is Or) && (l != SpecType::Bool || r != SpecType::Bool) ==> binary_result(l, op, r).1 is Some,
        (op is Equal || op is NotEqual) && (l is Integer || l is String || l is Bool) && l != r ==> binary_result(
            l,
            op,
            r,
        ).1 is Some,
{
}

/// Comparing two integer expressions gives a `Bool` (so it can stand as an
/// `if` condition) and reports nothing beyond what its operands report.
pub proof fn integer_comparisons_are_bool(st: TcState, l: SpecExpr, op: BinaryOperator, r: SpecExpr)
    requires
        op is Less || op is LessEqual || op is Greater || op is GreaterEqual,
        infer(st, l).1 == SpecType::Integer,
        infer(infer(st, l).0, r).1 == SpecType::Integer,
    ensures
        infer(st, SpecExpr::BinaryOp { left: Box::new(l), operator: op, right: Box::new(r) }) == (
            infer(infer(st, l).0, r).0,
            SpecType::Bool,
        ),
        compatible(SpecType::Bool, infer(st, SpecExpr::BinaryOp { left: Box::new(l), operator: op, right: Box::new(r) }).1),
{
}

// ---------------------------------------------------------------------------
// String literals
// ---------------------------------------------------------------------------

/// How a character is written inside a Bolt string literal: newline, tab,
/// carriage return, backslash and double quote as `\n`, `\t`, `\r`,
/// `\\` and `\"`, every other character as itself.
pub open spec fn written_char(c: char) -> Seq<char> {
    if c == '\n' {
        seq!['\\', 'n']
    } else if c == '\t' {
        seq!['\\', 't']
    } else if c == '\r' {
        seq!['\\', 'r']
    } else if c == '\\' {
        seq!['\\', '\\']
    } else if c == '"' {
        seq!['\\', '"']
    } else {
        seq![c]
    }
}

/// How a text is written inside a string literal, character by character.
pub open spec fn written_text(v: Seq<char>) -> Seq<char>
    decreases v.len(),
{
    if v.len() == 0 {
        Seq::empty()
    } else {
        written_char(v[0]) + written_text(v.drop_first())
    }
}

proof fn lemma_string_body_reads_written(pre: Seq<char>, v: Seq<char>, rest: Seq<char>, s: LexPos, acc: Seq<char>)
    requires
        s.pos == pre.len(),
    ensures
        ({
            let input = pre + written_text(v) + seq!['"'] + rest;
            let (value, e) = string_body(input, s, acc);
            value == acc + v && e.pos == pre.len() + written_text(v).len()
        }),
    decreases v.len(),
{
    let input = pre + written_text(v) + seq!['"'] + rest;
    if v.len() == 0 {
        assert(input[pre.len() as int] == '"');
        assert(acc + v =~= acc);
    } else {
        let c = v[0];
        let w = written_char(c);
        let tail = v.drop_first();
        let pre2 = pre + w;
        assert(written_text(v) == w + written_text(tail));
        assert(input =~= pre2 + written_text(tail) + seq!['"'] + rest);
        assert(input[pre.len() as int] == w[0]);
        if w.len() == 2 {
            assert(input[pre.len() as int + 1] == w[1]);
            let s2 = adv(input, adv(input, s));
            lemma_string_body_reads_written(pre2, tail, rest, s2, acc.push(c));
        } else {
            let s1 = adv(input, s);
            lemma_string_body_reads_written(pre2, tail, rest, s1, acc.push(c));
        }
        assert(acc.push(c) + tail =~= acc + v);
    }
}

/// A string literal reads back as the text it was written for: lexing a
/// double quote, a text written as in [`written_text`] (so `\n` for a
/// newline) and a closing double quote gives a string token holding exactly
/// that text, and the lexer goes on right after the closing quote.
pub proof fn string_literals_read_back(pre: Seq<char>, v: Seq<char>, rest: Seq<char>, s: LexPos)
    requires
        s.pos == pre.len(),
    ensures
        ({
            let input = pre + seq!['"'] + written_text(v) + seq!['"'] + rest;
            &&& read_string(input, s).0 == SpecTok::String(v)
            &&& read_string(input, s).1.pos == pre.len() + written_text(v).len() + 2
        }),
{
    let input = pre + seq!['"'] + written_text(v) + seq!['"'] + rest;
    let pre1 = pre + seq!['"'];
    assert(input =~= pre1 + written_text(v) + seq!['"'] + rest);
    assert(input[pre.len() as int] == '"');
    let s1 = adv(input, s);
    lemma_string_body_reads_written(pre1, v, rest, s1, Seq::empty());
    assert(Seq::<char>::empty() + v =~= v);
    let e = string_body(input, s1, Seq::empty()).1;
    assert(input[e.pos] == '"');
}

// ---------------------------------------------------------------------------
// Substituting type parameters
// ---------------------------------------------------------------------------

/// Whether a type names `name` (as a custom type or a type parameter),
/// itself, behind a pointer or among the arguments of a generic type. An
/// array's element type is not looked into: substitution leaves arrays as
/// they are.
pub open spec fn names_type(t: SpecType, name: Seq<char>) -> bool
    decreases t, 1nat,
{
    match t {
        SpecType::Custom(n) => n == name,
        SpecType::TypeParameter(n) => n == name,
        SpecType::Pointer(inner) => names_type(*inner, name),
        SpecType::Generic { type_params, .. } => any_names_type(type_params, name),
        _ => false,
    }
}

/// Whether some type of a list names `name`.
pub open spec fn any_names_type(ts: Seq<SpecType>, name: Seq<char>) -> bool
    decreases ts, 0nat,
{
    if ts.len() == 0 {
        false
    } else {
        names_type(ts[0], name) || any_names_type(ts.drop_first(), name)
    }
}

proof fn lemma_any_names_type(ts: Seq<SpecType>, name: Seq<char>)
    ensures
        any_names_type(ts, name) <==> exists|i: int| 0 <= i < ts.len() && names_type(#[trigger] ts[i], name),
    decreases ts.len(),
{
    if ts.len() > 0 {
        lemma_any_names_type(ts.drop_first(), name);
        if exists|i: int| 0 <= i < ts.len() && names_type(#[trigger] ts[i], name) {
            let i = choose|i: int| 0 <= i < ts.len() && names_type(#[trigger] ts[i], name);
            if i > 0 {
                assert(ts.drop_first()[i - 1] == ts[i]);
            }
        }
        if exists|i: int| 0 <= i < ts.drop_first().len() && names_type(#[trigger] ts.drop_first()[i], name) {
            let i = choose|i: int| 0 <= i < ts.drop_first().len() && names_type(#[trigger] ts.drop_first()[i], name);
            assert(ts[i + 1] == ts.drop_first()[i]);
        }
    }
}

proof fn lemma_first_index(v: Seq<Seq<char>>, x: Seq<char>)
    ensures
        first_index(v, x) matches Some(j) ==> 0 <= j < v.len() && v[j] == x && forall|k: int| 0 <= k < j ==> v[k] != x,
        first_index(v, x) is None ==> forall|k: int| 0 <= k < v.len() ==> v[k] != x,
    decreases v.len(),
{
    if v.len() > 0 {
        lemma_first_index(v.drop_first(), x);
        assert forall|k: int| 1 <= k < v.len() implies #[trigger] v[k] == v.drop_first()[k - 1] by {}
    }
}

/// Whether `name` is a parameter that has a concrete type.
pub open spec fn replaced_parameter(params: Seq<Seq<char>>, concrete: Seq<Seq<char>>, name: Seq<char>) -> bool {
    exists|i: int| 0 <= i < params.len() && i < concrete.len() && params[i] == name
}

proof fn lemma_replaced_has_concrete(params: Seq<Seq<char>>, concrete: Seq<Seq<char>>, name: Seq<char>)
    requires
        replaced_parameter(params, concrete, name),
    ensures
        concrete_for(params, concrete, name) matches Some(c) && concrete.contains(c),
{
    lemma_first_index(params, name);
    let i = choose|i: int| 0 <= i < params.len() && i < concrete.len() && params[i] == name;
    let j = first_index(params, name)->0;
    assert(j <= i);
    assert(concrete[j] == concrete_for(params, concrete, name)->0);
}

/// After substitution no parameter that has a concrete type is named
/// anywhere in the type, also not among the arguments of a generic type
/// (provided no concrete type is itself named like a parameter).
pub proof fn substitution_leaves_no_parameter(
    t: SpecType,
    params: Seq<Seq<char>>,
    concrete: Seq<Seq<char>>,
    name: Seq<char>,
)
    requires
        replaced_parameter(params, concrete, name),
        forall|k: int| 0 <= k < concrete.len() ==> !params.contains(#[trigger] concrete[k]),
    ensures
        !names_type(spec_substitute(t, params, concrete), name),
    decreases t, 1nat,
{
    let i = choose|i: int| 0 <= i < params.len() && i < concrete.len() && params[i] == name;
    match t {
        SpecType::Custom(n) | SpecType::TypeParameter(n) => {
            if n == name {
                lemma_replaced_has_concrete(params, concrete, name);
                let c = concrete_for(params, concrete, name)->0;
                let k = choose|k: int| 0 <= k < concrete.len() && concrete[k] == c;
                assert(params.contains(name));
                assert(!params.contains(concrete[k]));
            } else {
                match concrete_for(params, concrete, n) {
                    Some(c) => {
                        lemma_first_index(params, n);
                        let j = first_index(params, n)->0;
                        assert(concrete[j] == c);
                        assert(params[i] == name);
                        if c == name {
                            assert(params.contains(concrete[j]));
                        }
                    },
                    None => {},
                }
            }
        },
        SpecType::Pointer(inner) => substitution_leaves_no_parameter(*inner, params, concrete, name),
        SpecType::Generic { name: g, type_params } => {
            substitution_list_leaves_no_parameter(type_params, params, concrete, name);
        },
        _ => {},
    }
}

proof fn substitution_list_leaves_no_parameter(
    ts: Seq<SpecType>,
    params: Seq<Seq<char>>,
    concrete: Seq<Seq<char>>,
    name: Seq<char>,
)
    requires
        replaced_parameter(params, concrete, name),
        forall|k: int| 0 <= k < concrete.len() ==> !params.contains(#[trigger] concrete[k]),
    ensures
        !any_names_type(substitute_all(ts, params, concrete), name),
    decreases ts, 0nat,
{
    let r = substitute_all(ts, params, concrete);
    lemma_substitute_all(ts, params, concrete);
    lemma_any_names_type(r, name);
    assert forall|i: int| 0 <= i < r.len() implies !names_type(#[trigger] r[i], name) by {
        substitution_leaves_no_parameter(ts[i], params, concrete, name);
    }
}

/// Whether a type names the custom type `name`, itself, behind a pointer or
/// among the arguments of a generic type (arrays are not looked into).
pub open spec fn names_custom(t: SpecType, name: Seq<char>) -> bool
    decreases t, 1nat,
{
    match t {
        SpecType::Custom(n) => n == name,
        SpecType::Pointer(inner) => names_custom(*inner, name),
        SpecType::Generic { type_params, .. } => any_names_custom(type_params, name),
        _ => false,
    }
}

pub open spec fn any_names_custom(ts: Seq<SpecType>, name: Seq<char>) -> bool
    decreases ts, 0nat,
{
    if ts.len() == 0 {
        false
    } else {
        names_custom(ts[0], name) || any_names_custom(ts.drop_first(), name)
    }
}

proof fn lemma_any_names_custom(ts: Seq<SpecType>, name: Seq<char>)
    ensures
        any_names_custom(ts, name) <==> exists|i: int| 0 <= i < ts.len() && names_custom(#[trigger] ts[i], name),
    decreases ts.len(),
{
    if ts.len() > 0 {
        lemma_any_names_custom(ts.drop_first(), name);
        if exists|i: int| 0 <= i < ts.len() && names_custom(#[trigger] ts[i], name) {
            let i = choose|i: int| 0 <= i < ts.len() && names_custom(#[trigger] ts[i], name);
            if i > 0 {
                assert(ts.drop_first()[i - 1] == ts[i]);
            }
        }
        if exists|i: int| 0 <= i < ts.drop_first().len() && names_custom(#[trigger] ts.drop_first()[i], name) {
            let i = choose|i: int| 0 <= i < ts.drop_first().len() && names_custom(#[trigger] ts.drop_first()[i], name);
            assert(ts[i + 1] == ts.drop_first()[i]);
        }
    }
}

/// The generator's instances substitute every parameter that has a
/// concrete type, also among the arguments of a generic field type: none is
/// named afterwards (provided no concrete type is itself named like a
/// parameter).
pub proof fn instance_fields_name_no_parameter(
    t: SpecType,
    params: Seq<Seq<char>>,
    concrete: Seq<Seq<char>>,
    name: Seq<char>,
)
    requires
        replaced_parameter(params, concrete, name),
        forall|k: int| 0 <= k < concrete.len() ==> !params.contains(#[trigger] concrete[k]),
    ensures
        !names_custom(cg_substitute(t, params, concrete), name),
    decreases t, 1nat,
{
    let i = choose|i: int| 0 <= i < params.len() && i < concrete.len() && params[i] == name;
    match t {
        SpecType::Custom(n) => {
            if n == name {
                lemma_replaced_has_concrete(params, concrete, name);
                let c = concrete_for(params, concrete, name)->0;
                let k = choose|k: int| 0 <= k < concrete.len() && concrete[k] == c;
                assert(params.contains(name));
                assert(!params.contains(concrete[k]));
            } else {
                match concrete_for(params, concrete, n) {
                    Some(c) => {
                        lemma_first_index(params, n);
                        let j = first_index(params, n)->0;
                        assert(concrete[j] == c);
                        if c == name {
                            assert(params.contains(concrete[j]));
                        }
                    },
                    None => {},
                }
            }
        },
        SpecType::Pointer(inner) => instance_fields_name_no_parameter(*inner, params, concrete, name),
        SpecType::Generic { name: g, type_params } => {
            let r = cg_substitute_all(type_params, params, concrete);
            lemma_cg_substitute_all(type_params, params, concrete);
            lemma_any_names_custom(r, name);
            assert forall|k: int| 0 <= k < r.len() implies !names_custom(#[trigger] r[k], name) by {
                instance_fields_name_no_parameter(type_params[k], params, concrete, name);
            }
        },
        _ => {},
    }
}

} // verus!
