//! Tests of whether a program lies in what the generator compiles: C-style
//! `for` loops are not compiled, and `iterate` takes one array variable.
use vstd::prelude::*;
use crate::ast::{exprs_model, lemma_stmts_model, stmts_model, Expression, SpecExpr, SpecStmt, Statement};
use crate::text::string_is;
use super::program_spec::{body_ok, functions_ok, program_ok};
use super::stmt_spec::{all_gen_ok, gen_ok};

verus! {

/// Whether a statement compiles at top level or in a body.
pub fn statement_compiles(s: &Statement) -> (res: bool)
    ensures
        res == gen_ok(s@),
    decreases s, 1nat,
{
    broadcast use crate::ast::group_ast_models;

    match s {
        Statement::ForLoop { .. } => false,
        Statement::If { then_body, else_body, .. } => {
            if !statements_compile(then_body) {
                return false;
            }
            match else_body {
                Some(eb) => {
                    let r = statements_compile(eb);
                    assert(r == gen_ok(s@));
                    r
                },
                None => true,
            }
        },
        Statement::ForCondition { body, .. } => statements_compile(body),
        Statement::ForIn { variable, iterable, body } => match iterable {
            Expression::FunctionCall { name, args } => {
                assert(s@ == SpecStmt::ForIn { variable: variable@, iterable: iterable@, body: stmts_model(body@) });
                assert(iterable@ == SpecExpr::FunctionCall { name: name@, args: exprs_model(args@) });
                if !string_is(name, "iterate") || args.len() != 1 {
                    return false;
                }
                let is_var = match &args[0] {
                    Expression::Identifier(_) => true,
                    _ => false,
                };
                assert(is_var == (args@[0]@ is Identifier));
                is_var && statements_compile(body)
            },
            Expression::ArrayLiteral(_) | Expression::Identifier(_) => statements_compile(body),
            _ => true,
        },
        _ => true,
    }
}

/// Whether every statement of a sequence compiles.
pub fn statements_compile(ss: &Vec<Statement>) -> (res: bool)
    ensures
        res == all_gen_ok(stmts_model(ss@)),
    decreases ss@, 0nat,
{
    let ghost all = stmts_model(ss@);
    proof {
        lemma_stmts_model(ss@);
        assert(all.subrange(0, all.len() as int) =~= all);
    }
    let mut i: usize = 0;
    while i < ss.len()
        invariant
            i <= ss@.len(),
            all == stmts_model(ss@),
            all.len() == ss@.len(),
            forall|j: int| 0 <= j < ss@.len() ==> all[j] == (#[trigger] ss@[j])@,
            all_gen_ok(all) == all_gen_ok(all.subrange(i as int, all.len() as int)),
        decreases ss@.len() - i,
    {
        let ghost rest = all.subrange(i as int, all.len() as int);
        proof {
            assert(decreases_to!(ss@ => ss@[i as int]));
            assert(rest.drop_first() =~= all.subrange(i + 1, all.len() as int));
            assert(rest[0] == all[i as int]);
        }
        if !statement_compiles(&ss[i]) {
            return false;
        }
        i = i + 1;
    }
    assert(all.subrange(i as int, all.len() as int) =~= Seq::<SpecStmt>::empty());
    true
}

/// Whether a function body compiles: its statements other than `return`
/// compile.
pub fn body_compiles(ss: &Vec<Statement>) -> (res: bool)
    ensures
        res == body_ok(stmts_model(ss@)),
{
    let ghost all = stmts_model(ss@);
    proof {
        lemma_stmts_model(ss@);
    }
    let mut i: usize = 0;
    while i < ss.len()
        invariant
            i <= ss@.len(),
            all == stmts_model(ss@),
            all.len() == ss@.len(),
            forall|j: int| 0 <= j < ss@.len() ==> all[j] == (#[trigger] ss@[j])@,
            forall|j: int| 0 <= j < i ==> (#[trigger] all[j] is Return || gen_ok(all[j])),
        decreases ss@.len() - i,
    {
        let is_return = matches!(ss[i], Statement::Return(_));
        if !is_return && !statement_compiles(&ss[i]) {
            assert(!(all[i as int] is Return || gen_ok(all[i as int])));
            return false;
        }
        i = i + 1;
    }
    true
}

/// Whether a program compiles: its function bodies compile and its other
/// statements but type definitions compile at top level. Compiling a
/// program requires it.
pub fn program_compiles(ss: &Vec<Statement>) -> (res: bool)
    ensures
        res == program_ok(stmts_model(ss@)),
{
    let ghost all = stmts_model(ss@);
    proof {
        lemma_stmts_model(ss@);
    }
    let mut i: usize = 0;
    while i < ss.len()
        invariant
            i <= ss@.len(),
            all == stmts_model(ss@),
            all.len() == ss@.len(),
            forall|j: int| 0 <= j < ss@.len() ==> all[j] == (#[trigger] ss@[j])@,
            forall|j: int|
                0 <= j < i ==> match #[trigger] all[j] {
                    SpecStmt::TypeDef { .. } => true,
                    SpecStmt::Function { body, .. } => body_ok(body),
                    s => gen_ok(s),
                },
        decreases ss@.len() - i,
    {
        let ok = match &ss[i] {
            Statement::TypeDef { .. } => true,
            Statement::Function { body, .. } => body_compiles(body),
            s => statement_compiles(s),
        };
        if !ok {
            return false;
        }
        i = i + 1;
    }
    true
}

/// Whether every function body among the statements compiles.
pub fn functions_compile(ss: &Vec<Statement>) -> (res: bool)
    ensures
        res == functions_ok(stmts_model(ss@)),
{
    let ghost all = stmts_model(ss@);
    proof {
        lemma_stmts_model(ss@);
    }
    let mut i: usize = 0;
    while i < ss.len()
        invariant
            i <= ss@.len(),
            all == stmts_model(ss@),
            all.len() == ss@.len(),
            forall|j: int| 0 <= j < ss@.len() ==> all[j] == (#[trigger] ss@[j])@,
            forall|j: int| 0 <= j < i ==> (#[trigger] all[j] matches SpecStmt::Function { body, .. } ==> body_ok(body)),
        decreases ss@.len() - i,
    {
        let ok = match &ss[i] {
            Statement::Function { body, .. } => body_compiles(body),
            _ => true,
        };
        if !ok {
            return false;
        }
        i = i + 1;
    }
    true
}

} // verus!
