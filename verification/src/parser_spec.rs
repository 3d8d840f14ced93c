//! What the parser produces: a grammar over token sequences, with the symbol
//! table updates that parsing makes. `None` marks the inputs on which the
//! parser gives up.
use vstd::prelude::*;
use crate::ast::{BinaryOperator, SpecExpr, SpecSignature, SpecStmt, SpecType, UnaryOperator};
use crate::lexer::SpecTok;
use crate::symbol_table::{
    spec_declare, spec_enter_scope, spec_exit_scope, SpecScopeKind, SpecSymbol, SpecSymbolKind,
    SpecSymbolTable,
};

verus! {

/// Whether std's `char::is_uppercase` holds of a non-ASCII character (the
/// Unicode Uppercase property).
pub uninterp spec fn unicode_uppercase(c: char) -> bool;

/// std's `char::is_uppercase`: among ASCII characters exactly `A`-`Z` have
/// the Uppercase property.
pub open spec fn spec_is_uppercase(c: char) -> bool {
    if crate::lexer::is_ascii_char(c) {
        'A' <= c && c <= 'Z'
    } else {
        unicode_uppercase(c)
    }
}

/// std's `char::is_uppercase` (see [`spec_is_uppercase`]).
#[verifier::external_body]
pub(crate) fn is_uppercase(c: char) -> (res: bool)
    ensures
        res == spec_is_uppercase(c),
        !crate::lexer::is_ascii_char(c) ==> res == unicode_uppercase(c),
{
    c.is_uppercase()
}

/// The token at `p`, if there is one.
pub open spec fn peek(toks: Seq<SpecTok>, p: int) -> Option<SpecTok> {
    if 0 <= p < toks.len() {
        Some(toks[p])
    } else {
        None
    }
}

pub open spec fn peek_is(toks: Seq<SpecTok>, p: int, t: SpecTok) -> bool {
    peek(toks, p) == Some(t)
}

/// Consuming a token: the token at `p` and the position after it; at `Eof`
/// the position stays and the token before is returned.
pub open spec fn advance(toks: Seq<SpecTok>, p: int) -> Option<(SpecTok, int)> {
    if !(0 <= p < toks.len()) {
        None
    } else if toks[p] is Eof {
        if p == 0 {
            None
        } else {
            Some((toks[p - 1], p))
        }
    } else {
        Some((toks[p], p + 1))
    }
}

pub open spec fn bin(l: SpecExpr, op: BinaryOperator, r: SpecExpr) -> SpecExpr {
    SpecExpr::BinaryOp { left: Box::new(l), operator: op, right: Box::new(r) }
}

/// The operator that a token stands for at a precedence level
/// (0: `||`, 1: `&&`, 2: comparisons, 3: `+ -`, 4: `* / %`).
pub open spec fn level_op(level: int, t: SpecTok) -> Option<BinaryOperator> {
    if level == 0 {
        if t is OrOr { Some(BinaryOperator::Or) } else { None }
    } else if level == 1 {
        if t is AndAnd { Some(BinaryOperator::And) } else { None }
    } else if level == 2 {
        match t {
            SpecTok::EqualEqual => Some(BinaryOperator::Equal),
            SpecTok::NotEqual => Some(BinaryOperator::NotEqual),
            SpecTok::Less => Some(BinaryOperator::Less),
            SpecTok::LessEqual => Some(BinaryOperator::LessEqual),
            SpecTok::Greater => Some(BinaryOperator::Greater),
            SpecTok::GreaterEqual => Some(BinaryOperator::GreaterEqual),
            _ => None,
        }
    } else if level == 3 {
        match t {
            SpecTok::Plus => Some(BinaryOperator::Add),
            SpecTok::Minus => Some(BinaryOperator::Subtract),
            _ => None,
        }
    } else {
        match t {
            SpecTok::Star => Some(BinaryOperator::Multiply),
            SpecTok::Slash => Some(BinaryOperator::Divide),
            SpecTok::Percent => Some(BinaryOperator::Modulo),
            _ => None,
        }
    }
}

// ---------------------------------------------------------------------------
// Types
// ---------------------------------------------------------------------------

/// A type: `^T`, `String`, `Integer`, `Bool`, `Name[T, ...]` or `Name`.
pub open spec fn sp_type(toks: Seq<SpecTok>, p: int) -> Option<(SpecType, int)>
    decreases toks.len() - p, 5nat,
{
    match peek(toks, p) {
        None => None,
        Some(SpecTok::Caret) => match sp_type(toks, p + 1) {
            Some((inner, p2)) => Some((SpecType::Pointer(Box::new(inner)), p2)),
            None => None,
        },
        Some(_) => match advance(toks, p) {
            Some((SpecTok::Identifier(name), p1)) => {
                if name == "String"@ {
                    Some((SpecType::String, p1))
                } else if name == "Integer"@ {
                    Some((SpecType::Integer, p1))
                } else if name == "Bool"@ {
                    Some((SpecType::Bool, p1))
                } else if peek(toks, p1) is None {
                    None
                } else if peek_is(toks, p1, SpecTok::LeftBracket) {
                    if p < p1 + 1 <= toks.len() {
                        match sp_type_params(toks, p1 + 1, Seq::empty()) {
                            Some((params, p2)) => if peek_is(toks, p2, SpecTok::RightBracket) {
                                Some((SpecType::Generic { name, type_params: params }, p2 + 1))
                            } else {
                                None
                            },
                            None => None,
                        }
                    } else {
                        None
                    }
                } else {
                    Some((SpecType::Custom(name), p1))
                }
            },
            _ => None,
        },
    }
}

/// The parameters of a generic type, up to `]`: types separated by commas.
pub open spec fn sp_type_params(toks: Seq<SpecTok>, p: int, acc: Seq<SpecType>) -> Option<(Seq<SpecType>, int)>
    decreases toks.len() - p, 6nat,
{
    match peek(toks, p) {
        None => None,
        Some(SpecTok::RightBracket) | Some(SpecTok::Eof) => Some((acc, p)),
        Some(_) => match sp_type(toks, p) {
            Some((t, p1)) => if p < p1 <= toks.len() {
                match peek(toks, p1) {
                    Some(SpecTok::Comma) => sp_type_params(toks, p1 + 1, acc.push(t)),
                    Some(SpecTok::RightBracket) => sp_type_params(toks, p1, acc.push(t)),
                    _ => None,
                }
            } else {
                None
            },
            None => None,
        },
    }
}

// ---------------------------------------------------------------------------
// Expressions
// ---------------------------------------------------------------------------

pub open spec fn sp_expression(toks: Seq<SpecTok>, p: int) -> Option<(SpecExpr, int)>
    decreases toks.len() - p, 45nat,
{
    sp_binary(toks, p, 0)
}

/// A chain of operands of the next level joined by this level's operators,
/// grouped to the left.
pub open spec fn sp_binary(toks: Seq<SpecTok>, p: int, level: int) -> Option<(SpecExpr, int)>
    decreases toks.len() - p, (44 - 3 * level) as nat,
{
    if !(0 <= level <= 4) {
        None
    } else {
        match sp_operand(toks, p, level) {
            Some((e, p1)) => if p <= p1 <= toks.len() {
                sp_binary_rest(toks, p1, level, e)
            } else {
                None
            },
            None => None,
        }
    }
}

/// An operand at a level: the next level's chain, or a primary at the last level.
pub open spec fn sp_operand(toks: Seq<SpecTok>, p: int, level: int) -> Option<(SpecExpr, int)>
    decreases toks.len() - p, (42 - 3 * level) as nat,
{
    if !(0 <= level <= 4) {
        None
    } else if level < 4 {
        sp_binary(toks, p, level + 1)
    } else {
        sp_primary(toks, p)
    }
}

pub open spec fn sp_binary_rest(toks: Seq<SpecTok>, p: int, level: int, acc: SpecExpr) -> Option<(SpecExpr, int)>
    decreases toks.len() - p, (43 - 3 * level) as nat,
{
    if !(0 <= level <= 4) {
        None
    } else {
        match peek(toks, p) {
            None => None,
            Some(t) => match level_op(level, t) {
                Some(op) => match sp_operand(toks, p + 1, level) {
                    Some((r, p2)) => if p < p2 <= toks.len() {
                        sp_binary_rest(toks, p2, level, bin(acc, op, r))
                    } else {
                        None
                    },
                    None => None,
                },
                None => Some((acc, p)),
            },
        }
    }
}

/// A primary expression followed by field accesses, indexing and `^`.
pub open spec fn sp_primary(toks: Seq<SpecTok>, p: int) -> Option<(SpecExpr, int)>
    decreases toks.len() - p, 19nat,
{
    match sp_primary_base(toks, p) {
        Some((e, p1)) => if p <= p1 <= toks.len() {
            sp_postfix(toks, p1, e)
        } else {
            None
        },
        None => None,
    }
}

pub open spec fn sp_postfix(toks: Seq<SpecTok>, p: int, acc: SpecExpr) -> Option<(SpecExpr, int)>
    decreases toks.len() - p, 18nat,
{
    match peek(toks, p) {
        None => None,
        Some(SpecTok::Dot) => match advance(toks, p + 1) {
            Some((SpecTok::Identifier(field), p2)) => if p < p2 <= toks.len() {
                sp_postfix(toks, p2, SpecExpr::FieldAccess { object: Box::new(acc), field })
            } else {
                None
            },
            _ => None,
        },
        Some(SpecTok::LeftBracket) => match sp_expression(toks, p + 1) {
            Some((index, p2)) => if p < p2 && peek_is(toks, p2, SpecTok::RightBracket) {
                sp_postfix(
                    toks,
                    p2 + 1,
                    SpecExpr::ArrayAccess { array: Box::new(acc), index: Box::new(index) },
                )
            } else {
                None
            },
            None => None,
        },
        Some(SpecTok::Caret) => sp_postfix(toks, p + 1, SpecExpr::Dereference { operand: Box::new(acc) }),
        Some(_) => Some((acc, p)),
    }
}

/// Expressions separated by optional commas, up to `)` (`paren`) or `]`.
pub open spec fn sp_expr_list(toks: Seq<SpecTok>, p: int, acc: Seq<SpecExpr>, paren: bool) -> Option<(Seq<SpecExpr>, int)>
    decreases toks.len() - p, 46nat,
{
    match peek(toks, p) {
        None => None,
        Some(t) => if (paren && t is RightParen) || (!paren && t is RightBracket) || t is Eof {
            Some((acc, p))
        } else {
            match sp_expression(toks, p) {
                Some((e, p1)) => if p < p1 <= toks.len() {
                    match peek(toks, p1) {
                        Some(SpecTok::Comma) => sp_expr_list(toks, p1 + 1, acc.push(e), paren),
                        Some(_) => sp_expr_list(toks, p1, acc.push(e), paren),
                        None => None,
                    }
                } else {
                    None
                },
                None => None,
            }
        },
    }
}

/// Type arguments of a generic constructor, up to `]`, commas optional.
pub open spec fn sp_type_args(toks: Seq<SpecTok>, p: int, acc: Seq<SpecType>) -> Option<(Seq<SpecType>, int)>
    decreases toks.len() - p, 16nat,
{
    match peek(toks, p) {
        None => None,
        Some(SpecTok::RightBracket) | Some(SpecTok::Eof) => Some((acc, p)),
        Some(_) => match sp_type(toks, p) {
            Some((t, p1)) => if p < p1 <= toks.len() {
                match peek(toks, p1) {
                    Some(SpecTok::Comma) => sp_type_args(toks, p1 + 1, acc.push(t)),
                    Some(_) => sp_type_args(toks, p1, acc.push(t)),
                    None => None,
                }
            } else {
                None
            },
            None => None,
        },
    }
}

/// `name: value` pairs of a struct literal up to `}`, newlines skipped, commas optional.
pub open spec fn sp_struct_fields(toks: Seq<SpecTok>, p: int, acc: Seq<(Seq<char>, SpecExpr)>) -> Option<(Seq<(Seq<char>, SpecExpr)>, int)>
    decreases toks.len() - p, 16nat,
{
    match peek(toks, p) {
        None => None,
        Some(SpecTok::RightBrace) | Some(SpecTok::Eof) => Some((acc, p)),
        Some(SpecTok::Newline) => sp_struct_fields(toks, p + 1, acc),
        Some(SpecTok::Identifier(name)) => if peek_is(toks, p + 1, SpecTok::Colon) {
            match sp_expression(toks, p + 2) {
                Some((v, p2)) => if p < p2 <= toks.len() {
                    match peek(toks, p2) {
                        Some(SpecTok::Comma) => sp_struct_fields(toks, p2 + 1, acc.push((name, v))),
                        Some(_) => sp_struct_fields(toks, p2, acc.push((name, v))),
                        None => None,
                    }
                } else {
                    None
                },
                None => None,
            }
        } else {
            None
        },
        Some(_) => None,
    }
}

/// Whether an identifier's text starts with an uppercase letter.
pub open spec fn starts_uppercase(n: Seq<char>) -> bool {
    n.len() > 0 && spec_is_uppercase(n[0])
}

/// An identifier followed by `[` at `p`: a generic struct literal or type
/// reference when an uppercase name follows, the identifier alone otherwise.
pub open spec fn sp_bracket_after(toks: Seq<SpecTok>, name: Seq<char>, p: int) -> Option<(SpecExpr, int)>
    decreases toks.len() - p, 16nat,
{
    let is_generic = match peek(toks, p + 1) {
        Some(SpecTok::Identifier(n)) => starts_uppercase(n),
        _ => false,
    };
    if !is_generic {
        if peek(toks, p + 1) is Some {
            Some((SpecExpr::Identifier(name), p))
        } else {
            None
        }
    } else {
        match sp_type_args(toks, p + 1, Seq::empty()) {
            Some((args, p3)) => if p < p3 && peek_is(toks, p3, SpecTok::RightBracket) {
                match peek(toks, p3 + 1) {
                    Some(SpecTok::LeftBrace) => match sp_struct_fields(toks, p3 + 2, Seq::empty()) {
                        Some((fields, p5)) => if peek_is(toks, p5, SpecTok::RightBrace) {
                            Some((
                                SpecExpr::StructLiteral {
                                    struct_name: name,
                                    type_args: Some(args),
                                    fields,
                                },
                                p5 + 1,
                            ))
                        } else {
                            None
                        },
                        None => None,
                    },
                    Some(_) => Some((SpecExpr::Identifier(name), p3 + 1)),
                    None => None,
                }
            } else {
                None
            },
            None => None,
        }
    }
}

/// Call arguments `( ... )` starting at the `(`: the arguments and the
/// position after the `)`.
pub open spec fn sp_call_args(toks: Seq<SpecTok>, p: int) -> Option<(Seq<SpecExpr>, int)>
    decreases toks.len() - p, 15nat,
{
    if !(0 <= p < toks.len()) {
        None
    } else {
        match sp_expr_list(toks, p + 1, Seq::empty(), true) {
            Some((args, p3)) => if peek_is(toks, p3, SpecTok::RightParen) {
                Some((args, p3 + 1))
            } else {
                None
            },
            None => None,
        }
    }
}

/// Struct literal fields `{ ... }` starting at the `{`: the fields and the
/// position after the `}`.
pub open spec fn sp_braced_fields(toks: Seq<SpecTok>, p: int) -> Option<(Seq<(Seq<char>, SpecExpr)>, int)>
    decreases toks.len() - p, 15nat,
{
    if !(0 <= p < toks.len()) {
        None
    } else {
        match sp_struct_fields(toks, p + 1, Seq::empty()) {
            Some((fields, p3)) => if peek_is(toks, p3, SpecTok::RightBrace) {
                Some((fields, p3 + 1))
            } else {
                None
            },
            None => None,
        }
    }
}

/// An identifier followed by `.` at `p`: a namespaced call `name.f(...)` or
/// a field access `name.f`.
pub open spec fn sp_dot_after(toks: Seq<SpecTok>, name: Seq<char>, p: int) -> Option<(SpecExpr, int)>
    decreases toks.len() - p, 16nat,
{
    match advance(toks, p + 1) {
        Some((SpecTok::Identifier(function), p3)) => match peek(toks, p3) {
            Some(SpecTok::LeftParen) => if p < p3 {
                match sp_call_args(toks, p3) {
                    Some((args, p4)) => Some((SpecExpr::NamespacedFunctionCall { namespace: name, function, args }, p4)),
                    None => None,
                }
            } else {
                None
            },
            Some(_) => Some((
                SpecExpr::FieldAccess { object: Box::new(SpecExpr::Identifier(name)), field: function },
                p3,
            )),
            None => None,
        },
        _ => None,
    }
}

/// What follows an identifier at `p` (the position after it).
pub open spec fn sp_after_identifier(toks: Seq<SpecTok>, name: Seq<char>, p: int) -> Option<(SpecExpr, int)>
    decreases toks.len() - p, 17nat,
{
    match peek(toks, p) {
        None => None,
        Some(SpecTok::LeftBracket) => sp_bracket_after(toks, name, p),
        Some(SpecTok::LeftParen) => match sp_call_args(toks, p) {
            Some((args, p3)) => Some((SpecExpr::FunctionCall { name, args }, p3)),
            None => None,
        },
        Some(SpecTok::Dot) => sp_dot_after(toks, name, p),
        Some(SpecTok::LeftBrace) => match sp_braced_fields(toks, p) {
            Some((fields, p3)) => Some((SpecExpr::StructLiteral { struct_name: name, type_args: None, fields }, p3)),
            None => None,
        },
        Some(_) => Some((SpecExpr::Identifier(name), p)),
    }
}

pub open spec fn sp_primary_base(toks: Seq<SpecTok>, p: int) -> Option<(SpecExpr, int)>
    decreases toks.len() - p, 18nat,
{
    match peek(toks, p) {
        None => None,
        Some(SpecTok::Bang) => match sp_primary(toks, p + 1) {
            Some((o, p2)) => Some((SpecExpr::UnaryOp { operator: UnaryOperator::Not, operand: Box::new(o) }, p2)),
            None => None,
        },
        Some(SpecTok::Ampersand) => match sp_primary(toks, p + 1) {
            Some((o, p2)) => Some((SpecExpr::AddressOf { operand: Box::new(o) }, p2)),
            None => None,
        },
        Some(SpecTok::String(v)) => Some((SpecExpr::StringLiteral(v), p + 1)),
        Some(SpecTok::Integer(n)) => Some((SpecExpr::IntegerLiteral(n), p + 1)),
        Some(SpecTok::Identifier(name)) => sp_after_identifier(toks, name, p + 1),
        Some(SpecTok::True) => Some((SpecExpr::BoolLiteral(true), p + 1)),
        Some(SpecTok::False) => Some((SpecExpr::BoolLiteral(false), p + 1)),
        Some(SpecTok::LeftBracket) => match sp_expr_list(toks, p + 1, Seq::empty(), false) {
            Some((elems, p2)) => if peek_is(toks, p2, SpecTok::RightBracket) {
                Some((SpecExpr::ArrayLiteral(elems), p2 + 1))
            } else {
                None
            },
            None => None,
        },
        Some(SpecTok::LeftParen) => match sp_expression(toks, p + 1) {
            Some((e, p2)) => if peek_is(toks, p2, SpecTok::RightParen) {
                Some((e, p2 + 1))
            } else {
                None
            },
            None => None,
        },
        Some(_) => None,
    }
}

// ---------------------------------------------------------------------------
// Statements
// ---------------------------------------------------------------------------

/// The position and symbol table after a statement.
pub struct PState {
    pub pos: int,
    pub st: SpecSymbolTable,
}

/// Declaring a symbol while parsing: `None` when the id counter would
/// overflow or the current scope already has the name.
pub open spec fn sp_declare(st: SpecSymbolTable, name: Seq<char>, sym: SpecSymbol) -> Option<SpecSymbolTable> {
    if st.next_symbol_id == usize::MAX {
        None
    } else {
        let (st2, r) = spec_declare(st, name, sym);
        if r is Some {
            Some(st2)
        } else {
            None
        }
    }
}

/// The symbol that a declaration adds to the current scope.
pub open spec fn new_symbol(st: SpecSymbolTable, name: Seq<char>, symbol_type: SpecType, kind: SpecSymbolKind) -> SpecSymbol {
    SpecSymbol { name, symbol_type, kind, scope_id: st.current_scope, declared_at: None, used: false }
}

/// The type placeholder given to a variable declared without a type.
pub open spec fn inferred_type() -> SpecType {
    SpecType::Custom("inferred"@)
}

/// `var name := e`, `var name: T = e` (and the same with `val`): the variable
/// is declared in the current scope, mutable for `var`.
#[verifier::opaque]
pub open spec fn sp_var_decl(toks: Seq<SpecTok>, p: int, st: SpecSymbolTable, mutable: bool) -> Option<(SpecStmt, PState)>
    decreases toks.len() - p, 55nat,
{
    match advance(toks, p + 1) {
        Some((SpecTok::Identifier(name), p2)) => {
            let parsed: Option<(Option<SpecType>, SpecExpr, int)> = match peek(toks, p2) {
                Some(SpecTok::Colon) => match sp_type(toks, p2 + 1) {
                    Some((t, p3)) => if peek_is(toks, p3, SpecTok::Equal) {
                        match sp_expression(toks, p3 + 1) {
                            Some((v, p4)) => Some((Some(t), v, p4)),
                            None => None,
                        }
                    } else {
                        None
                    },
                    None => None,
                },
                Some(SpecTok::ColonEqual) => match sp_expression(toks, p2 + 1) {
                    Some((v, p4)) => Some((None, v, p4)),
                    None => None,
                },
                _ => None,
            };
            match parsed {
                Some((ann, v, p4)) => {
                    let var_type = match ann {
                        Some(t) => t,
                        None => inferred_type(),
                    };
                    let sym = new_symbol(st, name, var_type, SpecSymbolKind::Variable { mutable, initialized: false });
                    match sp_declare(st, name, sym) {
                        Some(st2) => {
                            let stmt = if mutable {
                                SpecStmt::VarDecl { name, type_annotation: ann, value: v }
                            } else {
                                SpecStmt::ValDecl { name, type_annotation: ann, value: v }
                            };
                            Some((stmt, PState { pos: p4, st: st2 }))
                        },
                        None => None,
                    }
                },
                None => None,
            }
        },
        _ => None,
    }
}

/// Names of a generic type definition's parameters up to `]`.
pub open spec fn sp_def_params(toks: Seq<SpecTok>, p: int, acc: Seq<Seq<char>>) -> Option<(Seq<Seq<char>>, int)>
    decreases toks.len() - p, 54nat,
{
    match peek(toks, p) {
        None => None,
        Some(SpecTok::RightBracket) | Some(SpecTok::Eof) => Some((acc, p)),
        Some(SpecTok::Identifier(n)) => match peek(toks, p + 1) {
            Some(SpecTok::Comma) => sp_def_params(toks, p + 2, acc.push(n)),
            Some(SpecTok::RightBracket) => sp_def_params(toks, p + 1, acc.push(n)),
            _ => None,
        },
        Some(_) => None,
    }
}

/// `name: Type` fields of a type definition up to `}`, newlines skipped, commas optional.
pub open spec fn sp_def_fields(toks: Seq<SpecTok>, p: int, acc: Seq<(Seq<char>, SpecType)>) -> Option<(Seq<(Seq<char>, SpecType)>, int)>
    decreases toks.len() - p, 54nat,
{
    match peek(toks, p) {
        None => None,
        Some(SpecTok::RightBrace) | Some(SpecTok::Eof) => Some((acc, p)),
        Some(SpecTok::Newline) => sp_def_fields(toks, p + 1, acc),
        Some(SpecTok::Identifier(name)) => if peek_is(toks, p + 1, SpecTok::Colon) {
            match sp_type(toks, p + 2) {
                Some((t, p2)) => if p < p2 <= toks.len() {
                    match peek(toks, p2) {
                        Some(SpecTok::Comma) => sp_def_fields(toks, p2 + 1, acc.push((name, t))),
                        Some(_) => sp_def_fields(toks, p2, acc.push((name, t))),
                        None => None,
                    }
                } else {
                    None
                },
                None => None,
            }
        } else {
            None
        },
        Some(_) => None,
    }
}

/// `type Name[T, ...] = { field: Type, ... }`.
#[verifier::opaque]
pub open spec fn sp_type_def(toks: Seq<SpecTok>, p: int) -> Option<(SpecStmt, int)> {
    match advance(toks, p + 1) {
        Some((SpecTok::Identifier(name), p2)) => {
            let params: Option<(Seq<Seq<char>>, int)> = if peek_is(toks, p2, SpecTok::LeftBracket) {
                if p < p2 {
                    match sp_def_params(toks, p2 + 1, Seq::empty()) {
                        Some((ps, p3)) => if peek_is(toks, p3, SpecTok::RightBracket) {
                            Some((ps, p3 + 1))
                        } else {
                            None
                        },
                        None => None,
                    }
                } else {
                    None
                }
            } else {
                Some((Seq::empty(), p2))
            };
            match params {
                Some((ps, p4)) => if p < p4 {
                    sp_type_def_rest(toks, p4, name, ps)
                } else {
                    None
                },
                None => None,
            }
        },
        _ => None,
    }
}

/// The `= { field: Type, ... }` part of a type definition.
pub open spec fn sp_type_def_rest(toks: Seq<SpecTok>, p: int, name: Seq<char>, type_params: Seq<Seq<char>>) -> Option<(SpecStmt, int)> {
    if peek_is(toks, p, SpecTok::Equal) && peek_is(toks, p + 1, SpecTok::LeftBrace) {
        match sp_def_fields(toks, p + 2, Seq::empty()) {
            Some((fields, p2)) => if peek_is(toks, p2, SpecTok::RightBrace) {
                Some((SpecStmt::TypeDef { name, type_params, fields }, p2 + 1))
            } else {
                None
            },
            None => None,
        }
    } else {
        None
    }
}

/// Statements up to `}` (or the end), newlines skipped.
pub open spec fn sp_body(toks: Seq<SpecTok>, p: int, st: SpecSymbolTable, acc: Seq<SpecStmt>) -> Option<(Seq<SpecStmt>, PState)>
    decreases toks.len() - p, 61nat,
{
    match peek(toks, p) {
        None => None,
        Some(SpecTok::RightBrace) | Some(SpecTok::Eof) => Some((acc, PState { pos: p, st })),
        Some(SpecTok::Newline) => sp_body(toks, p + 1, st, acc),
        Some(_) => match sp_statement(toks, p, st) {
            Some((s, ps)) => if p < ps.pos <= toks.len() {
                sp_body(toks, ps.pos, ps.st, acc.push(s))
            } else {
                None
            },
            None => None,
        },
    }
}

/// `{ statements }` starting at the `{`.
pub open spec fn sp_block(toks: Seq<SpecTok>, p: int, st: SpecSymbolTable) -> Option<(Seq<SpecStmt>, PState)>
    decreases toks.len() - p, 62nat,
{
    if peek_is(toks, p, SpecTok::LeftBrace) {
        match sp_body(toks, p + 1, st, Seq::empty()) {
            Some((body, ps)) => if peek_is(toks, ps.pos, SpecTok::RightBrace) {
                Some((body, PState { pos: ps.pos + 1, st: ps.st }))
            } else {
                None
            },
            None => None,
        }
    } else {
        None
    }
}

/// `if cond { ... }` (a condition in parentheses is an expression too) with
/// an optional `else { ... }` or `else if ...`.
#[verifier::opaque]
pub open spec fn sp_if(toks: Seq<SpecTok>, p: int, st: SpecSymbolTable) -> Option<(SpecStmt, PState)>
    decreases toks.len() - p, 55nat,
{
    match sp_expression(toks, p + 1) {
        Some((cond, p2)) => if p < p2 <= toks.len() {
            match sp_block(toks, p2, st) {
                Some((then_body, ps)) => if p < ps.pos <= toks.len() {
                    match peek(toks, ps.pos) {
                        Some(SpecTok::Else) => match peek(toks, ps.pos + 1) {
                            Some(SpecTok::If) => match sp_if(toks, ps.pos + 1, ps.st) {
                                Some((s, ps2)) => Some((
                                    SpecStmt::If { condition: cond, then_body, else_body: Some(seq![s]) },
                                    ps2,
                                )),
                                None => None,
                            },
                            Some(SpecTok::LeftBrace) => match sp_block(toks, ps.pos + 1, ps.st) {
                                Some((else_body, ps2)) => Some((
                                    SpecStmt::If { condition: cond, then_body, else_body: Some(else_body) },
                                    ps2,
                                )),
                                None => None,
                            },
                            _ => None,
                        },
                        Some(_) => Some((SpecStmt::If { condition: cond, then_body, else_body: None }, ps)),
                        None => None,
                    }
                } else {
                    None
                },
                None => None,
            }
        } else {
            None
        },
        None => None,
    }
}

/// Whether a `;` comes before the `)` that closes an already open `(`:
/// `None` when the nesting counter (an `i32`) would overflow.
pub open spec fn scan_semicolon(toks: Seq<SpecTok>, i: int, depth: int) -> Option<bool>
    decreases toks.len() - i,
{
    if i >= toks.len() || depth <= 0 || i < 0 {
        Some(false)
    } else {
        let t = toks[i];
        if t is LeftParen && depth == i32::MAX {
            None
        } else {
            let d2 = if t is LeftParen {
                depth + 1
            } else if t is RightParen {
                depth - 1
            } else {
                depth
            };
            match scan_semicolon(toks, i + 1, d2) {
                Some(b) => Some(b || t is Semicolon),
                None => None,
            }
        }
    }
}

/// The iterable of a `for ... in`: an identifier, an array literal, or an expression.
pub open spec fn sp_for_iterable(toks: Seq<SpecTok>, p: int) -> Option<(SpecExpr, int)>
    decreases toks.len() - p, 47nat,
{
    match peek(toks, p) {
        None => None,
        Some(SpecTok::Identifier(n)) => Some((SpecExpr::Identifier(n), p + 1)),
        Some(SpecTok::LeftBracket) => match sp_expr_list(toks, p + 1, Seq::empty(), false) {
            Some((elems, p2)) => if peek_is(toks, p2, SpecTok::RightBracket) {
                Some((SpecExpr::ArrayLiteral(elems), p2 + 1))
            } else {
                None
            },
            None => None,
        },
        Some(_) => sp_binary(toks, p, 0),
    }
}

/// `for { ... }`, `for (cond) { ... }` or `for x in iterable { ... }`; a
/// C-style `for (init; cond; update)` is not supported.
#[verifier::opaque]
pub open spec fn sp_for(toks: Seq<SpecTok>, p: int, st: SpecSymbolTable) -> Option<(SpecStmt, PState)>
    decreases toks.len() - p, 55nat,
{
    match peek(toks, p + 1) {
        Some(SpecTok::LeftBrace) => match sp_block(toks, p + 1, st) {
            Some((body, ps)) => Some((SpecStmt::ForCondition { condition: SpecExpr::BoolLiteral(true), body }, ps)),
            None => None,
        },
        Some(SpecTok::LeftParen) => match scan_semicolon(toks, p + 2, 1) {
            Some(false) => match sp_expression(toks, p + 2) {
                Some((cond, p3)) => if p < p3 && peek_is(toks, p3, SpecTok::RightParen) {
                    match sp_block(toks, p3 + 1, st) {
                        Some((body, ps)) => Some((SpecStmt::ForCondition { condition: cond, body }, ps)),
                        None => None,
                    }
                } else {
                    None
                },
                None => None,
            },
            _ => None,
        },
        Some(SpecTok::Identifier(variable)) => if peek_is(toks, p + 2, SpecTok::In) {
            match sp_for_iterable(toks, p + 3) {
                Some((iterable, p4)) => if p < p4 <= toks.len() {
                    match sp_block(toks, p4, st) {
                        Some((body, ps)) => Some((SpecStmt::ForIn { variable, iterable, body }, ps)),
                        None => None,
                    }
                } else {
                    None
                },
                None => None,
            }
        } else {
            None
        },
        _ => None,
    }
}

/// `name: Type` parameters up to `)`, commas optional.
pub open spec fn sp_params(toks: Seq<SpecTok>, p: int, acc: Seq<(Seq<char>, SpecType)>) -> Option<(Seq<(Seq<char>, SpecType)>, int)>
    decreases toks.len() - p, 54nat,
{
    match peek(toks, p) {
        None => None,
        Some(SpecTok::RightParen) | Some(SpecTok::Eof) => Some((acc, p)),
        Some(SpecTok::Identifier(name)) => if peek_is(toks, p + 1, SpecTok::Colon) {
            match sp_type(toks, p + 2) {
                Some((t, p2)) => if p < p2 <= toks.len() {
                    match peek(toks, p2) {
                        Some(SpecTok::Comma) => sp_params(toks, p2 + 1, acc.push((name, t))),
                        Some(_) => sp_params(toks, p2, acc.push((name, t))),
                        None => None,
                    }
                } else {
                    None
                },
                None => None,
            }
        } else {
            None
        },
        Some(_) => None,
    }
}

/// The types of a parameter list.
pub open spec fn param_types(params: Seq<(Seq<char>, SpecType)>) -> Seq<SpecType> {
    Seq::new(params.len(), |i: int| params[i].1)
}

/// Declaring parameters `i..` in order in the current scope.
pub open spec fn sp_declare_params(st: SpecSymbolTable, params: Seq<(Seq<char>, SpecType)>, i: int) -> Option<SpecSymbolTable>
    decreases params.len() - i,
{
    if i >= params.len() || i < 0 {
        Some(st)
    } else {
        let (n, t) = params[i];
        match sp_declare(st, n, new_symbol(st, n, t, SpecSymbolKind::Parameter)) {
            Some(st2) => sp_declare_params(st2, params, i + 1),
            None => None,
        }
    }
}

/// The signature part of `fun name(params): Ret`: the name, the parameters,
/// the return type and the position after them.
#[verifier::opaque]
pub open spec fn sp_fn_header(toks: Seq<SpecTok>, p: int) -> Option<(Seq<char>, Seq<(Seq<char>, SpecType)>, Option<SpecType>, int)> {
    match advance(toks, p + 1) {
        Some((SpecTok::Identifier(name), p2)) => if p < p2 && peek_is(toks, p2, SpecTok::LeftParen) {
            match sp_params(toks, p2 + 1, Seq::empty()) {
                Some((params, p3)) => if peek_is(toks, p3, SpecTok::RightParen) {
                    if peek_is(toks, p3 + 1, SpecTok::Colon) {
                        match sp_type(toks, p3 + 2) {
                            Some((t, p5)) => Some((name, params, Some(t), p5)),
                            None => None,
                        }
                    } else if peek(toks, p3 + 1) is Some {
                        Some((name, params, None, p3 + 1))
                    } else {
                        None
                    }
                } else {
                    None
                },
                None => None,
            }
        } else {
            None
        },
        _ => None,
    }
}

/// `fun name(params): Ret { body }`: the function is declared in the current
/// scope, its body parsed in a new function scope holding its parameters,
/// and that scope left afterwards.
#[verifier::opaque]
pub open spec fn sp_function(toks: Seq<SpecTok>, p: int, st: SpecSymbolTable, exported: bool) -> Option<(SpecStmt, PState)>
    decreases toks.len() - p, 55nat,
{
    match sp_fn_header(toks, p) {
        Some((name, params, return_type, p5)) => if p < p5 <= toks.len() {
            let fsym = new_symbol(
                st,
                name,
                SpecType::Custom("function"@),
                SpecSymbolKind::Function { params: param_types(params), return_type },
            );
            match sp_declare(st, name, fsym) {
                Some(st1) => if st1.next_scope_id == usize::MAX {
                    None
                } else {
                    let st2 = spec_enter_scope(st1, SpecScopeKind::Function { name });
                    match sp_declare_params(st2, params, 0) {
                        Some(st3) => match sp_block(toks, p5, st3) {
                            Some((body, ps)) => {
                                let (st5, r) = spec_exit_scope(ps.st);
                                if r is Ok {
                                    Some((
                                        SpecStmt::Function { name, params, return_type, body, exported },
                                        PState { pos: ps.pos, st: st5 },
                                    ))
                                } else {
                                    None
                                }
                            },
                            None => None,
                        },
                        None => None,
                    }
                },
                None => None,
            }
        } else {
            None
        },
        None => None,
    }
}

/// `return` with an optional value (none before a newline, `}` or the end).
#[verifier::opaque]
pub open spec fn sp_return(toks: Seq<SpecTok>, p: int) -> Option<(SpecStmt, int)>
    decreases toks.len() - p, 55nat,
{
    match peek(toks, p + 1) {
        None => None,
        Some(SpecTok::Newline) | Some(SpecTok::RightBrace) | Some(SpecTok::Eof) => Some((SpecStmt::Return(None), p + 1)),
        Some(_) => match sp_expression(toks, p + 1) {
            Some((e, p2)) => Some((SpecStmt::Return(Some(e)), p2)),
            None => None,
        },
    }
}

/// Names of a selective import up to `}`, commas optional.
pub open spec fn sp_import_items(toks: Seq<SpecTok>, p: int, acc: Seq<Seq<char>>) -> Option<(Seq<Seq<char>>, int)>
    decreases toks.len() - p, 54nat,
{
    match peek(toks, p) {
        None => None,
        Some(SpecTok::RightBrace) | Some(SpecTok::Eof) => Some((acc, p)),
        Some(SpecTok::Identifier(n)) => match peek(toks, p + 1) {
            Some(SpecTok::Comma) => sp_import_items(toks, p + 2, acc.push(n)),
            Some(_) => sp_import_items(toks, p + 1, acc.push(n)),
            None => None,
        },
        Some(_) => None,
    }
}

/// `import { a, b } from "path"` or `import name from "path"`.
#[verifier::opaque]
pub open spec fn sp_import(toks: Seq<SpecTok>, p: int) -> Option<(SpecStmt, int)>
    decreases toks.len() - p, 55nat,
{
    if peek_is(toks, p + 1, SpecTok::LeftBrace) {
        match sp_import_items(toks, p + 2, Seq::empty()) {
            Some((items, p2)) => if peek_is(toks, p2, SpecTok::RightBrace) && peek_is(toks, p2 + 1, SpecTok::From) {
                match advance(toks, p2 + 2) {
                    Some((SpecTok::String(path), p5)) => Some((
                        SpecStmt::Import { module_name: None, source_path: path, items: Some(items) },
                        p5,
                    )),
                    _ => None,
                }
            } else {
                None
            },
            None => None,
        }
    } else {
        match advance(toks, p + 1) {
            Some((SpecTok::Identifier(m), p2)) => if peek_is(toks, p2, SpecTok::From) {
                match advance(toks, p2 + 1) {
                    Some((SpecTok::String(path), p4)) => Some((
                        SpecStmt::Import { module_name: Some(m), source_path: path, items: None },
                        p4,
                    )),
                    _ => None,
                }
            } else {
                None
            },
            _ => None,
        }
    }
}

/// `export fun ...` or `export name`.
#[verifier::opaque]
pub open spec fn sp_export(toks: Seq<SpecTok>, p: int, st: SpecSymbolTable) -> Option<(SpecStmt, PState)>
    decreases toks.len() - p, 56nat,
{
    match peek(toks, p + 1) {
        Some(SpecTok::Fun) => sp_function(toks, p + 1, st, true),
        Some(SpecTok::Identifier(item)) => Some((SpecStmt::Export { item }, PState { pos: p + 2, st })),
        _ => None,
    }
}

/// Parameters of a native function up to `)`, separated by commas.
pub open spec fn sp_native_params(toks: Seq<SpecTok>, p: int, acc: Seq<(Seq<char>, SpecType)>) -> Option<(Seq<(Seq<char>, SpecType)>, int)>
    decreases toks.len() - p, 53nat,
{
    match peek(toks, p) {
        None => None,
        Some(SpecTok::RightParen) => Some((acc, p)),
        Some(_) => {
            let q: Option<int> = if acc.len() > 0 {
                match advance(toks, p) {
                    Some((SpecTok::Comma, q)) => Some(q),
                    _ => None,
                }
            } else {
                Some(p)
            };
            match q {
                Some(q) => match advance(toks, q) {
                    Some((SpecTok::Identifier(name), q1)) => match advance(toks, q1) {
                        Some((SpecTok::Colon, q2)) => match sp_type(toks, q2) {
                            Some((t, q3)) => if p < q3 <= toks.len() {
                                sp_native_params(toks, q3, acc.push((name, t)))
                            } else {
                                None
                            },
                            None => None,
                        },
                        _ => None,
                    },
                    _ => None,
                },
                None => None,
            }
        },
    }
}

/// One signature `fun name(params): Ret` of a native block, starting at `fun`.
pub open spec fn sp_native_sig(toks: Seq<SpecTok>, q: int, exported: bool) -> Option<(SpecSignature, int)> {
    match advance(toks, q + 1) {
        Some((SpecTok::Identifier(name), q2)) => match advance(toks, q2) {
            Some((SpecTok::LeftParen, q3)) => match sp_native_params(toks, q3, Seq::empty()) {
                Some((params, q4)) => {
                    let q5 = q4 + 1;
                    let ret: Option<(Option<SpecType>, int)> = if peek_is(toks, q5, SpecTok::Colon) {
                        match sp_type(toks, q5 + 1) {
                            Some((rt, q6)) => Some((Some(rt), q6)),
                            None => None,
                        }
                    } else if peek(toks, q5) is Some {
                        Some((None, q5))
                    } else {
                        None
                    };
                    match ret {
                        Some((return_type, q6)) => Some((
                            SpecSignature { name, params, return_type, exported, library: None },
                            q6,
                        )),
                        None => None,
                    }
                },
                None => None,
            },
            _ => None,
        },
        _ => None,
    }
}

/// Function signatures of a native block up to `}`.
pub open spec fn sp_native_fns(toks: Seq<SpecTok>, p: int, acc: Seq<SpecSignature>) -> Option<(Seq<SpecSignature>, int)>
    decreases toks.len() - p, 54nat,
{
    match peek(toks, p) {
        None => None,
        Some(SpecTok::RightBrace) => Some((acc, p)),
        Some(SpecTok::Eof) => None,
        Some(SpecTok::Newline) => sp_native_fns(toks, p + 1, acc),
        Some(t) => {
            let (exported, q) = if t is Export { (true, p + 1) } else { (false, p) };
            if !peek_is(toks, q, SpecTok::Fun) {
                None
            } else {
                match sp_native_sig(toks, q, exported) {
                    Some((sig, q6)) => if p < q6 <= toks.len() {
                        sp_native_fns(toks, q6, acc.push(sig))
                    } else {
                        None
                    },
                    None => None,
                }
            }
        },
    }
}

/// `native "language" { fun ...; ... }`.
#[verifier::opaque]
pub open spec fn sp_native_block(toks: Seq<SpecTok>, p: int) -> Option<(SpecStmt, int)>
    decreases toks.len() - p, 55nat,
{
    match advance(toks, p + 1) {
        Some((SpecTok::String(language), p2)) => match advance(toks, p2) {
            Some((SpecTok::LeftBrace, p3)) => if p < p3 {
                match sp_native_fns(toks, p3, Seq::empty()) {
                    Some((functions, p4)) => match advance(toks, p4) {
                        Some((SpecTok::RightBrace, p5)) => Some((SpecStmt::NativeBlock { language, functions }, p5)),
                        _ => None,
                    },
                    None => None,
                }
            } else {
                None
            },
            _ => None,
        },
        _ => None,
    }
}

/// A statement that leaves the symbol table as it is.
pub open spec fn keep_table(r: Option<(SpecStmt, int)>, st: SpecSymbolTable) -> Option<(SpecStmt, PState)> {
    match r {
        Some((s, p2)) => Some((s, PState { pos: p2, st })),
        None => None,
    }
}

/// One statement.
pub open spec fn sp_statement(toks: Seq<SpecTok>, p: int, st: SpecSymbolTable) -> Option<(SpecStmt, PState)>
    decreases toks.len() - p, 60nat,
{
    match peek(toks, p) {
        None => None,
        Some(SpecTok::Var) => sp_var_decl(toks, p, st, true),
        Some(SpecTok::Val) => sp_var_decl(toks, p, st, false),
        Some(SpecTok::Type) => keep_table(sp_type_def(toks, p), st),
        Some(SpecTok::If) => sp_if(toks, p, st),
        Some(SpecTok::For) => sp_for(toks, p, st),
        Some(SpecTok::Fun) => sp_function(toks, p, st, false),
        Some(SpecTok::Return) => keep_table(sp_return(toks, p), st),
        Some(SpecTok::Import) => keep_table(sp_import(toks, p), st),
        Some(SpecTok::Export) => sp_export(toks, p, st),
        Some(SpecTok::Native) => keep_table(sp_native_block(toks, p), st),
        Some(SpecTok::Identifier(name)) => if peek_is(toks, p + 1, SpecTok::Equal) {
            match sp_expression(toks, p + 2) {
                Some((v, p3)) => Some((SpecStmt::Assignment { variable: name, value: v }, PState { pos: p3, st })),
                None => None,
            }
        } else {
            match sp_expression(toks, p) {
                Some((e, p3)) => Some((SpecStmt::Expression(e), PState { pos: p3, st })),
                None => None,
            }
        },
        Some(_) => match sp_expression(toks, p) {
            Some((e, p3)) => Some((SpecStmt::Expression(e), PState { pos: p3, st })),
            None => None,
        },
    }
}

/// Statements up to `Eof`, newlines skipped.
pub open spec fn sp_program(toks: Seq<SpecTok>, p: int, st: SpecSymbolTable, acc: Seq<SpecStmt>) -> Option<(Seq<SpecStmt>, PState)>
    decreases toks.len() - p, 70nat,
{
    match peek(toks, p) {
        None => None,
        Some(SpecTok::Eof) => Some((acc, PState { pos: p, st })),
        Some(SpecTok::Newline) => sp_program(toks, p + 1, st, acc),
        Some(_) => match sp_statement(toks, p, st) {
            Some((s, ps)) => if p < ps.pos <= toks.len() {
                sp_program(toks, ps.pos, ps.st, acc.push(s))
            } else {
                None
            },
            None => None,
        },
    }
}

} // verus!
