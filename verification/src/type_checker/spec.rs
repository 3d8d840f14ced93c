//! What checking a program finds: the types inferred for expressions, the
//! variables recorded, and the errors reported, in order.
use vstd::prelude::*;
use crate::ast::{BinaryOperator, SpecExpr, SpecSignature, SpecStmt, SpecType, UnaryOperator};
use crate::name_map::{assoc_get, assoc_insert};
use crate::text::nat_decimal;

verus! {

/// What std's `Debug` formatting gives for a string: the string in double
/// quotes, with the characters that need it escaped.
pub uninterp spec fn str_debug_text(s: Seq<char>) -> Seq<char>;

/// The `Debug` text of a type, as its derived formatting writes it:
/// `Integer`, `Array(String)`, `Custom("Point")`,
/// `Generic { name: "Box", type_params: [Integer] }`, ...
#[verifier::opaque]
pub open spec fn type_debug_text(t: SpecType) -> Seq<char>
    decreases t, 1nat,
{
    match t {
        SpecType::String => "String"@,
        SpecType::Integer => "Integer"@,
        SpecType::Bool => "Bool"@,
        SpecType::Array(inner) => "Array("@ + type_debug_text(*inner) + ")"@,
        SpecType::Pointer(inner) => "Pointer("@ + type_debug_text(*inner) + ")"@,
        SpecType::Custom(n) => "Custom("@ + str_debug_text(n) + ")"@,
        SpecType::Generic { name, type_params } => "Generic { name: "@ + str_debug_text(name) + ", type_params: ["@
            + types_debug_text(type_params) + "] }"@,
        SpecType::TypeParameter(n) => "TypeParameter("@ + str_debug_text(n) + ")"@,
    }
}

/// The `Debug` texts of a list of types, separated by `, `.
pub open spec fn types_debug_text(ts: Seq<SpecType>) -> Seq<char>
    decreases ts, 0nat,
{
    if ts.len() == 0 {
        Seq::empty()
    } else if ts.len() == 1 {
        type_debug_text(ts[0])
    } else {
        types_debug_text(ts.subrange(0, ts.len() - 1)) + ", "@ + type_debug_text(ts[ts.len() - 1])
    }
}

/// Model of a function signature.
pub struct SpecFnSig {
    pub name: Seq<char>,
    pub params: Seq<(Seq<char>, SpecType)>,
    pub return_type: Option<SpecType>,
    pub is_native: bool,
    pub is_extern: bool,
}

/// Model of a reported error.
pub struct SpecTypeError {
    pub message: Seq<char>,
    pub line: usize,
    pub column: usize,
}

/// What the checker knows: the signatures of functions, the types of
/// variables, and the errors reported so far.
pub struct TcState {
    pub functions: Seq<(Seq<char>, SpecFnSig)>,
    pub variables: Seq<(Seq<char>, SpecType)>,
    pub errors: Seq<SpecTypeError>,
}

/// The state with one more error (reported at line 0, column 0).
pub open spec fn report(st: TcState, message: Seq<char>) -> TcState {
    TcState { errors: st.errors.push(SpecTypeError { message, line: 0, column: 0 }), ..st }
}

/// Whether a value of type `actual` may stand where `expected` is wanted:
/// the same built-in type, or arrays or pointers of compatible types.
pub open spec fn compatible(expected: SpecType, actual: SpecType) -> bool
    decreases expected,
{
    match (expected, actual) {
        (SpecType::String, SpecType::String) => true,
        (SpecType::Integer, SpecType::Integer) => true,
        (SpecType::Bool, SpecType::Bool) => true,
        (SpecType::Array(e), SpecType::Array(a)) => compatible(*e, *a),
        (SpecType::Pointer(e), SpecType::Pointer(a)) => compatible(*e, *a),
        _ => false,
    }
}

/// A signature from a native or extern declaration.
pub open spec fn declared_sig(f: SpecSignature, is_native: bool, is_extern: bool) -> SpecFnSig {
    SpecFnSig { name: f.name, params: f.params, return_type: f.return_type, is_native, is_extern }
}

/// A signature with no flags set.
pub open spec fn plain_sig(name: Seq<char>, params: Seq<(Seq<char>, SpecType)>, ret: Option<SpecType>) -> SpecFnSig {
    SpecFnSig { name, params, return_type: ret, is_native: false, is_extern: false }
}

/// A signature of a native library function.
pub open spec fn native_sig(name: Seq<char>, params: Seq<(Seq<char>, SpecType)>, ret: Option<SpecType>) -> SpecFnSig {
    SpecFnSig { name, params, return_type: ret, is_native: true, is_extern: false }
}

/// The functions every program can call.
pub open spec fn builtin_functions() -> Seq<(Seq<char>, SpecFnSig)> {
    let s = seq![("s"@, SpecType::String)];
    let two = |a: Seq<char>, b: Seq<char>| seq![(a, SpecType::String), (b, SpecType::String)];
    let f0 = Seq::<(Seq<char>, SpecFnSig)>::empty();
    let f1 = assoc_insert(f0, "print"@, plain_sig("print"@, seq![("value"@, SpecType::String)], None));
    let f2 = assoc_insert(
        f1,
        "toString"@,
        plain_sig("toString"@, seq![("value"@, SpecType::Integer)], Some(SpecType::String)),
    );
    let f3 = assoc_insert(f2, "length"@, native_sig("length"@, s, Some(SpecType::Integer)));
    let f4 = assoc_insert(f3, "concat"@, native_sig("concat"@, two("a"@, "b"@), Some(SpecType::String)));
    let f5 = assoc_insert(f4, "indexOf"@, native_sig("indexOf"@, two("s"@, "substr"@), Some(SpecType::Integer)));
    let f6 = assoc_insert(f5, "contains"@, native_sig("contains"@, two("s"@, "substr"@), Some(SpecType::Bool)));
    let f7 = assoc_insert(f6, "trim"@, native_sig("trim"@, s, Some(SpecType::String)));
    let f8 = assoc_insert(
        f7,
        "readFile"@,
        native_sig("readFile"@, seq![("path"@, SpecType::String)], Some(SpecType::String)),
    );
    let f9 = assoc_insert(
        f8,
        "writeFile"@,
        native_sig("writeFile"@, two("path"@, "content"@), Some(SpecType::Bool)),
    );
    let f10 = assoc_insert(
        f9,
        "appendFile"@,
        native_sig("appendFile"@, two("path"@, "content"@), Some(SpecType::Bool)),
    );
    let f11 = assoc_insert(
        f10,
        "fileExists"@,
        native_sig("fileExists"@, seq![("path"@, SpecType::String)], Some(SpecType::Bool)),
    );
    assoc_insert(
        f11,
        "deleteFile"@,
        native_sig("deleteFile"@, seq![("path"@, SpecType::String)], Some(SpecType::Bool)),
    )
}

/// Records the functions a statement declares: a function definition, or
/// every function of a native or extern block.
pub open spec fn collect(st: TcState, s: SpecStmt) -> TcState {
    match s {
        SpecStmt::Function { name, params, return_type, .. } => TcState {
            functions: assoc_insert(st.functions, name, plain_sig(name, params, return_type)),
            ..st
        },
        SpecStmt::NativeBlock { functions, .. } => TcState {
            functions: declare_all(st.functions, functions, true, false, functions.len() as int),
            ..st
        },
        SpecStmt::ExternBlock { functions, .. } => TcState {
            functions: declare_all(st.functions, functions, false, true, functions.len() as int),
            ..st
        },
        _ => st,
    }
}

/// The first `n` declarations of a block recorded one after another.
pub open spec fn declare_all(
    fns: Seq<(Seq<char>, SpecFnSig)>,
    decls: Seq<SpecSignature>,
    is_native: bool,
    is_extern: bool,
    n: int,
) -> Seq<(Seq<char>, SpecFnSig)>
    decreases n,
{
    if n <= 0 || n > decls.len() {
        fns
    } else {
        let before = declare_all(fns, decls, is_native, is_extern, n - 1);
        assoc_insert(before, decls[n - 1].name, declared_sig(decls[n - 1], is_native, is_extern))
    }
}

/// The first `n` statements collected one after another.
pub open spec fn collect_all(st: TcState, ss: Seq<SpecStmt>, n: int) -> TcState
    decreases n,
{
    if n <= 0 || n > ss.len() {
        st
    } else {
        collect(collect_all(st, ss, n - 1), ss[n - 1])
    }
}

pub open spec fn pair_text(a: SpecType, b: SpecType) -> Seq<char> {
    type_debug_text(a) + " and "@ + type_debug_text(b)
}

/// The type of a binary operation and the error it reports, if any.
pub open spec fn binary_result(l: SpecType, op: BinaryOperator, r: SpecType) -> (SpecType, Option<Seq<char>>) {
    match op {
        BinaryOperator::Add | BinaryOperator::Subtract | BinaryOperator::Multiply | BinaryOperator::Divide
        | BinaryOperator::Modulo => (
            SpecType::Integer,
            if compatible(SpecType::Integer, l) && compatible(SpecType::Integer, r) {
                None
            } else {
                Some("Arithmetic operation requires Integer operands, found "@ + pair_text(l, r))
            },
        ),
        BinaryOperator::Equal | BinaryOperator::NotEqual => (
            SpecType::Bool,
            if compatible(l, r) {
                None
            } else {
                Some("Cannot compare different types: "@ + pair_text(l, r))
            },
        ),
        BinaryOperator::Less | BinaryOperator::LessEqual | BinaryOperator::Greater
        | BinaryOperator::GreaterEqual => (
            SpecType::Bool,
            if compatible(SpecType::Integer, l) && compatible(SpecType::Integer, r) {
                None
            } else {
                Some("Comparison requires Integer operands, found "@ + pair_text(l, r))
            },
        ),
        BinaryOperator::And | BinaryOperator::Or => (
            SpecType::Bool,
            if compatible(SpecType::Bool, l) && compatible(SpecType::Bool, r) {
                None
            } else {
                Some("Logical operation requires Bool operands, found "@ + pair_text(l, r))
            },
        ),
    }
}

/// The state after an optional error.
pub open spec fn report_opt(st: TcState, message: Option<Seq<char>>) -> TcState {
    match message {
        Some(m) => report(st, m),
        None => st,
    }
}

/// Inferring the type of an expression: the state afterwards (errors
/// reported on the way) and the type. An expression whose type cannot be
/// found counts as a `String` so that checking goes on.
pub open spec fn infer(st: TcState, e: SpecExpr) -> (TcState, SpecType)
    decreases e, 0int,
{
    match e {
        SpecExpr::StringLiteral(_) => (st, SpecType::String),
        SpecExpr::IntegerLiteral(_) => (st, SpecType::Integer),
        SpecExpr::BoolLiteral(_) => (st, SpecType::Bool),
        SpecExpr::Identifier(name) => match assoc_get(st.variables, name) {
            Some(t) => (st, t),
            None => (report(st, "Undefined variable: '"@ + name + "'"@), SpecType::String),
        },
        SpecExpr::FunctionCall { name, args } => match assoc_get(st.functions, name) {
            Some(sig) => {
                let st1 = if args.len() != sig.params.len() {
                    report(
                        st,
                        "Function '"@ + name + "' expects "@ + nat_decimal(sig.params.len()) + " arguments, found "@
                            + nat_decimal(args.len()),
                    )
                } else {
                    infer_args(st, name, args, sig.params, args.len() as int)
                };
                (
                    st1,
                    match sig.return_type {
                        Some(t) => t,
                        None => SpecType::String,
                    },
                )
            },
            None => (report(st, "Undefined function: '"@ + name + "'"@), SpecType::String),
        },
        SpecExpr::BinaryOp { left, operator, right } => {
            let (st1, lt) = infer(st, *left);
            let (st2, rt) = infer(st1, *right);
            let (t, err) = binary_result(lt, operator, rt);
            (report_opt(st2, err), t)
        },
        SpecExpr::UnaryOp { operator, operand } => {
            let (st1, t) = infer(st, *operand);
            match operator {
                UnaryOperator::Not => (
                    if compatible(SpecType::Bool, t) {
                        st1
                    } else {
                        report(st1, "Logical NOT requires Bool operand, found "@ + type_debug_text(t))
                    },
                    SpecType::Bool,
                ),
            }
        },
        SpecExpr::ArrayLiteral(elements) => if elements.len() == 0 {
            (st, SpecType::Array(Box::new(SpecType::String)))
        } else {
            let (st1, t0) = infer(st, elements[0]);
            (infer_elems(st1, elements, t0, elements.len() as int), SpecType::Array(Box::new(t0)))
        },
        SpecExpr::ArrayAccess { array, index } => {
            let (st1, at) = infer(st, *array);
            let (st2, it) = infer(st1, *index);
            let st3 = if compatible(SpecType::Integer, it) {
                st2
            } else {
                report(st2, "Array index must be Integer, found "@ + type_debug_text(it))
            };
            match at {
                SpecType::Array(el) => (st3, *el),
                _ => (
                    report(st3, "Cannot index into "@ + type_debug_text(at) + ", expected Array"@),
                    SpecType::String,
                ),
            }
        },
        SpecExpr::AddressOf { operand } => {
            let (st1, t) = infer(st, *operand);
            (st1, SpecType::Pointer(Box::new(t)))
        },
        SpecExpr::Dereference { operand } => {
            let (st1, t) = infer(st, *operand);
            match t {
                SpecType::Pointer(p) => (st1, *p),
                _ => (
                    report(st1, "Cannot dereference "@ + type_debug_text(t) + ", expected Pointer"@),
                    SpecType::String,
                ),
            }
        },
        _ => (st, SpecType::String),
    }
}

/// The first `n` arguments of a call inferred one after another, each
/// checked against its parameter.
pub open spec fn infer_args(
    st: TcState,
    fname: Seq<char>,
    args: Seq<SpecExpr>,
    params: Seq<(Seq<char>, SpecType)>,
    n: int,
) -> TcState
    decreases args, n,
{
    if n <= 0 || n > args.len() || n > params.len() {
        st
    } else {
        let st1 = infer_args(st, fname, args, params, n - 1);
        let (st2, at) = infer(st1, args[n - 1]);
        let (pname, pt) = params[n - 1];
        if compatible(pt, at) {
            st2
        } else {
            report(
                st2,
                "Function '"@ + fname + "' parameter '"@ + pname + "' expects "@ + type_debug_text(pt) + ", found "@
                    + type_debug_text(at),
            )
        }
    }
}

/// The elements of an array literal after the first, up to position `n`,
/// inferred one after another and each checked against the first's type.
pub open spec fn infer_elems(st: TcState, elements: Seq<SpecExpr>, t0: SpecType, n: int) -> TcState
    decreases elements, n,
{
    if n <= 1 || n > elements.len() {
        st
    } else {
        let st1 = infer_elems(st, elements, t0, n - 1);
        let (st2, t) = infer(st1, elements[n - 1]);
        if compatible(t0, t) {
            st2
        } else {
            report(
                st2,
                "Array element "@ + nat_decimal((n - 1) as nat) + " has type "@ + type_debug_text(t) + ", expected "@
                    + type_debug_text(t0),
            )
        }
    }
}

/// Checking a statement: declarations record the inferred type of the
/// variable (unless it contradicts the declared one), and bodies of `if`,
/// `for ... in` and functions are checked in the same scope.
pub open spec fn check(st: TcState, s: SpecStmt) -> TcState
    decreases s, 0int,
{
    match s {
        SpecStmt::VarDecl { name, type_annotation, value } | SpecStmt::ValDecl { name, type_annotation, value } => {
            let (st1, t) = infer(st, value);
            match type_annotation {
                Some(d) => if !compatible(d, t) {
                    report(
                        st1,
                        "Type mismatch: variable '"@ + name + "' declared as "@ + type_debug_text(d) + ", but assigned "@
                            + type_debug_text(t),
                    )
                } else {
                    TcState { variables: assoc_insert(st1.variables, name, t), ..st1 }
                },
                None => TcState { variables: assoc_insert(st1.variables, name, t), ..st1 },
            }
        },
        SpecStmt::Assignment { variable, value } => match assoc_get(st.variables, variable) {
            Some(vt) => {
                let (st1, t) = infer(st, value);
                if compatible(vt, t) {
                    st1
                } else {
                    report(
                        st1,
                        "Type mismatch: cannot assign "@ + type_debug_text(t) + " to variable '"@ + variable + "' of type "@
                            + type_debug_text(vt),
                    )
                }
            },
            None => report(st, "Undefined variable: '"@ + variable + "'"@),
        },
        SpecStmt::If { condition, then_body, else_body } => {
            let (st1, ct) = infer(st, condition);
            let st2 = if compatible(SpecType::Bool, ct) {
                st1
            } else {
                report(st1, "If condition must be boolean, found "@ + type_debug_text(ct))
            };
            let st3 = check_all(st2, then_body, then_body.len() as int);
            match else_body {
                Some(eb) => check_all(st3, eb, eb.len() as int),
                None => st3,
            }
        },
        SpecStmt::Function { body, .. } => check_all(st, body, body.len() as int),
        SpecStmt::Return(Some(e)) => infer(st, e).0,
        SpecStmt::ForIn { iterable, body, .. } => {
            let (st1, t) = infer(st, iterable);
            match t {
                SpecType::Array(_) => check_all(st1, body, body.len() as int),
                _ => report(st1, "Cannot iterate over "@ + type_debug_text(t) + ", expected Array"@),
            }
        },
        SpecStmt::Expression(e) => infer(st, e).0,
        _ => st,
    }
}

/// The first `n` statements checked one after another.
pub open spec fn check_all(st: TcState, ss: Seq<SpecStmt>, n: int) -> TcState
    decreases ss, n,
{
    if n <= 0 || n > ss.len() {
        st
    } else {
        check(check_all(st, ss, n - 1), ss[n - 1])
    }
}

/// Checking a program: every declared function is recorded first, then
/// every statement is checked.
pub open spec fn check_program_state(st: TcState, ss: Seq<SpecStmt>) -> TcState {
    check_all(collect_all(st, ss, ss.len() as int), ss, ss.len() as int)
}

} // verus!
