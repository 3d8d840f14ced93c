//! What compiling a top-level statement does to the generator: the code it
//! appends to `main` and what it records of variables and arrays.
use vstd::prelude::*;
use crate::ast::{BinaryOperator, SpecExpr, SpecStmt};
use crate::codegen::monomorphization::spec_mangled_name;
use crate::name_map::{assoc_get, assoc_insert};
use crate::text::{contains_text, int_decimal, nat_decimal, seq_join, starts_with};
use super::expr::{arg_names, c_expr, c_texts, is_string_expr, op_text, ArrayLens, VarKinds};
use super::indent::reindent;

verus! {

/// The part of the generator that top-level statements change.
pub struct GenState {
    pub vars: VarKinds,
    pub lens: ArrayLens,
    pub main: Seq<char>,
}

/// `text` appended to the code of `main`.
pub open spec fn emit(g: GenState, text: Seq<char>) -> GenState {
    GenState { main: g.main + text, ..g }
}

/// `name` recorded with kind `kind`.
pub open spec fn set_kind(g: GenState, name: Seq<char>, kind: Seq<char>) -> GenState {
    GenState { vars: assoc_insert(g.vars, name, kind), ..g }
}

/// `    ctype name = value;` and a newline.
pub open spec fn decl_line(ctype: Seq<char>, name: Seq<char>, value: Seq<char>) -> Seq<char> {
    "    "@ + ctype + " "@ + name + " = "@ + value + ";\n"@
}

/// C type and recorded kind of a variable holding the result of a call.
pub open spec fn call_kind(f: Seq<char>) -> (Seq<char>, Seq<char>) {
    if f == "toString"@ {
        ("char*"@, "string"@)
    } else if f == "getArgs"@ {
        ("char**"@, "getargs"@)
    } else if f == "readFile"@ {
        ("char*"@, "string"@)
    } else if f == "writeFile"@ || f == "appendFile"@ || f == "fileExists"@ || f == "deleteFile"@ {
        ("int"@, "bool"@)
    } else if f == "concat"@ || f == "trim"@ || f == "getenv"@ {
        ("char*"@, "string"@)
    } else if f == "contains"@ {
        ("int"@, "bool"@)
    } else {
        ("int"@, "int"@)
    }
}

/// C type and recorded kind of a variable holding a namespaced call's result.
pub open spec fn namespaced_kind(f: Seq<char>) -> (Seq<char>, Seq<char>) {
    if f == "toString"@ {
        ("char*"@, "string"@)
    } else if f == "getArgs"@ {
        ("char**"@, "getargs"@)
    } else {
        ("int"@, "int"@)
    }
}

/// Whether an operator compares or combines truth values.
pub open spec fn is_test_op(op: BinaryOperator) -> bool {
    match op {
        BinaryOperator::Equal | BinaryOperator::NotEqual | BinaryOperator::Less | BinaryOperator::LessEqual
        | BinaryOperator::Greater | BinaryOperator::GreaterEqual | BinaryOperator::And | BinaryOperator::Or => true,
        _ => false,
    }
}

/// C type and recorded kind of a variable holding a binary operation.
pub open spec fn binary_kind(vars: VarKinds, op: BinaryOperator, l: SpecExpr, r: SpecExpr) -> (Seq<char>, Seq<char>) {
    if op == BinaryOperator::Add && (is_string_expr(vars, l) || is_string_expr(vars, r)) {
        ("char*"@, "string"@)
    } else if is_test_op(op) {
        ("int"@, "bool"@)
    } else {
        ("int"@, "int"@)
    }
}

/// A `var` or `val` declaration with an initial value.
pub open spec fn decl(g: GenState, name: Seq<char>, value: SpecExpr) -> GenState {
    let text = c_expr(g.vars, g.lens, value);
    match value {
        SpecExpr::StringLiteral(s) => set_kind(
            emit(g, "    char "@ + name + "[] = \""@ + s + "\";\n"@),
            name,
            "string"@,
        ),
        SpecExpr::IntegerLiteral(_) => set_kind(emit(g, decl_line("int"@, name, text)), name, "int"@),
        SpecExpr::BoolLiteral(_) => set_kind(emit(g, decl_line("int"@, name, text)), name, "bool"@),
        SpecExpr::FunctionCall { name: f, .. } => {
            let (ct, k) = call_kind(f);
            set_kind(emit(g, decl_line(ct, name, text)), name, k)
        },
        SpecExpr::NamespacedFunctionCall { function, .. } => {
            let (ct, k) = namespaced_kind(function);
            set_kind(emit(g, decl_line(ct, name, text)), name, k)
        },
        SpecExpr::ArrayLiteral(elems) => {
            let lens2 = assoc_insert(g.lens, name, elems.len() as usize);
            let g2 = GenState { lens: lens2, ..g };
            set_kind(
                emit(g2, "    int "@ + name + "[] = {"@ + seq_join(c_texts(g.vars, lens2, elems), ", "@) + "};\n"@),
                name,
                "array"@,
            )
        },
        SpecExpr::BinaryOp { left, operator, right } => {
            let (ct, k) = binary_kind(g.vars, operator, *left, *right);
            set_kind(emit(g, decl_line(ct, name, text)), name, k)
        },
        SpecExpr::Identifier(v) => set_kind(emit(g, decl_line("int"@, name, v)), name, "int"@),
        SpecExpr::UnaryOp { .. } => set_kind(emit(g, decl_line("int"@, name, text)), name, "bool"@),
        SpecExpr::StructLiteral { struct_name, type_args, .. } => {
            let ty = match type_args {
                Some(a) => spec_mangled_name(struct_name, arg_names(a)),
                None => struct_name,
            };
            set_kind(emit(g, decl_line(ty, name, text)), name, ty)
        },
        SpecExpr::AddressOf { .. } => set_kind(emit(g, decl_line("int*"@, name, text)), name, "int*"@),
        _ => set_kind(emit(g, decl_line("int"@, name, text)), name, "int"@),
    }
}

/// The text of an `if` or loop condition.
pub open spec fn cond_text(vars: VarKinds, lens: ArrayLens, e: SpecExpr) -> Seq<char> {
    match e {
        SpecExpr::BoolLiteral(b) => if b {
            "1"@
        } else {
            "0"@
        },
        SpecExpr::Identifier(n) => n,
        SpecExpr::BinaryOp { left, operator, right } => {
            let l = c_expr(vars, lens, *left);
            let r = c_expr(vars, lens, *right);
            if is_test_op(operator) {
                l + " "@ + op_text(operator) + " "@ + r
            } else {
                "("@ + c_expr(
                    vars,
                    lens,
                    SpecExpr::BinaryOp {
                        left: Box::new(SpecExpr::Identifier(l)),
                        operator,
                        right: Box::new(SpecExpr::Identifier(r)),
                    },
                ) + ")"@
            }
        },
        _ => c_expr(vars, lens, e),
    }
}

/// A `printf` statement with `%s`.
pub open spec fn line_print_str(x: Seq<char>) -> Seq<char> {
    "    printf(\"%s\\n\", "@ + x + ");\n"@
}

/// A `printf` statement with `%d`.
pub open spec fn line_print_int(x: Seq<char>) -> Seq<char> {
    "    printf(\"%d\\n\", "@ + x + ");\n"@
}

/// A `printf` statement printing a truth value as `true` or `false`.
pub open spec fn line_print_bool(x: Seq<char>) -> Seq<char> {
    "    printf(\"%s\\n\", "@ + x + " ? \"true\" : \"false\");\n"@
}

/// The statement printing the argument of a top-level `stdio.print`.
pub open spec fn stmt_print(vars: VarKinds, lens: ArrayLens, arg: SpecExpr) -> Seq<char> {
    match arg {
        SpecExpr::StringLiteral(s) => line_print_str("\""@ + s + "\""@),
        SpecExpr::IntegerLiteral(n) => line_print_int(int_decimal(n as int)),
        SpecExpr::Identifier(v) => match assoc_get(vars, v) {
            Some(t) => if t == "string"@ {
                line_print_str(v)
            } else if t == "bool"@ {
                line_print_bool(v)
            } else {
                line_print_int(v)
            },
            None => line_print_int(v),
        },
        _ => line_print_int(c_expr(vars, lens, arg)),
    }
}

/// A top-level expression statement.
pub open spec fn expr_stmt(g: GenState, e: SpecExpr) -> GenState {
    match e {
        SpecExpr::BoolLiteral(b) => emit(g, line_print_str(if b { "\"true\""@ } else { "\"false\""@ })),
        SpecExpr::FunctionCall { .. } | SpecExpr::BinaryOp { .. } => emit(g, "    "@ + c_expr(g.vars, g.lens, e) + ";\n"@),
        SpecExpr::NamespacedFunctionCall { namespace, function, args } => if namespace == "stdio"@ && function
            == "print"@ && args.len() == 1 {
            emit(g, stmt_print(g.vars, g.lens, args[0]))
        } else {
            emit(g, "    "@ + c_expr(g.vars, g.lens, e) + ";\n"@)
        },
        _ => g,
    }
}

/// The element type of an `Array_...` kind.
pub open spec fn element_type(kind: Seq<char>) -> Seq<char> {
    if contains_text(kind, "Array_Integer"@) {
        "int"@
    } else if contains_text(kind, "Array_String"@) {
        "char*"@
    } else if contains_text(kind, "Array_Bool"@) {
        "int"@
    } else if starts_with(kind, "Array_"@) {
        kind.subrange(6, kind.len() as int)
    } else {
        "int"@
    }
}

/// Loop header over the array variable `a` of kind `kind` with index `lv`,
/// declaring `variable`; the kind recorded for `variable`. The program
/// arguments get their own form where `with_args`.
pub open spec fn loop_over(a: Seq<char>, kind: Seq<char>, lv: Seq<char>, variable: Seq<char>, with_args: bool) -> (Seq<char>, Seq<char>) {
    if contains_text(kind, "Array_"@) {
        let et = element_type(kind);
        (
            "    for (int "@ + lv + " = 0; "@ + lv + " < "@ + a + ".length; "@ + lv + "++) {\n"@ + "        "@ + et
                + " "@ + variable + " = "@ + a + ".data["@ + lv + "];\n"@,
            et,
        )
    } else if with_args && kind == "getargs"@ {
        (
            "    for (int "@ + lv + " = 0; "@ + lv + " < getArgsLength(); "@ + lv + "++) {\n"@ + "        char* "@
                + variable + " = "@ + a + "["@ + lv + "];\n"@,
            "string"@,
        )
    } else {
        let size = "_size_of_"@ + a;
        (
            "    int "@ + size + " = sizeof("@ + a + ") / sizeof("@ + a + "[0]);\n"@ + "    for (int "@ + lv + " = 0; "@
                + lv + " < "@ + size + "; "@ + lv + "++) {\n"@ + "        int "@ + variable + " = "@ + a + "["@ + lv
                + "];\n"@,
            "int"@,
        )
    }
}

/// Header of a loop over an array literal: the array and its size as
/// temporaries named after `n`, then the loop declaring `variable`.
pub open spec fn literal_loop(texts: Seq<Seq<char>>, n: Seq<char>, variable: Seq<char>) -> Seq<char> {
    let arr = "_temp_array_"@ + n;
    let size = "_temp_size_"@ + n;
    let lv = "_i_"@ + n;
    "    int "@ + arr + "[] = {"@ + seq_join(texts, ", "@) + "};\n"@ + "    int "@ + size + " = "@ + nat_decimal(
        texts.len(),
    ) + ";\n"@ + "    for (int "@ + lv + " = 0; "@ + lv + " < "@ + size + "; "@ + lv + "++) {\n"@ + "        int "@
        + variable + " = "@ + arr + "["@ + lv + "];\n"@
}

/// Whether compiling a statement at top level goes through: no C-style
/// `for`, and a `for ... in` over a call only as `iterate(array)`.
pub open spec fn gen_ok(s: SpecStmt) -> bool
    decreases s, 1nat,
{
    match s {
        SpecStmt::ForLoop { .. } => false,
        SpecStmt::If { then_body, else_body, .. } => all_gen_ok(then_body) && match else_body {
            Some(eb) => all_gen_ok(eb),
            None => true,
        },
        SpecStmt::ForCondition { body, .. } => all_gen_ok(body),
        SpecStmt::ForIn { iterable, body, .. } => match iterable {
            SpecExpr::FunctionCall { name, args } => name == "iterate"@ && args.len() == 1
                && args[0] is Identifier && all_gen_ok(body),
            SpecExpr::ArrayLiteral(_) | SpecExpr::Identifier(_) => all_gen_ok(body),
            _ => true,
        },
        _ => true,
    }
}

pub open spec fn all_gen_ok(ss: Seq<SpecStmt>) -> bool
    decreases ss, 0nat,
{
    if ss.len() == 0 {
        true
    } else {
        gen_ok(ss[0]) && all_gen_ok(ss.drop_first())
    }
}

/// Compiling one top-level statement.
pub open spec fn main_stmt(g: GenState, s: SpecStmt) -> GenState
    decreases s, 1nat,
{
    match s {
        SpecStmt::ValDecl { name, value, .. } => decl(g, name, value),
        SpecStmt::VarDecl { name, value, .. } => decl(g, name, value),
        SpecStmt::If { condition, then_body, else_body } => {
            let g1 = emit(g, "    if ("@ + cond_text(g.vars, g.lens, condition) + ") {\n"@);
            let g2 = main_body(g1, then_body);
            let g3 = match else_body {
                Some(eb) => main_body(emit(g2, "    } else {\n"@), eb),
                None => g2,
            };
            emit(g3, "    }\n"@)
        },
        SpecStmt::ForCondition { condition, body } => {
            let g1 = emit(g, "    while ("@ + c_expr(g.vars, g.lens, condition) + ") {\n"@);
            emit(indented_body(g1, body, "        "@), "    }\n"@)
        },
        SpecStmt::ForIn { variable, iterable, body } => {
            let n = nat_decimal(g.vars.len());
            match iterable {
                SpecExpr::ArrayLiteral(elems) => {
                    let g1 = set_kind(emit(g, literal_loop(c_texts(g.vars, g.lens, elems), n, variable)), variable, "int"@);
                    emit(indented_body(g1, body, "        "@), "    }\n"@)
                },
                SpecExpr::Identifier(a) => {
                    let kind = match assoc_get(g.vars, a) {
                        Some(t) => t,
                        None => "unknown"@,
                    };
                    let (header, k) = loop_over(a, kind, "_i_for_"@ + n, variable, true);
                    emit(indented_body(set_kind(emit(g, header), variable, k), body, "        "@), "    }\n"@)
                },
                SpecExpr::FunctionCall { args, .. } => match args[0] {
                    SpecExpr::Identifier(a) => {
                        let kind = match assoc_get(g.vars, a) {
                            Some(t) => t,
                            None => "int*"@,
                        };
                        let (header, k) = loop_over(a, kind, "_i_iter_"@ + n, variable, false);
                        emit(indented_body(set_kind(emit(g, header), variable, k), body, "        "@), "    }\n"@)
                    },
                    _ => g,
                },
                _ => emit(g, "    // TODO: for-in with complex expression\n"@),
            }
        },
        SpecStmt::Return(Some(e)) => emit(g, "    return "@ + c_expr(g.vars, g.lens, e) + ";\n"@),
        SpecStmt::Return(None) => emit(g, "    return;\n"@),
        SpecStmt::Assignment { variable, value } => emit(
            g,
            "    "@ + variable + " = "@ + c_expr(g.vars, g.lens, value) + ";\n"@,
        ),
        SpecStmt::Expression(e) => expr_stmt(g, e),
        _ => g,
    }
}

/// Statements compiled one after another.
pub open spec fn main_body(g: GenState, ss: Seq<SpecStmt>) -> GenState
    decreases ss, 0nat,
{
    if ss.len() == 0 {
        g
    } else {
        main_body(main_stmt(g, ss[0]), ss.drop_first())
    }
}

/// A statement compiled on its own and its code added re-indented.
pub open spec fn with_indent(g: GenState, s: SpecStmt, indent: Seq<char>) -> GenState
    decreases s, 2nat,
{
    let g2 = main_stmt(GenState { main: Seq::empty(), ..g }, s);
    GenState { vars: g2.vars, lens: g2.lens, main: g.main + reindent(g2.main, indent) }
}

/// Statements compiled one after another, each re-indented.
pub open spec fn indented_body(g: GenState, ss: Seq<SpecStmt>, indent: Seq<char>) -> GenState
    decreases ss, 0nat,
{
    if ss.len() == 0 {
        g
    } else {
        indented_body(with_indent(g, ss[0], indent), ss.drop_first(), indent)
    }
}

} // verus!
