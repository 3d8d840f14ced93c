//! What compiling functions, type definitions and whole programs produces.
use vstd::prelude::*;
use crate::ast::{SpecExpr, SpecStmt, SpecType};
use crate::codegen::monomorphization::{concrete_for, field_lines, spec_mangled_name, struct_text, SpecMonomorph};
use crate::name_map::{assoc_get, assoc_insert};
use super::expr::{arg_name, arg_names, c_expr, ArrayLens, VarKinds};
use super::stmt_spec::{all_gen_ok, gen_ok, main_stmt, GenState};
use super::native::{externs_text, libraries_after, native_text, natives_text};
use crate::ast::SpecSignature;
use crate::module::all_functions;

verus! {

/// Definition of a generic type: parameter names and fields.
pub type GenericDef = (Seq<Seq<char>>, Seq<(Seq<char>, SpecType)>);

/// The C spelling the generator uses for a type.
pub open spec fn cg_c_type(t: SpecType) -> Seq<char>
    decreases t,
{
    match t {
        SpecType::Integer => "int"@,
        SpecType::String => "char*"@,
        SpecType::Bool => "int"@,
        SpecType::Pointer(inner) => cg_c_type(*inner) + "*"@,
        SpecType::Custom(n) => n,
        SpecType::Generic { name, type_params } => spec_mangled_name(name, arg_names(type_params)),
        _ => "void*"@,
    }
}

/// A concrete type name as a type: the three built-in names become the
/// built-in types.
pub open spec fn named_type(c: Seq<char>) -> SpecType {
    if c == "Integer"@ {
        SpecType::Integer
    } else if c == "String"@ {
        SpecType::String
    } else if c == "Bool"@ {
        SpecType::Bool
    } else {
        SpecType::Custom(c)
    }
}

/// A field type with type parameters replaced by concrete types.
pub open spec fn cg_substitute(t: SpecType, params: Seq<Seq<char>>, concrete: Seq<Seq<char>>) -> SpecType
    decreases t, 1nat,
{
    match t {
        SpecType::Custom(name) => match concrete_for(params, concrete, name) {
            Some(c) => named_type(c),
            None => t,
        },
        SpecType::Pointer(inner) => SpecType::Pointer(Box::new(cg_substitute(*inner, params, concrete))),
        SpecType::Generic { name, type_params } => SpecType::Generic {
            name,
            type_params: cg_substitute_all(type_params, params, concrete),
        },
        _ => t,
    }
}

pub open spec fn cg_substitute_all(ts: Seq<SpecType>, params: Seq<Seq<char>>, concrete: Seq<Seq<char>>) -> Seq<SpecType>
    decreases ts, 0nat,
{
    if ts.len() == 0 {
        Seq::empty()
    } else {
        cg_substitute_all(ts.subrange(0, ts.len() - 1), params, concrete).push(
            cg_substitute(ts[ts.len() - 1], params, concrete),
        )
    }
}

/// The C struct for a concrete instance of a generic type.
pub open spec fn mono_text(m: SpecMonomorph, def: GenericDef) -> Seq<char> {
    struct_text(
        spec_mangled_name(m.base_name, m.type_args),
        Seq::new(def.1.len(), |i: int| (cg_c_type(cg_substitute(def.1[i].1, def.0, m.type_args)), def.1[i].0)),
    )
}

/// `req` with `m` added at the end unless already there.
pub open spec fn add_req(req: Seq<SpecMonomorph>, m: SpecMonomorph) -> Seq<SpecMonomorph> {
    if req.contains(m) {
        req
    } else {
        req.push(m)
    }
}

/// Name of a type argument of a generic type in a declared type; nested
/// generic types go by their C name.
pub open spec fn type_arg_name(t: SpecType) -> Seq<char> {
    match t {
        SpecType::Generic { .. } => cg_c_type(t),
        _ => arg_name(t),
    }
}

/// The instances that a declared type needs, added to `req`: those of
/// nested generic arguments first, then its own.
pub open spec fn analyze_type(req: Seq<SpecMonomorph>, t: SpecType) -> Seq<SpecMonomorph>
    decreases t, 1nat,
{
    match t {
        SpecType::Generic { name, type_params } => add_req(
            analyze_nested(req, type_params),
            SpecMonomorph { base_name: name, type_args: Seq::new(type_params.len(), |i: int| type_arg_name(type_params[i])) },
        ),
        SpecType::Pointer(inner) => analyze_type(req, *inner),
        _ => req,
    }
}

/// Nested generic arguments analyzed in order.
pub open spec fn analyze_nested(req: Seq<SpecMonomorph>, ts: Seq<SpecType>) -> Seq<SpecMonomorph>
    decreases ts, 0nat,
{
    if ts.len() == 0 {
        req
    } else {
        let r1 = match ts[0] {
            SpecType::Generic { .. } => analyze_type(req, ts[0]),
            _ => req,
        };
        analyze_nested(r1, ts.drop_first())
    }
}

/// The instances that generic struct literals in an expression need.
pub open spec fn analyze_expr(req: Seq<SpecMonomorph>, e: SpecExpr) -> Seq<SpecMonomorph>
    decreases e, 1nat,
{
    match e {
        SpecExpr::StructLiteral { struct_name, type_args, fields } => {
            let r1 = match type_args {
                Some(args) => add_req(req, SpecMonomorph { base_name: struct_name, type_args: arg_names(args) }),
                None => req,
            };
            analyze_fields(r1, fields)
        },
        SpecExpr::FunctionCall { args, .. } => analyze_exprs(req, args),
        SpecExpr::NamespacedFunctionCall { args, .. } => analyze_exprs(req, args),
        SpecExpr::BinaryOp { left, right, .. } => analyze_expr(analyze_expr(req, *left), *right),
        SpecExpr::UnaryOp { operand, .. } => analyze_expr(req, *operand),
        SpecExpr::FieldAccess { object, .. } => analyze_expr(req, *object),
        SpecExpr::ArrayAccess { array, index } => analyze_expr(analyze_expr(req, *array), *index),
        SpecExpr::AddressOf { operand } => analyze_expr(req, *operand),
        SpecExpr::Dereference { operand } => analyze_expr(req, *operand),
        _ => req,
    }
}

pub open spec fn analyze_exprs(req: Seq<SpecMonomorph>, es: Seq<SpecExpr>) -> Seq<SpecMonomorph>
    decreases es, 0nat,
{
    if es.len() == 0 {
        req
    } else {
        analyze_exprs(analyze_expr(req, es[0]), es.drop_first())
    }
}

pub open spec fn analyze_fields(req: Seq<SpecMonomorph>, fs: Seq<(Seq<char>, SpecExpr)>) -> Seq<SpecMonomorph>
    decreases fs, 0nat,
{
    if fs.len() == 0 {
        req
    } else {
        analyze_fields(analyze_expr(req, fs[0].1), fs.drop_first())
    }
}

/// Types analyzed in order.
pub open spec fn analyze_types(req: Seq<SpecMonomorph>, ts: Seq<SpecType>) -> Seq<SpecMonomorph>
    decreases ts.len(),
{
    if ts.len() == 0 {
        req
    } else {
        analyze_types(analyze_type(req, ts[0]), ts.drop_first())
    }
}

/// The instances a statement needs: declared types, then initial values;
/// parameter and return types of functions; expression statements.
pub open spec fn analyze_stmt(req: Seq<SpecMonomorph>, s: SpecStmt) -> Seq<SpecMonomorph> {
    match s {
        SpecStmt::VarDecl { type_annotation, value, .. } | SpecStmt::ValDecl { type_annotation, value, .. } => {
            let r1 = match type_annotation {
                Some(t) => analyze_type(req, t),
                None => req,
            };
            analyze_expr(r1, value)
        },
        SpecStmt::Function { params, return_type, .. } => {
            let r1 = analyze_types(req, Seq::new(params.len(), |i: int| params[i].1));
            match return_type {
                Some(t) => analyze_type(r1, t),
                None => r1,
            }
        },
        SpecStmt::Expression(e) => analyze_expr(req, e),
        _ => req,
    }
}

pub open spec fn analyze_stmts(req: Seq<SpecMonomorph>, ss: Seq<SpecStmt>) -> Seq<SpecMonomorph>
    decreases ss.len(),
{
    if ss.len() == 0 {
        req
    } else {
        analyze_stmts(analyze_stmt(req, ss[0]), ss.drop_first())
    }
}

/// The cached text of an instance: that of its first entry.
pub open spec fn cache_get(cache: Seq<(SpecMonomorph, Seq<char>)>, m: SpecMonomorph) -> Option<Seq<char>>
    decreases cache.len(),
{
    if cache.len() == 0 {
        None
    } else if cache[0].0 == m {
        Some(cache[0].1)
    } else {
        cache_get(cache.drop_first(), m)
    }
}

/// Generating the structs of a list of instances in order, each from the
/// cache or from its definition: the texts and the cache afterwards.
pub open spec fn gen_monos(
    defs: Seq<(Seq<char>, GenericDef)>,
    cache: Seq<(SpecMonomorph, Seq<char>)>,
    ms: Seq<SpecMonomorph>,
) -> (Seq<char>, Seq<(SpecMonomorph, Seq<char>)>)
    decreases ms.len(),
{
    if ms.len() == 0 {
        (Seq::empty(), cache)
    } else {
        let (text, cache1) = match cache_get(cache, ms[0]) {
            Some(t) => (t, cache),
            None => {
                let t = mono_text(ms[0], assoc_get(defs, ms[0].base_name).unwrap());
                (t, cache.push((ms[0], t)))
            },
        };
        let (rest, cache2) = gen_monos(defs, cache1, ms.drop_first());
        (text + rest, cache2)
    }
}

/// Whether every instance in `ms` is cached or has a definition.
pub open spec fn monos_defined(
    defs: Seq<(Seq<char>, GenericDef)>,
    cache: Seq<(SpecMonomorph, Seq<char>)>,
    ms: Seq<SpecMonomorph>,
) -> bool {
    forall|i: int| 0 <= i < ms.len() ==> (cache_get(cache, #[trigger] ms[i]) is Some || assoc_get(defs, ms[i].base_name) is Some)
}

/// C return type of a function.
pub open spec fn fn_return_c(t: Option<SpecType>) -> Seq<char> {
    match t {
        Some(SpecType::Integer) => "int"@,
        Some(SpecType::String) => "char*"@,
        Some(SpecType::Bool) => "int"@,
        Some(SpecType::Array(_)) | Some(SpecType::Pointer(_)) => "int*"@,
        Some(_) => "void*"@,
        None => "void"@,
    }
}

/// C type of a function parameter.
pub open spec fn fn_param_c(t: SpecType) -> Seq<char> {
    match t {
        SpecType::Integer => "int"@,
        SpecType::String => "char*"@,
        SpecType::Bool => "int"@,
        SpecType::Array(_) | SpecType::Pointer(_) => "int*"@,
        _ => "void*"@,
    }
}

/// Kind recorded for a parameter inside the function body.
pub open spec fn param_kind(t: SpecType) -> Seq<char> {
    match t {
        SpecType::Integer => "int"@,
        SpecType::String => "string"@,
        SpecType::Bool => "bool"@,
        SpecType::Array(_) => "array"@,
        SpecType::Pointer(_) => "pointer"@,
        SpecType::Custom(_) => "custom"@,
        SpecType::Generic { .. } => "generic"@,
        SpecType::TypeParameter(_) => "typeparam"@,
    }
}

/// Parameters recorded one after another.
pub open spec fn param_kinds(vars: VarKinds, params: Seq<(Seq<char>, SpecType)>) -> VarKinds
    decreases params.len(),
{
    if params.len() == 0 {
        vars
    } else {
        param_kinds(
            assoc_insert(vars, params[0].0, param_kind(params[0].1)),
            params.drop_first(),
        )
    }
}

/// The body of a function: each statement compiled on its own (a `return`
/// directly), with what earlier statements recorded.
pub open spec fn fn_body(g: GenState, ss: Seq<SpecStmt>) -> Seq<char>
    decreases ss.len(),
{
    if ss.len() == 0 {
        Seq::empty()
    } else {
        match ss[0] {
            SpecStmt::Return(Some(e)) => "    return "@ + c_expr(g.vars, g.lens, e) + ";\n"@ + fn_body(g, ss.drop_first()),
            SpecStmt::Return(None) => "    return;\n"@ + fn_body(g, ss.drop_first()),
            s => {
                let g2 = main_stmt(g, s);
                g2.main + fn_body(GenState { main: Seq::empty(), ..g2 }, ss.drop_first())
            },
        }
    }
}

/// Whether the body statements other than `return` compile at top level.
pub open spec fn body_ok(ss: Seq<SpecStmt>) -> bool {
    forall|i: int| 0 <= i < ss.len() ==> (#[trigger] ss[i] is Return || gen_ok(ss[i]))
}

/// The C definition of a function (`main` renamed to `bolt_main`).
pub open spec fn fn_text(name: Seq<char>, params: Seq<(Seq<char>, SpecType)>, ret: Option<SpecType>, body: Seq<SpecStmt>) -> Seq<char> {
    let cname = if name == "main"@ {
        "bolt_main"@
    } else {
        name
    };
    let decls = Seq::new(params.len(), |i: int| fn_param_c(params[i].1) + " "@ + params[i].0);
    let g0 = GenState { vars: param_kinds(Seq::empty(), params), lens: Seq::empty(), main: Seq::empty() };
    fn_return_c(ret) + " "@ + cname + "("@ + crate::text::seq_join(decls, ", "@) + ") {\n"@ + fn_body(g0, body)
        + "}\n"@
}

/// The includes and helper functions that start every program.
pub open spec fn header_text() -> Seq<char> {
    "#include <stdio.h>\n"@
        + "#include <string.h>\n"@
        + "#include <stdlib.h>\n\n"@
        + "char* string_concat(const char* str1, const char* str2) {\n"@
        + "    size_t len1 = strlen(str1);\n"@
        + "    size_t len2 = strlen(str2);\n"@
        + "    char* result = malloc(len1 + len2 + 1);\n"@
        + "    strcpy(result, str1);\n"@
        + "    strcat(result, str2);\n"@
        + "    return result;\n"@
        + "}\n\n"@
        + "char* toString(int value) {\n"@
        + "    char* result = malloc(32); // enough for any 32-bit int\n"@
        + "    snprintf(result, 32, \"%d\", value);\n"@
        + "    return result;\n"@
        + "}\n\n"@
        + "int bolt_argc;\n"@
        + "char** bolt_argv;\n\n"@
        + "char** getArgs() {\n"@
        + "    return bolt_argv;\n"@
        + "}\n\n"@
        + "int getArgsLength() {\n"@
        + "    return bolt_argc;\n"@
        + "}\n\n"@
}

/// The text a type definition adds: a struct for a non-generic one.
pub open spec fn typedef_text(s: SpecStmt) -> Seq<char> {
    match s {
        SpecStmt::TypeDef { name, type_params, fields } => if type_params.len() == 0 {
            struct_text(name, Seq::new(fields.len(), |i: int| (cg_c_type(fields[i].1), fields[i].0)))
        } else {
            Seq::empty()
        },
        _ => Seq::empty(),
    }
}

/// The definitions after a type definition: a generic one is registered.
pub open spec fn typedef_defs(defs: Seq<(Seq<char>, GenericDef)>, s: SpecStmt) -> Seq<(Seq<char>, GenericDef)> {
    match s {
        SpecStmt::TypeDef { name, type_params, fields } => if type_params.len() == 0 {
            defs
        } else {
            assoc_insert(defs, name, (type_params, fields))
        },
        _ => defs,
    }
}

/// The first pass over a program's statements: the struct texts of its type
/// definitions and the generic definitions registered.
pub open spec fn typedef_pass(defs: Seq<(Seq<char>, GenericDef)>, ss: Seq<SpecStmt>) -> (Seq<char>, Seq<(Seq<char>, GenericDef)>)
    decreases ss.len(),
{
    if ss.len() == 0 {
        (Seq::empty(), defs)
    } else {
        let (rest, defs2) = typedef_pass(typedef_defs(defs, ss[0]), ss.drop_first());
        (typedef_text(ss[0]) + rest, defs2)
    }
}

/// Functions and top-level code compiled so far.
pub struct Emitted {
    pub gen: GenState,
    pub functions: Seq<Seq<char>>,
    pub user_main: bool,
}

/// Compiling a function definition (`print` and `println` are provided and
/// skipped).
pub open spec fn function_step(e: Emitted, s: SpecStmt) -> Emitted {
    match s {
        SpecStmt::Function { name, params, return_type, body, .. } => if name == "print"@ || name == "println"@ {
            e
        } else {
            Emitted {
                functions: e.functions.push(fn_text(name, params, return_type, body)),
                user_main: e.user_main || name == "main"@,
                ..e
            }
        },
        _ => e,
    }
}

/// The last pass: functions compiled, other statements into `main`.
pub open spec fn code_pass(e: Emitted, ss: Seq<SpecStmt>) -> Emitted
    decreases ss.len(),
{
    if ss.len() == 0 {
        e
    } else {
        let e1 = if ss[0] is Function {
            function_step(e, ss[0])
        } else {
            Emitted { gen: main_stmt(e.gen, ss[0]), ..e }
        };
        code_pass(e1, ss.drop_first())
    }
}

/// Each function text followed by a newline.
pub open spec fn functions_text(fs: Seq<Seq<char>>) -> Seq<char>
    decreases fs.len(),
{
    if fs.len() == 0 {
        Seq::empty()
    } else {
        functions_text(fs.drop_last()) + fs.last() + "\n"@
    }
}

/// The C `main`: it sets the argument globals, then calls the program's own
/// `main` or runs the top-level code.
pub open spec fn main_wrapper(user_main: bool, main: Seq<char>) -> Seq<char> {
    if user_main {
        "int main(int argc, char* argv[]) {\n"@ + "    bolt_argc = argc;\n"@ + "    bolt_argv = argv;\n"@
            + "    bolt_main();\n"@ + "    return 0;\n"@ + "}\n"@
    } else {
        "int main(int argc, char* argv[]) {\n"@ + "    bolt_argc = argc;\n"@ + "    bolt_argv = argv;\n"@ + main
            + "    return 0;\n"@ + "}\n"@
    }
}

/// The C translation unit of a program compiled from the given state: the
/// header, the structs of plain type definitions, the structs of every
/// required generic instance, the functions, and `main`.
pub open spec fn program_text(
    defs: Seq<(Seq<char>, GenericDef)>,
    req: Seq<SpecMonomorph>,
    cache: Seq<(SpecMonomorph, Seq<char>)>,
    e: Emitted,
    ss: Seq<SpecStmt>,
) -> Seq<char> {
    let (types, defs1) = typedef_pass(defs, ss);
    let monos = gen_monos(defs1, cache, analyze_stmts(req, ss)).0;
    let e1 = code_pass(e, ss);
    header_text() + types + monos + functions_text(e1.functions) + main_wrapper(e1.user_main, e1.gen.main)
}

/// The first function of a list named `name`.
pub open spec fn first_native(fs: Seq<SpecSignature>, name: Seq<char>) -> Option<SpecSignature>
    decreases fs.len(),
{
    if fs.len() == 0 {
        None
    } else if fs[0].name == name {
        Some(fs[0])
    } else {
        first_native(fs.drop_first(), name)
    }
}

/// Looking through a module's statements for `name`: a function of that
/// name is compiled and ends the search; in each C native block, the first
/// native function of that name adds its code and the search goes on.
pub open spec fn module_scan(e: Emitted, text: Seq<char>, ss: Seq<SpecStmt>, name: Seq<char>) -> (Emitted, Seq<char>)
    decreases ss.len(),
{
    if ss.len() == 0 {
        (e, text)
    } else {
        match ss[0] {
            SpecStmt::Function { name: n, .. } => if n == name {
                (function_step(e, ss[0]), text)
            } else {
                module_scan(e, text, ss.drop_first(), name)
            },
            SpecStmt::NativeBlock { language, functions } => {
                let t2 = if language == "C"@ {
                    match first_native(functions, name) {
                        Some(f) => text + native_text(f),
                        None => text,
                    }
                } else {
                    text
                };
                module_scan(e, t2, ss.drop_first(), name)
            },
            _ => module_scan(e, text, ss.drop_first(), name),
        }
    }
}

/// Compiling the functions of loaded modules, each (name, module path) in
/// turn.
pub open spec fn module_fns_pass(
    e: Emitted,
    text: Seq<char>,
    fns: Seq<(Seq<char>, Seq<char>)>,
    modules: Seq<(Seq<char>, Seq<SpecStmt>)>,
) -> (Emitted, Seq<char>)
    decreases fns.len(),
{
    if fns.len() == 0 {
        (e, text)
    } else {
        let (e1, t1) = module_fns_pass(e, text, fns.drop_last(), modules);
        match assoc_get(modules, fns.last().1) {
            Some(ss) => module_scan(e1, t1, ss, fns.last().0),
            None => (e1, t1),
        }
    }
}

/// Whether every function body among `ss` compiles.
pub open spec fn functions_ok(ss: Seq<SpecStmt>) -> bool {
    forall|i: int| 0 <= i < ss.len() ==> (#[trigger] ss[i] matches SpecStmt::Function { body, .. } ==> body_ok(body))
}

/// Whether every function body of every module compiles.
pub open spec fn modules_ok(modules: Seq<(Seq<char>, Seq<SpecStmt>)>) -> bool {
    forall|i: int| 0 <= i < modules.len() ==> functions_ok(#[trigger] modules[i].1)
}

/// The first pass of a program with modules: structs of type definitions,
/// generic definitions registered, C native blocks and C extern blocks.
pub open spec fn decl_pass(
    defs: Seq<(Seq<char>, GenericDef)>,
    libs: Seq<Seq<char>>,
    ss: Seq<SpecStmt>,
) -> (Seq<char>, Seq<(Seq<char>, GenericDef)>, Seq<Seq<char>>)
    decreases ss.len(),
{
    if ss.len() == 0 {
        (Seq::empty(), defs, libs)
    } else {
        let (t, d1, l1) = decl_step(defs, libs, ss[0]);
        let (rest, d2, l2) = decl_pass(d1, l1, ss.drop_first());
        (t + rest, d2, l2)
    }
}

/// One statement of [`decl_pass`].
pub open spec fn decl_step(
    defs: Seq<(Seq<char>, GenericDef)>,
    libs: Seq<Seq<char>>,
    s: SpecStmt,
) -> (Seq<char>, Seq<(Seq<char>, GenericDef)>, Seq<Seq<char>>) {
    match s {
        SpecStmt::TypeDef { .. } => (typedef_text(s), typedef_defs(defs, s), libs),
        SpecStmt::NativeBlock { language, functions } => if language == "C"@ {
            (natives_text(functions), defs, libs)
        } else {
            (Seq::empty(), defs, libs)
        },
        SpecStmt::ExternBlock { language, functions } => if language == "C"@ {
            (externs_text(functions) + "\n"@, defs, libraries_after(libs, functions))
        } else {
            (Seq::empty(), defs, libs)
        },
        _ => (Seq::empty(), defs, libs),
    }
}

/// The C translation unit of a program compiled with its modules: the
/// header, the module functions it may call, the program's declarations,
/// the generic instances, the functions, and `main`.
pub open spec fn modules_program_text(
    defs: Seq<(Seq<char>, GenericDef)>,
    req: Seq<SpecMonomorph>,
    cache: Seq<(SpecMonomorph, Seq<char>)>,
    libs: Seq<Seq<char>>,
    e: Emitted,
    modules: Seq<(Seq<char>, Seq<SpecStmt>)>,
    ss: Seq<SpecStmt>,
) -> Seq<char> {
    let (e1, with_modules) = module_fns_pass(e, header_text(), all_functions(modules), modules);
    let (decls, defs1, _) = decl_pass(defs, libs, ss);
    let monos = gen_monos(defs1, cache, analyze_stmts(req, ss)).0;
    let e2 = code_pass(e1, ss);
    with_modules + decls + monos + functions_text(e2.functions) + main_wrapper(e2.user_main, e2.gen.main)
}

/// Whether every statement of a program compiles: top-level statements
/// other than type definitions and functions as [`gen_ok`] says, function
/// bodies as [`body_ok`] says.
pub open spec fn program_ok(ss: Seq<SpecStmt>) -> bool {
    forall|i: int|
        0 <= i < ss.len() ==> match #[trigger] ss[i] {
            SpecStmt::TypeDef { .. } => true,
            SpecStmt::Function { body, .. } => body_ok(body),
            s => gen_ok(s),
        }
}

} // verus!
