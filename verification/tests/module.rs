use bolt::ast::{Expression, Field, Program, Statement, Type};
use bolt::c_codegen::check::{body_compiles, functions_compile, program_compiles, statement_compiles, statements_compile};
use bolt::c_codegen::CCodeGen;
use bolt::lexer::Lexer;
use bolt::module::{ImportStep, ModuleSystem};
use bolt::parser::Parser;

fn parse(source: &str) -> Program {
    let mut lexer = Lexer::new(source.to_string());
    let tokens = lexer.tokenize().unwrap();
    let mut parser = Parser::new(tokens);
    parser.parse().unwrap()
}

const MATH: &str = "fun max(a: Integer, b: Integer): Integer {\n    return a\n}\nexport max\nfun helper(): Integer {\n    return 1\n}\n";

#[test]
fn test_module_file_paths() {
    assert_eq!(ModuleSystem::module_file_path("bolt:stdio"), "std/stdio.bolt");
    assert_eq!(ModuleSystem::module_file_path("lib/util.bolt"), "lib/util.bolt");
    assert_eq!(ModuleSystem::module_file_path("lib/util"), "lib/util.bolt");
    assert_eq!(ModuleSystem::module_file_path("bolt:"), "std/.bolt");
}

#[test]
fn test_load_module_source_keeps_program_and_exports() {
    let mut ms = ModuleSystem::new();
    assert!(ms.load_module_source("bolt:math", MATH.to_string()).is_ok());
    let program = ms.get_module("bolt:math").unwrap();
    assert_eq!(program.statements.len(), 3);
    let exports = ms.get_exports("bolt:math").unwrap();
    assert_eq!(exports.functions, vec!["max".to_string()]);
    assert!(exports.types.is_empty());
    assert!(exports.variables.is_empty());
    assert!(ms.get_module("bolt:other").is_none());
}

#[test]
fn test_load_module_twice_keeps_first() {
    let mut ms = ModuleSystem::new();
    ms.load_module_source("m", MATH.to_string()).unwrap();
    // A loaded module is not read again: even a broken source is ignored.
    assert!(ms.load_module_source("m", "fun (".to_string()).is_ok());
    assert_eq!(ms.get_module("m").unwrap().statements.len(), 3);
}

#[test]
fn test_load_module_parse_error() {
    let mut ms = ModuleSystem::new();
    assert!(ms.load_module_source("bad", "fun (".to_string()).is_err());
    assert!(ms.get_module("bad").is_none());
    assert!(ms.get_exports("bad").is_none());
}

#[test]
fn test_resolve_imports_asks_for_missing_modules() {
    let mut ms = ModuleSystem::new();
    let main = parse("import { max } from \"bolt:math\"\nimport math from \"bolt:math\"\n");
    match ms.resolve_imports(&main, 0) {
        ImportStep::Load { index, path } => {
            assert_eq!(index, 0);
            assert_eq!(path, "bolt:math");
        },
        _ => panic!("expected a module to load"),
    }
    ms.load_module_source("bolt:math", MATH.to_string()).unwrap();
    assert!(matches!(ms.resolve_imports(&main, 0), ImportStep::Done));
    assert_eq!(ms.get_resolved_import("bolt:math"), Some(&vec!["max".to_string()]));
    assert_eq!(ms.get_resolved_import("math:bolt:math"), Some(&vec!["max".to_string()]));
}

#[test]
fn test_get_all_functions() {
    let mut ms = ModuleSystem::new();
    ms.load_module_source("bolt:math", MATH.to_string()).unwrap();
    let all = ms.get_all_functions();
    assert_eq!(all.len(), 2);
    assert_eq!(all.get("max"), Some(&"bolt:math".to_string()));
    assert_eq!(all.get("helper"), Some(&"bolt:math".to_string()));
}

#[test]
fn test_compile_program_with_modules() {
    let mut ms = ModuleSystem::new();
    ms.load_module_source("bolt:math", MATH.to_string()).unwrap();
    let main = parse("import { max } from \"bolt:math\"\nval x := max(1, 2)\n");
    assert!(matches!(ms.resolve_imports(&main, 0), ImportStep::Done));
    let mut codegen = CCodeGen::new();
    let result = codegen.compile_program_with_modules(main, &ms);
    assert!(result.contains("int max(int a, int b) {\n    return a;\n}\n"));
    assert!(result.contains("int helper() {\n    return 1;\n}\n"));
    assert!(result.contains("    int x = max(1, 2);\n"));
    assert!(matches!(
        codegen.functions.len(),
        2
    ));
}

#[test]
fn test_native_block_with_modules() {
    let ms = ModuleSystem::new();
    let main = Program { statements: vec![Statement::Export { item: "f".to_string() }] };
    let mut codegen = CCodeGen::new();
    let result = codegen.compile_program_with_modules(main, &ms);
    assert!(result.ends_with("int main(int argc, char* argv[]) {\n    bolt_argc = argc;\n    bolt_argv = argv;\n    return 0;\n}\n"));
}

fn c_style_for() -> Statement {
    Statement::ForLoop { init: None, condition: None, update: None, body: vec![] }
}

fn for_in_call(name: &str, arg: Expression) -> Statement {
    Statement::ForIn {
        variable: "x".to_string(),
        iterable: Expression::FunctionCall { name: name.to_string(), args: vec![arg] },
        body: vec![],
    }
}

fn function(body: Vec<Statement>) -> Statement {
    Statement::Function { name: "f".to_string(), params: vec![], return_type: None, body, exported: false }
}

#[test]
fn test_statements_the_generator_compiles() {
    assert!(!statement_compiles(&c_style_for()));
    assert!(statement_compiles(&for_in_call("iterate", Expression::Identifier("xs".to_string()))));
    assert!(!statement_compiles(&for_in_call("iterate", Expression::IntegerLiteral(1))));
    assert!(!statement_compiles(&for_in_call("other", Expression::Identifier("xs".to_string()))));
    let nested = Statement::If {
        condition: Expression::BoolLiteral(true),
        then_body: vec![Statement::Return(None)],
        else_body: Some(vec![c_style_for()]),
    };
    assert!(!statement_compiles(&nested));
    assert!(statements_compile(&vec![Statement::Return(None), Statement::Export { item: "f".to_string() }]));
    assert!(!statements_compile(&vec![Statement::Return(None), c_style_for()]));
    assert!(body_compiles(&vec![Statement::Return(None)]));
    assert!(!body_compiles(&vec![c_style_for()]));
}

#[test]
fn test_programs_the_generator_compiles() {
    assert!(program_compiles(&parse("val x := 1\nfun g(): Integer {\n    return 1\n}\n").statements));
    assert!(!program_compiles(&vec![c_style_for()]));
    assert!(!program_compiles(&vec![function(vec![c_style_for()])]));
    assert!(functions_compile(&vec![c_style_for()]));
    assert!(!functions_compile(&vec![function(vec![c_style_for()])]));
    let mut ms = ModuleSystem::new();
    assert!(ms.modules_compile());
    ms.load_module_source("bolt:math", MATH.to_string()).unwrap();
    assert!(ms.modules_compile());
}

fn box_literal() -> Statement {
    Statement::ValDecl {
        name: "b".to_string(),
        type_annotation: None,
        value: Expression::StructLiteral {
            struct_name: "Box".to_string(),
            type_args: Some(vec![Type::Integer]),
            fields: vec![],
        },
    }
}

#[test]
fn test_undefined_generic_type() {
    let program = Program { statements: vec![box_literal()] };
    assert_eq!(CCodeGen::new().undefined_generic_type(&program), Some("Box".to_string()));
    let defined = Program {
        statements: vec![
            Statement::TypeDef {
                name: "Box".to_string(),
                type_params: vec!["T".to_string()],
                fields: vec![Field { name: "value".to_string(), field_type: Type::Custom("T".to_string()) }],
            },
            box_literal(),
        ],
    };
    assert_eq!(CCodeGen::new().undefined_generic_type(&defined), None);
    assert_eq!(CCodeGen::new().undefined_generic_type(&Program { statements: vec![] }), None);
}

#[test]
fn test_export_fun_is_exported() {
    let mut ms = ModuleSystem::new();
    ms.load_module_source("lib", "export fun twice(x: Integer): Integer {\n  return x * 2\n}\nfun hidden(): Integer {\n  return 1\n}\n".to_string())
        .unwrap();
    let main = parse("import { twice } from \"lib\"\n");
    assert!(matches!(ms.resolve_imports(&main, 0), ImportStep::Done));
    assert!(ms.get_module("lib").is_some());
    assert_eq!(ms.get_exports("lib").unwrap().functions, vec!["twice".to_string()]);
}
