use bolt::ast::{BinaryOperator, Expression, Field, Parameter, Program, Statement, Type};
use bolt::c_codegen::CCodeGen;

fn setup_codegen() -> CCodeGen {
    CCodeGen::new()
}

#[test]
fn test_getargs_function_call() {
    let mut codegen = setup_codegen();

    let expr = Expression::FunctionCall {
        name: "getArgs".to_string(),
        args: vec![],
    };

    let result = codegen.compile_expression_to_string(expr);
    assert_eq!(result, "getArgs()");
}

#[test]
fn test_tostring_function_call() {
    let mut codegen = setup_codegen();

    let expr = Expression::FunctionCall {
        name: "toString".to_string(),
        args: vec![Expression::IntegerLiteral(42)],
    };

    let result = codegen.compile_expression_to_string(expr);
    assert_eq!(result, "toString(42)");
}

#[test]
fn test_getargs_length_property() {
    let mut codegen = setup_codegen();
    // Register getArgs as getargs type
    codegen
        .variables
        .insert("args".to_string(), "getargs".to_string());

    let expr = Expression::FieldAccess {
        object: Box::new(Expression::Identifier("args".to_string())),
        field: "length".to_string(),
    };

    let result = codegen.compile_expression_to_string(expr);
    assert_eq!(result, "getArgsLength()");
}

#[test]
fn test_array_length_property() {
    let mut codegen = setup_codegen();
    // Register array with known length
    codegen.array_lengths.insert("numbers".to_string(), 5);

    let expr = Expression::FieldAccess {
        object: Box::new(Expression::Identifier("numbers".to_string())),
        field: "length".to_string(),
    };

    let result = codegen.compile_expression_to_string(expr);
    assert_eq!(result, "5");
}

#[test]
fn test_string_length_property() {
    let mut codegen = setup_codegen();
    // Register string variable
    codegen
        .variables
        .insert("name".to_string(), "string".to_string());

    let expr = Expression::FieldAccess {
        object: Box::new(Expression::Identifier("name".to_string())),
        field: "length".to_string(),
    };

    let result = codegen.compile_expression_to_string(expr);
    assert_eq!(result, "strlen(name)");
}

#[test]
fn test_string_literal_length() {
    let mut codegen = setup_codegen();

    let expr = Expression::FieldAccess {
        object: Box::new(Expression::StringLiteral("hello".to_string())),
        field: "length".to_string(),
    };

    let result = codegen.compile_expression_to_string(expr);
    assert_eq!(result, "5");
}

#[test]
fn test_compile_program_includes_getargs_helpers() {
    let mut codegen = setup_codegen();
    let program = Program { statements: vec![] };

    let result = codegen.compile_program(program);

    // Check that helper functions are included
    assert!(result.contains("int bolt_argc;"));
    assert!(result.contains("char** bolt_argv;"));
    assert!(result.contains("char** getArgs() {"));
    assert!(result.contains("int getArgsLength() {"));
    assert!(result.contains("return bolt_argv;"));
    assert!(result.contains("return bolt_argc;"));
}

#[test]
fn test_main_function_sets_globals() {
    let mut codegen = setup_codegen();
    let program = Program { statements: vec![] };

    let result = codegen.compile_program(program);

    // Check that main function sets global variables
    assert!(result.contains("int main(int argc, char* argv[]) {"));
    assert!(result.contains("bolt_argc = argc;"));
    assert!(result.contains("bolt_argv = argv;"));
}

#[test]
fn test_getargs_variable_type_tracking() {
    let mut codegen = setup_codegen();

    let val_decl = Statement::ValDecl {
        name: "args".to_string(),
        type_annotation: None,
        value: Expression::FunctionCall {
            name: "getArgs".to_string(),
            args: vec![],
        },
    };

    codegen.compile_main_statement(val_decl);

    // Check that getArgs result is tracked as getargs type
    assert_eq!(codegen.variables.get("args"), Some(&"getargs".to_string()));
    assert!(codegen.main_code.contains("char** args = getArgs();"));
}

#[test]
fn test_for_in_getargs_compilation() {
    let mut codegen = setup_codegen();
    // First declare args variable
    codegen
        .variables
        .insert("args".to_string(), "getargs".to_string());

    let for_in = Statement::ForIn {
        variable: "arg".to_string(),
        iterable: Expression::Identifier("args".to_string()),
        body: vec![Statement::Expression(Expression::NamespacedFunctionCall {
            namespace: "stdio".to_string(),
            function: "print".to_string(),
            args: vec![Expression::Identifier("arg".to_string())],
        })],
    };

    codegen.compile_main_statement(for_in);

    // Check for-in loop with getArgsLength()
    assert!(codegen.main_code.contains("getArgsLength()"));
    assert!(codegen.main_code.contains("char* arg = args["));
    assert!(codegen.main_code.contains("printf(\"%s\\n\", arg);"));
}

#[test]
fn test_toString_variable_type_tracking() {
    let mut codegen = setup_codegen();

    let val_decl = Statement::ValDecl {
        name: "numStr".to_string(),
        type_annotation: None,
        value: Expression::FunctionCall {
            name: "toString".to_string(),
            args: vec![Expression::IntegerLiteral(42)],
        },
    };

    codegen.compile_main_statement(val_decl);

    // Check that toString result is tracked as string type
    assert_eq!(codegen.variables.get("numStr"), Some(&"string".to_string()));
    assert!(codegen.main_code.contains("char* numStr = toString(42);"));
}

#[test]
fn test_nested_length_property() {
    let mut codegen = setup_codegen();
    codegen
        .variables
        .insert("args".to_string(), "getargs".to_string());

    // Test toString(args.length)
    let expr = Expression::FunctionCall {
        name: "toString".to_string(),
        args: vec![Expression::FieldAccess {
            object: Box::new(Expression::Identifier("args".to_string())),
            field: "length".to_string(),
        }],
    };

    let result = codegen.compile_expression_to_string(expr);
    assert_eq!(result, "toString(getArgsLength())");
}

#[test]
fn test_readfile_function_call() {
    let mut codegen = setup_codegen();

    let expr = Expression::FunctionCall {
        name: "readFile".to_string(),
        args: vec![Expression::StringLiteral("test.txt".to_string())],
    };

    let result = codegen.compile_expression_to_string(expr);
    assert_eq!(result, "readFile(\"test.txt\")");
}

#[test]
fn test_writefile_function_call() {
    let mut codegen = setup_codegen();

    let expr = Expression::FunctionCall {
        name: "writeFile".to_string(),
        args: vec![
            Expression::StringLiteral("output.txt".to_string()),
            Expression::StringLiteral("Hello, World!".to_string()),
        ],
    };

    let result = codegen.compile_expression_to_string(expr);
    assert_eq!(result, "writeFile(\"output.txt\", \"Hello, World!\")");
}

#[test]
fn test_file_io_variable_assignments() {
    let mut codegen = setup_codegen();

    // Test readFile assignment
    let read_decl = Statement::ValDecl {
        name: "content".to_string(),
        type_annotation: None,
        value: Expression::FunctionCall {
            name: "readFile".to_string(),
            args: vec![Expression::StringLiteral("input.txt".to_string())],
        },
    };

    codegen.compile_main_statement(read_decl);

    // Check that readFile result is tracked as string type
    assert_eq!(
        codegen.variables.get("content"),
        Some(&"string".to_string())
    );
    assert!(codegen
        .main_code
        .contains("char* content = readFile(\"input.txt\");"));

    // Test writeFile assignment
    let write_decl = Statement::ValDecl {
        name: "success".to_string(),
        type_annotation: None,
        value: Expression::FunctionCall {
            name: "writeFile".to_string(),
            args: vec![
                Expression::StringLiteral("output.txt".to_string()),
                Expression::StringLiteral("test content".to_string()),
            ],
        },
    };

    codegen.compile_main_statement(write_decl);

    // Check that writeFile result is tracked as bool type
    assert_eq!(codegen.variables.get("success"), Some(&"bool".to_string()));
    assert!(codegen
        .main_code
        .contains("int success = writeFile(\"output.txt\", \"test content\");"));
}

#[test]
fn test_file_exists_and_delete_functions() {
    let mut codegen = setup_codegen();

    // Test fileExists
    let exists_expr = Expression::FunctionCall {
        name: "fileExists".to_string(),
        args: vec![Expression::StringLiteral("test.txt".to_string())],
    };

    let result = codegen.compile_expression_to_string(exists_expr);
    assert_eq!(result, "fileExists(\"test.txt\")");

    // Test deleteFile
    let delete_expr = Expression::FunctionCall {
        name: "deleteFile".to_string(),
        args: vec![Expression::StringLiteral("temp.txt".to_string())],
    };

    let result = codegen.compile_expression_to_string(delete_expr);
    assert_eq!(result, "deleteFile(\"temp.txt\")");
}

#[test]
fn test_string_utility_functions() {
    let mut codegen = setup_codegen();

    // Test length function
    let length_expr = Expression::FunctionCall {
        name: "length".to_string(),
        args: vec![Expression::StringLiteral("hello".to_string())],
    };
    assert_eq!(
        codegen.compile_expression_to_string(length_expr),
        "length(\"hello\")"
    );

    // Test concat function
    let concat_expr = Expression::FunctionCall {
        name: "concat".to_string(),
        args: vec![
            Expression::StringLiteral("hello".to_string()),
            Expression::StringLiteral(" world".to_string()),
        ],
    };
    assert_eq!(
        codegen.compile_expression_to_string(concat_expr),
        "concat(\"hello\", \" world\")"
    );

    // Test indexOf function
    let indexof_expr = Expression::FunctionCall {
        name: "indexOf".to_string(),
        args: vec![
            Expression::StringLiteral("hello world".to_string()),
            Expression::StringLiteral("world".to_string()),
        ],
    };
    assert_eq!(
        codegen.compile_expression_to_string(indexof_expr),
        "indexOf(\"hello world\", \"world\")"
    );

    // Test contains function
    let contains_expr = Expression::FunctionCall {
        name: "contains".to_string(),
        args: vec![
            Expression::StringLiteral("hello world".to_string()),
            Expression::StringLiteral("world".to_string()),
        ],
    };
    assert_eq!(
        codegen.compile_expression_to_string(contains_expr),
        "contains(\"hello world\", \"world\")"
    );

    // Test trim function
    let trim_expr = Expression::FunctionCall {
        name: "trim".to_string(),
        args: vec![Expression::StringLiteral("  hello world  ".to_string())],
    };
    assert_eq!(
        codegen.compile_expression_to_string(trim_expr),
        "trim(\"  hello world  \")"
    );
}

#[test]
fn test_string_utility_variable_assignments() {
    let mut codegen = setup_codegen();

    // Test concat assignment
    let concat_decl = Statement::ValDecl {
        name: "result".to_string(),
        type_annotation: None,
        value: Expression::FunctionCall {
            name: "concat".to_string(),
            args: vec![
                Expression::StringLiteral("Hello, ".to_string()),
                Expression::StringLiteral("World!".to_string()),
            ],
        },
    };

    codegen.compile_main_statement(concat_decl);

    // Check that concat result is tracked as string type
    assert_eq!(codegen.variables.get("result"), Some(&"string".to_string()));
    assert!(codegen
        .main_code
        .contains("char* result = concat(\"Hello, \", \"World!\");"));

    // Test length assignment
    let length_decl = Statement::ValDecl {
        name: "len".to_string(),
        type_annotation: None,
        value: Expression::FunctionCall {
            name: "length".to_string(),
            args: vec![Expression::StringLiteral("test".to_string())],
        },
    };

    codegen.compile_main_statement(length_decl);

    // Check that length result is tracked as int type
    assert_eq!(codegen.variables.get("len"), Some(&"int".to_string()));
    assert!(codegen.main_code.contains("int len = length(\"test\");"));

    // Test contains assignment
    let contains_decl = Statement::ValDecl {
        name: "found".to_string(),
        type_annotation: None,
        value: Expression::FunctionCall {
            name: "contains".to_string(),
            args: vec![
                Expression::StringLiteral("hello world".to_string()),
                Expression::StringLiteral("world".to_string()),
            ],
        },
    };

    codegen.compile_main_statement(contains_decl);

    // Check that contains result is tracked as bool type
    assert_eq!(codegen.variables.get("found"), Some(&"bool".to_string()));
    assert!(codegen
        .main_code
        .contains("int found = contains(\"hello world\", \"world\");"));
}

fn int_field(name: &str) -> Field {
    Field { name: name.to_string(), field_type: Type::Integer }
}

#[test]
fn test_plain_and_generic_type_definitions() {
    let mut codegen = setup_codegen();
    let program = Program {
        statements: vec![
            Statement::TypeDef { name: "Point".to_string(), type_params: vec![], fields: vec![int_field("x"), int_field("y")] },
            Statement::TypeDef {
                name: "Box".to_string(),
                type_params: vec!["T".to_string()],
                fields: vec![Field { name: "value".to_string(), field_type: Type::Custom("T".to_string()) }],
            },
            Statement::ValDecl {
                name: "b".to_string(),
                type_annotation: Some(Type::Generic { name: "Box".to_string(), type_params: vec![Type::Integer] }),
                value: Expression::IntegerLiteral(1),
            },
        ],
    };
    let result = codegen.compile_program(program);
    let point = "typedef struct {\n    int x;\n    int y;\n} Point;\n\n";
    let boxed = "typedef struct {\n    int value;\n} Box_Integer;\n\n";
    let p = result.find(point).expect("plain struct");
    let b = result.find(boxed).expect("instance struct");
    let m = result.find("int main(int argc, char* argv[]) {").unwrap();
    assert!(p < b && b < m);
    assert!(result.contains("    int b = 1;\n    return 0;\n}\n"));
    // The generic definition itself produces no struct.
    assert!(!result.contains("} Box;"));
}

#[test]
fn test_user_main_and_functions() {
    let mut codegen = setup_codegen();
    let add = Statement::Function {
        name: "add".to_string(),
        params: vec![
            Parameter { name: "a".to_string(), param_type: Type::Integer },
            Parameter { name: "b".to_string(), param_type: Type::Integer },
        ],
        return_type: Some(Type::Integer),
        body: vec![Statement::Return(Some(Expression::BinaryOp {
            left: Box::new(Expression::Identifier("a".to_string())),
            operator: BinaryOperator::Add,
            right: Box::new(Expression::Identifier("b".to_string())),
        }))],
        exported: false,
    };
    let main = Statement::Function {
        name: "main".to_string(),
        params: vec![],
        return_type: None,
        body: vec![Statement::Return(None)],
        exported: false,
    };
    let program = Program { statements: vec![add, main] };
    let result = codegen.compile_program(program);
    assert!(result.contains("int add(int a, int b) {\n    return (a + b);\n}\n\n"));
    assert!(result.contains("void bolt_main() {\n    return;\n}\n\n"));
    assert!(result.ends_with("    bolt_argv = argv;\n    bolt_main();\n    return 0;\n}\n"));
    assert!(codegen.has_user_main);
    assert_eq!(codegen.functions.len(), 2);
}

#[test]
fn test_print_functions_are_not_redefined() {
    let mut codegen = setup_codegen();
    let print = Statement::Function {
        name: "print".to_string(),
        params: vec![],
        return_type: None,
        body: vec![],
        exported: false,
    };
    let result = codegen.compile_program(Program { statements: vec![print] });
    assert!(codegen.functions.is_empty());
    assert!(!codegen.has_user_main);
    assert!(result.ends_with("    bolt_argv = argv;\n    return 0;\n}\n"));
}

#[test]
fn test_empty_program_is_header_and_main() {
    let mut codegen = setup_codegen();
    let result = codegen.compile_program(Program { statements: vec![] });
    assert!(result.starts_with("#include <stdio.h>\n#include <string.h>\n#include <stdlib.h>\n\n"));
    assert!(result.ends_with(
        "}\n\nint main(int argc, char* argv[]) {\n    bolt_argc = argc;\n    bolt_argv = argv;\n    return 0;\n}\n"
    ));
}

#[test]
fn test_each_generic_instance_is_generated_once() {
    let mut codegen = setup_codegen();
    let boxed = |name: &str| Statement::ValDecl {
        name: name.to_string(),
        type_annotation: Some(Type::Generic { name: "Box".to_string(), type_params: vec![Type::Integer] }),
        value: Expression::IntegerLiteral(1),
    };
    let program = Program {
        statements: vec![
            Statement::TypeDef {
                name: "Box".to_string(),
                type_params: vec!["T".to_string()],
                fields: vec![Field { name: "value".to_string(), field_type: Type::Custom("T".to_string()) }],
            },
            boxed("a"),
            boxed("b"),
        ],
    };
    let result = codegen.compile_program(program);
    assert_eq!(codegen.required_monomorphs.len(), 1);
    assert_eq!(result.matches("} Box_Integer;").count(), 1);
}
