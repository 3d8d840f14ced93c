use bolt::ast::{BinaryOperator, Expression, Statement, StructField, Type, UnaryOperator};
use bolt::codegen::expressions::ExpressionCompiler;
use bolt::codegen::statements::StatementCompiler;
use bolt::name_map::NameMap;

#[test]
fn plain_expressions() {
    let vars: NameMap<String> = NameMap::new();
    let c = ExpressionCompiler::new(&vars);
    assert_eq!(c.compile_to_string(Expression::IntegerLiteral(-7)), "-7");
    assert_eq!(c.compile_to_string(Expression::StringLiteral("hi".to_string())), "\"hi\"");
    assert_eq!(c.compile_to_string(Expression::BoolLiteral(true)), "1");
    let sum = Expression::BinaryOp {
        left: Box::new(Expression::Identifier("a".to_string())),
        operator: BinaryOperator::LessEqual,
        right: Box::new(Expression::IntegerLiteral(2)),
    };
    assert_eq!(c.compile_to_string(sum), "(a <= 2)");
    let not = Expression::UnaryOp { operator: UnaryOperator::Not, operand: Box::new(Expression::Identifier("b".to_string())) };
    assert_eq!(c.compile_to_string(not), "(!b)");
    let call = Expression::FunctionCall {
        name: "f".to_string(),
        args: vec![Expression::IntegerLiteral(1), Expression::Identifier("x".to_string())],
    };
    assert_eq!(c.compile_to_string(call), "f(1, x)");
    let field = Expression::FieldAccess { object: Box::new(Expression::Identifier("p".to_string())), field: "x".to_string() };
    assert_eq!(c.compile_to_string(field), "p.x");
    let index = Expression::ArrayAccess {
        array: Box::new(Expression::Identifier("v".to_string())),
        index: Box::new(Expression::IntegerLiteral(0)),
    };
    assert_eq!(c.compile_to_string(index), "v[0]");
    let lit = Expression::StructLiteral {
        struct_name: "Point".to_string(),
        type_args: None,
        fields: vec![
            StructField { name: "x".to_string(), value: Expression::IntegerLiteral(1) },
            StructField { name: "y".to_string(), value: Expression::IntegerLiteral(2) },
        ],
    };
    assert_eq!(c.compile_to_string(lit), "((Point) {.x = 1, .y = 2})");
    let addr = Expression::AddressOf { operand: Box::new(Expression::Identifier("x".to_string())) };
    assert_eq!(c.compile_to_string(addr), "0");
}

#[test]
fn print_statements_by_kind() {
    let mut vars: NameMap<String> = NameMap::new();
    vars.insert("s".to_string(), "string".to_string());
    vars.insert("b".to_string(), "bool".to_string());
    let c = ExpressionCompiler::new(&vars);
    assert_eq!(c.generate_print_statement(&Expression::StringLiteral("hi".to_string())), "    printf(\"%s\\n\", \"hi\");\n");
    assert_eq!(c.generate_print_statement(&Expression::IntegerLiteral(3)), "    printf(\"%d\\n\", 3);\n");
    assert_eq!(c.generate_print_statement(&Expression::BoolLiteral(false)), "    printf(\"%s\\n\", \"false\");\n");
    assert_eq!(c.generate_print_statement(&Expression::Identifier("s".to_string())), "    printf(\"%s\\n\", s);\n");
    assert_eq!(
        c.generate_print_statement(&Expression::Identifier("b".to_string())),
        "    printf(\"%s\\n\", b ? \"true\" : \"false\");\n"
    );
    assert_eq!(c.generate_print_statement(&Expression::Identifier("n".to_string())), "    printf(\"%d\\n\", n);\n");
}

#[test]
fn statement_compiler_declarations_and_if() {
    let mut vars: NameMap<String> = NameMap::new();
    let mut code = String::new();
    {
        let mut sc = StatementCompiler::new(&mut vars, &mut code);
        sc.compile_var_decl("x", &Some(Type::Integer), &Expression::IntegerLiteral(1));
        sc.compile_val_decl("s", &None, &Expression::StringLiteral("t".to_string()));
        sc.compile_assignment("x", &Expression::IntegerLiteral(2));
        let then_body = vec![Statement::Return(Some(Expression::Identifier("x".to_string())))];
        let else_body = vec![Statement::Expression(Expression::NamespacedFunctionCall {
            namespace: "stdio".to_string(),
            function: "print".to_string(),
            args: vec![Expression::Identifier("s".to_string())],
        })];
        sc.compile_if(&Expression::BoolLiteral(true), &then_body, &else_body);
        sc.compile_return(&None);
    }
    assert_eq!(
        code,
        "    int x = 1;\n    char* s = \"t\";\n    x = 2;\n    if (1) {\n        return x;\n    } else {\n    printf(\"%s\\n\", s);\n    }\n    return;\n"
    );
    assert_eq!(vars.get("x"), Some(&"int".to_string()));
    assert_eq!(vars.get("s"), Some(&"char*".to_string()));
}

#[test]
fn statement_with_indent_unhandled() {
    let mut vars: NameMap<String> = NameMap::new();
    let mut code = String::new();
    {
        let mut sc = StatementCompiler::new(&mut vars, &mut code);
        sc.compile_statement_with_indent(&Statement::Export { item: "f".to_string() }, "  ");
    }
    assert_eq!(code, "      /* Unhandled statement type */;\n");
}
