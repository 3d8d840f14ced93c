use bolt::ast::{BinaryOperator, Expression, Statement, Type};
use bolt::lexer::{Lexer, TokenType};
use bolt::parser::Parser;

fn parse_type_from_string(input: &str) -> Type {
    let mut lexer = Lexer::new(input.to_string());
    let tokens = lexer.tokenize().unwrap();
    let mut parser = Parser::new(tokens);
    parser.parse_type().unwrap()
}

fn parse_statement_from_string(input: &str) -> Statement {
    let mut lexer = Lexer::new(input.to_string());
    let tokens = lexer.tokenize().unwrap();
    let mut parser = Parser::new(tokens);
    parser.parse_statement().unwrap()
}

fn parse_program(input: &str) -> (Vec<Statement>, Parser) {
    let mut lexer = Lexer::new(input.to_string());
    let tokens = lexer.tokenize().unwrap();
    let mut parser = Parser::new(tokens);
    let program = parser.parse().unwrap();
    (program.statements, parser)
}

#[test]
fn test_basic_type_parsing() {
    assert!(matches!(parse_type_from_string("String"), Type::String));
    assert!(matches!(parse_type_from_string("Integer"), Type::Integer));
    assert!(matches!(parse_type_from_string("Bool"), Type::Bool));
}

#[test]
fn test_custom_type_parsing() {
    match parse_type_from_string("MyType") {
        Type::Custom(name) => assert_eq!(name, "MyType"),
        _ => panic!("Expected Custom type"),
    }
}

#[test]
fn test_generic_type_parsing() {
    match parse_type_from_string("Array[Integer]") {
        Type::Generic { name, type_params } => {
            assert_eq!(name, "Array");
            assert_eq!(type_params.len(), 1);
            assert!(matches!(type_params[0], Type::Integer));
        }
        _ => panic!("Expected Generic type"),
    }

    match parse_type_from_string("Map[String, Integer]") {
        Type::Generic { name, type_params } => {
            assert_eq!(name, "Map");
            assert_eq!(type_params.len(), 2);
            assert!(matches!(type_params[0], Type::String));
            assert!(matches!(type_params[1], Type::Integer));
        }
        _ => panic!("Expected Generic type"),
    }
}

#[test]
fn test_nested_generic_type_parsing() {
    match parse_type_from_string("Array[Array[Integer]]") {
        Type::Generic { name, type_params } => {
            assert_eq!(name, "Array");
            assert_eq!(type_params.len(), 1);
            match &type_params[0] {
                Type::Generic { name: inner_name, type_params: inner_params } => {
                    assert_eq!(inner_name, "Array");
                    assert_eq!(inner_params.len(), 1);
                    assert!(matches!(inner_params[0], Type::Integer));
                }
                _ => panic!("Expected nested Generic type"),
            }
        }
        _ => panic!("Expected Generic type"),
    }
}

#[test]
fn test_pointer_type_parsing() {
    match parse_type_from_string("^Integer") {
        Type::Pointer(inner) => assert!(matches!(inner.as_ref(), Type::Integer)),
        _ => panic!("Expected Pointer type"),
    }

    match parse_type_from_string("^Array[String]") {
        Type::Pointer(inner) => match inner.as_ref() {
            Type::Generic { name, type_params } => {
                assert_eq!(name, "Array");
                assert_eq!(type_params.len(), 1);
                assert!(matches!(type_params[0], Type::String));
            }
            _ => panic!("Expected Generic type inside pointer"),
        },
        _ => panic!("Expected Pointer type"),
    }
}

#[test]
fn test_generic_type_definition_parsing() {
    let input = "type Array[T] = { data: ^T, length: Integer }";
    match parse_statement_from_string(input) {
        Statement::TypeDef { name, type_params, fields } => {
            assert_eq!(name, "Array");
            assert_eq!(type_params.len(), 1);
            assert_eq!(type_params[0], "T");
            assert_eq!(fields.len(), 2);

            assert_eq!(fields[0].name, "data");
            match &fields[0].field_type {
                Type::Pointer(inner) => match inner.as_ref() {
                    Type::Custom(param_name) => assert_eq!(param_name, "T"),
                    _ => panic!("Expected Custom type (type parameter) in pointer"),
                },
                _ => panic!("Expected Pointer type for data field"),
            }

            assert_eq!(fields[1].name, "length");
            assert!(matches!(fields[1].field_type, Type::Integer));
        }
        _ => panic!("Expected TypeDef statement"),
    }
}

#[test]
fn test_multi_param_generic_definition() {
    let input = "type Map[K, V] = { keys: Array[K], values: Array[V] }";
    match parse_statement_from_string(input) {
        Statement::TypeDef { name, type_params, fields } => {
            assert_eq!(name, "Map");
            assert_eq!(type_params.len(), 2);
            assert_eq!(type_params[0], "K");
            assert_eq!(type_params[1], "V");
            assert_eq!(fields.len(), 2);

            match &fields[0].field_type {
                Type::Generic { name, type_params } => {
                    assert_eq!(name, "Array");
                    assert_eq!(type_params.len(), 1);
                    match &type_params[0] {
                        Type::Custom(param) => assert_eq!(param, "K"),
                        _ => panic!("Expected type parameter K"),
                    }
                }
                _ => panic!("Expected Generic type for keys field"),
            }

            match &fields[1].field_type {
                Type::Generic { name, type_params } => {
                    assert_eq!(name, "Array");
                    assert_eq!(type_params.len(), 1);
                    match &type_params[0] {
                        Type::Custom(param) => assert_eq!(param, "V"),
                        _ => panic!("Expected type parameter V"),
                    }
                }
                _ => panic!("Expected Generic type for values field"),
            }
        }
        _ => panic!("Expected TypeDef statement"),
    }
}

#[test]
fn binary_operators_group_by_precedence() {
    match parse_statement_from_string("y = 1 + 2 * 3 - 4") {
        Statement::Assignment { variable, value } => {
            assert_eq!(variable, "y");
            match value {
                Expression::BinaryOp { left, operator: BinaryOperator::Subtract, right } => {
                    assert!(matches!(*right, Expression::IntegerLiteral(4)));
                    match *left {
                        Expression::BinaryOp { left: l2, operator: BinaryOperator::Add, right: r2 } => {
                            assert!(matches!(*l2, Expression::IntegerLiteral(1)));
                            assert!(matches!(
                                *r2,
                                Expression::BinaryOp { operator: BinaryOperator::Multiply, .. }
                            ));
                        }
                        _ => panic!("expected an addition on the left"),
                    }
                }
                _ => panic!("expected a subtraction at the top"),
            }
        }
        _ => panic!("expected an assignment"),
    }
}

#[test]
fn declarations_fill_the_symbol_table() {
    let (stmts, parser) = parse_program("var a := 1\nval b: Integer = 2\nfun f(x: Integer): Integer {\n return x\n}\n");
    assert_eq!(stmts.len(), 3);
    let table = parser.symbol_table();
    let a = table.lookup("a").unwrap();
    assert!(table.get_symbol(a).unwrap().is_mutable());
    let b = table.lookup("b").unwrap();
    assert!(!table.get_symbol(b).unwrap().is_mutable());
    assert!(table.lookup("f").is_some());
    // the parameter lives in the function's scope, not the global one
    assert!(table.lookup("x").is_none());
    assert_eq!(table.current_scope(), table.global_scope());
    assert_eq!(table.scope_count(), 2);
}

#[test]
fn redeclaring_in_one_scope_is_a_parse_error() {
    let mut lexer = Lexer::new("var a := 1\nvar a := 2\n".to_string());
    let tokens = lexer.tokenize().unwrap();
    let mut parser = Parser::new(tokens);
    assert!(parser.parse().is_err());
}

#[test]
fn call_struct_literal_and_postfix_forms() {
    match parse_statement_from_string("print(p.x, xs[0], Point { x: 1, y: 2 })") {
        Statement::Expression(Expression::FunctionCall { name, args }) => {
            assert_eq!(name, "print");
            assert_eq!(args.len(), 3);
            assert!(matches!(args[0], Expression::FieldAccess { .. }));
            assert!(matches!(args[1], Expression::ArrayAccess { .. }));
            match &args[2] {
                Expression::StructLiteral { struct_name, type_args, fields } => {
                    assert_eq!(struct_name, "Point");
                    assert!(type_args.is_none());
                    assert_eq!(fields.len(), 2);
                }
                _ => panic!("expected a struct literal"),
            }
        }
        _ => panic!("expected a call statement"),
    }
}

#[test]
fn if_else_and_for_forms() {
    let (stmts, _) = parse_program("if (a < 1) { x = 1 } else if (b) { x = 2 } else { x = 3 }\nfor i in xs { print(i) }\nfor (i < 3) { i = i + 1 }\n");
    assert_eq!(stmts.len(), 3);
    match &stmts[0] {
        Statement::If { else_body: Some(e), .. } => {
            assert_eq!(e.len(), 1);
            assert!(matches!(e[0], Statement::If { else_body: Some(_), .. }));
        }
        _ => panic!("expected if/else"),
    }
    assert!(matches!(stmts[1], Statement::ForIn { .. }));
    assert!(matches!(stmts[2], Statement::ForCondition { .. }));
}

#[test]
fn c_style_for_is_refused() {
    let mut lexer = Lexer::new("for (i := 0; i < 3; i = i + 1) { }".to_string());
    let tokens = lexer.tokenize().unwrap();
    let mut parser = Parser::new(tokens);
    assert!(parser.parse().is_err());
}

#[test]
fn lexer_ends_with_eof_and_counts_lines() {
    let mut lexer = Lexer::new("var x := 42\n\"hi\"".to_string());
    let tokens = lexer.tokenize().unwrap();
    assert!(matches!(tokens[0].token_type, TokenType::Var));
    assert!(matches!(tokens[3].token_type, TokenType::Integer(42)));
    assert!(matches!(tokens[4].token_type, TokenType::Newline));
    match &tokens[5].token_type {
        TokenType::String(s) => assert_eq!(s, "hi"),
        _ => panic!("expected a string token"),
    }
    assert_eq!(tokens[5].line, 2);
    assert!(matches!(tokens[tokens.len() - 1].token_type, TokenType::Eof));
}

#[test]
fn lexer_refuses_unexpected_characters() {
    let mut lexer = Lexer::new("x := 1 # 2".to_string());
    assert!(lexer.tokenize().is_err());
}

#[test]
fn comments_give_no_tokens() {
    let mut lexer = Lexer::new("x // note\n/* c */ y".to_string());
    let tokens = lexer.tokenize().unwrap();
    let types: Vec<TokenType> = tokens.into_iter().map(|t| t.token_type).collect();
    assert_eq!(
        types,
        vec![TokenType::Identifier("x".to_string()), TokenType::Newline, TokenType::Identifier("y".to_string()), TokenType::Eof]
    );
    let mut lexer = Lexer::new("/** Doubles */ \nval a := 6 / 3 // half\n".to_string());
    let types: Vec<TokenType> = lexer.tokenize().unwrap().into_iter().map(|t| t.token_type).collect();
    assert!(types.contains(&TokenType::Slash));
    assert_eq!(types.iter().filter(|t| **t == TokenType::Newline).count(), 2);
}

#[test]
fn if_condition_without_parentheses() {
    let (stmts, _) = parse_program("if n <= 1 {\n    return 1\n} else {\n    return 0\n}");
    assert_eq!(stmts.len(), 1);
    match &stmts[0] {
        Statement::If { condition, then_body, else_body } => {
            assert!(matches!(
                condition,
                Expression::BinaryOp { operator: BinaryOperator::LessEqual, left, right }
                    if matches!(**left, Expression::Identifier(ref n) if n == "n")
                        && matches!(**right, Expression::IntegerLiteral(1))
            ));
            assert!(matches!(then_body.as_slice(), [Statement::Return(Some(Expression::IntegerLiteral(1)))]));
            assert!(matches!(
                else_body.as_deref(),
                Some([Statement::Return(Some(Expression::IntegerLiteral(0)))])
            ));
        },
        other => panic!("unexpected {:?}", other),
    }
}

#[test]
fn statements_clone_to_equal_copies() {
    let (stmts, _) = parse_program("fun f(a: Integer): Integer {\n    if (a < 1) { return Box[Integer] { value: a } }\n    return a\n}\n");
    let copy: Vec<Statement> = stmts.iter().map(|s| s.clone()).collect();
    assert_eq!(format!("{:?}", copy), format!("{:?}", stmts));
}
