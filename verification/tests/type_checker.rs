use bolt::ast::{BinaryOperator, Expression, Program, Statement, Type};
use bolt::lexer::Lexer;
use bolt::parser::Parser;
use bolt::type_checker::TypeChecker;

fn parse(source: &str) -> Program {
    let mut lexer = Lexer::new(source.to_string());
    let tokens = lexer.tokenize().unwrap();
    let mut parser = Parser::new(tokens);
    parser.parse().unwrap()
}

fn messages(checker: &TypeChecker) -> Vec<String> {
    checker.get_errors().iter().map(|e| e.message.clone()).collect()
}

#[test]
fn builtins_are_known() {
    let checker = TypeChecker::new();
    let sig = checker.get_function_signature("concat").unwrap();
    assert_eq!(sig.params.len(), 2);
    assert!(sig.is_native);
    assert!(!sig.is_extern);
    assert_eq!(sig.return_type, Some(Type::String));
    let print = checker.get_function_signature("print").unwrap();
    assert!(!print.is_native);
    assert_eq!(print.return_type, None);
    assert_eq!(checker.get_all_functions().len(), 12);
    assert!(checker.get_function_signature("nothing").is_none());
    assert_eq!(checker.get_all_variables().len(), 0);
}

#[test]
fn well_typed_program_passes() {
    let mut checker = TypeChecker::default();
    let program = parse("val x: Integer = 1 + 2\nval s := concat(\"a\", \"b\")\nval n := length(s)\n");
    assert!(checker.check_program(&program).is_ok());
    assert_eq!(checker.get_variable_type("x"), Some(&Type::Integer));
    assert_eq!(checker.get_variable_type("s"), Some(&Type::String));
    assert_eq!(checker.get_variable_type("n"), Some(&Type::Integer));
}

#[test]
fn declared_type_mismatch_is_reported() {
    let mut checker = TypeChecker::new();
    let program = parse("val x: Integer = \"text\"\n");
    let errors = checker.check_program(&program).unwrap_err();
    assert_eq!(errors.len(), 1);
    assert_eq!(errors[0].message, "Type mismatch: variable 'x' declared as Integer, but assigned String");
    assert_eq!(errors[0].line, 0);
    assert_eq!(errors[0].column, 0);
    // The variable is not recorded.
    assert!(checker.get_variable_type("x").is_none());
}

#[test]
fn undefined_names_are_reported() {
    let mut checker = TypeChecker::new();
    let program = Program {
        statements: vec![
            Statement::Expression(Expression::Identifier("ghost".to_string())),
            Statement::Expression(Expression::FunctionCall { name: "nope".to_string(), args: vec![] }),
            Statement::Assignment { variable: "y".to_string(), value: Expression::IntegerLiteral(1) },
        ],
    };
    assert!(checker.check_program(&program).is_err());
    assert_eq!(
        messages(&checker),
        vec![
            "Undefined variable: 'ghost'".to_string(),
            "Undefined function: 'nope'".to_string(),
            "Undefined variable: 'y'".to_string(),
        ]
    );
}

#[test]
fn call_arguments_are_checked() {
    let mut checker = TypeChecker::new();
    let program = Program {
        statements: vec![
            Statement::Expression(Expression::FunctionCall {
                name: "length".to_string(),
                args: vec![Expression::IntegerLiteral(3)],
            }),
            Statement::Expression(Expression::FunctionCall { name: "concat".to_string(), args: vec![] }),
        ],
    };
    assert!(checker.check_program(&program).is_err());
    assert_eq!(
        messages(&checker),
        vec![
            "Function 'length' parameter 's' expects String, found Integer".to_string(),
            "Function 'concat' expects 2 arguments, found 0".to_string(),
        ]
    );
}

#[test]
fn operators_and_arrays_are_checked() {
    let mut checker = TypeChecker::new();
    let program = Program {
        statements: vec![
            Statement::Expression(Expression::BinaryOp {
                left: Box::new(Expression::BoolLiteral(true)),
                operator: BinaryOperator::Add,
                right: Box::new(Expression::IntegerLiteral(1)),
            }),
            Statement::ValDecl {
                name: "a".to_string(),
                type_annotation: None,
                value: Expression::ArrayLiteral(vec![Expression::IntegerLiteral(1), Expression::StringLiteral("x".to_string())]),
            },
            Statement::ForIn {
                variable: "i".to_string(),
                iterable: Expression::IntegerLiteral(3),
                body: vec![],
            },
        ],
    };
    assert!(checker.check_program(&program).is_err());
    assert_eq!(
        messages(&checker),
        vec![
            "Arithmetic operation requires Integer operands, found Bool and Integer".to_string(),
            "Array element 1 has type String, expected Integer".to_string(),
            "Cannot iterate over Integer, expected Array".to_string(),
        ]
    );
    assert_eq!(checker.get_variable_type("a"), Some(&Type::Array(Box::new(Type::Integer))));
}

#[test]
fn functions_are_collected_before_checking() {
    let mut checker = TypeChecker::new();
    let program = parse("val r := twice(2)\nfun twice(n: Integer): Integer {\n    return n * 2\n}\n");
    // Parameters are not recorded as variables: the body's use of `n` is
    // reported, and the product is then of a `String` and an `Integer`.
    let result = checker.check_program(&program);
    assert_eq!(checker.get_variable_type("r"), Some(&Type::Integer));
    assert!(checker.get_function_signature("twice").is_some());
    assert_eq!(
        messages(&checker),
        vec![
            "Undefined variable: 'n'".to_string(),
            "Arithmetic operation requires Integer operands, found String and Integer".to_string(),
        ]
    );
    assert!(result.is_err());
}

#[test]
fn if_condition_must_be_bool() {
    let mut checker = TypeChecker::new();
    let program = Program {
        statements: vec![Statement::If {
            condition: Expression::IntegerLiteral(1),
            then_body: vec![],
            else_body: None,
        }],
    };
    let errors = checker.check_program(&program).unwrap_err();
    assert_eq!(errors[0].message, "If condition must be boolean, found Integer");
}

#[test]
fn mismatch_messages_spell_types_as_debug_does() {
    let mut checker = TypeChecker::new();
    let program = parse("val p: Point = 1\nval b: Box[Integer] = 2\n");
    let errors = checker.check_program(&program).unwrap_err();
    assert_eq!(errors.len(), 2);
    assert_eq!(errors[0].message, "Type mismatch: variable 'p' declared as Custom(\"Point\"), but assigned Integer");
    assert_eq!(
        errors[1].message,
        "Type mismatch: variable 'b' declared as Generic { name: \"Box\", type_params: [Integer] }, but assigned Integer"
    );
}
