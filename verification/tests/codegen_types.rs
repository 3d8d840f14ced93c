use bolt::ast::Type;
use bolt::codegen::types::{get_c_type_default, type_to_c_string, type_to_simple_name};

#[test]
fn test_primitive_type_to_c_string() {
    assert_eq!(type_to_c_string(&Type::Integer), "int");
    assert_eq!(type_to_c_string(&Type::String), "char*");
    assert_eq!(type_to_c_string(&Type::Bool), "int");
}

#[test]
fn test_custom_type_to_c_string() {
    assert_eq!(type_to_c_string(&Type::Custom("MyType".to_string())), "MyType");
}

#[test]
fn test_pointer_type_to_c_string() {
    let inner = Type::Integer;
    let pointer = Type::Pointer(Box::new(inner));
    assert_eq!(type_to_c_string(&pointer), "int*");

    let double_pointer = Type::Pointer(Box::new(pointer));
    assert_eq!(type_to_c_string(&double_pointer), "int**");
}

#[test]
fn test_array_type_to_c_string() {
    let array = Type::Array(Box::new(Type::Integer));
    assert_eq!(type_to_c_string(&array), "int*");
}

#[test]
fn test_generic_type_to_c_string() {
    let generic = Type::Generic { name: "Array".to_string(), type_params: vec![Type::Integer] };
    assert_eq!(type_to_c_string(&generic), "Array_Integer");
}

#[test]
fn test_type_parameter_to_c_string() {
    let param = Type::TypeParameter("T".to_string());
    assert_eq!(type_to_c_string(&param), "T");
}

#[test]
fn test_type_to_simple_name() {
    assert_eq!(type_to_simple_name(&Type::Integer), "Integer");
    assert_eq!(type_to_simple_name(&Type::String), "String");
    assert_eq!(type_to_simple_name(&Type::Bool), "Bool");
    assert_eq!(type_to_simple_name(&Type::Custom("Foo".to_string())), "Foo");
}

#[test]
fn test_generic_type_simple_name() {
    let generic = Type::Generic {
        name: "Result".to_string(),
        type_params: vec![Type::String, Type::Integer],
    };
    assert_eq!(type_to_simple_name(&generic), "Result_String_Integer");
}

#[test]
fn test_pointer_simple_name() {
    let pointer = Type::Pointer(Box::new(Type::String));
    assert_eq!(type_to_simple_name(&pointer), "Ptr_String");
}

#[test]
fn test_array_simple_name() {
    let array = Type::Array(Box::new(Type::Bool));
    assert_eq!(type_to_simple_name(&array), "Array_Bool");
}

#[test]
fn test_c_type_defaults() {
    assert_eq!(get_c_type_default(&Type::Integer), "0");
    assert_eq!(get_c_type_default(&Type::Bool), "0");
    assert_eq!(get_c_type_default(&Type::String), r#""""#);
    assert_eq!(get_c_type_default(&Type::Pointer(Box::new(Type::Integer))), "NULL");
    assert_eq!(get_c_type_default(&Type::Array(Box::new(Type::Integer))), "NULL");
    assert_eq!(get_c_type_default(&Type::Custom("Foo".to_string())), "{}");
}

#[test]
fn nested_generic_and_generic_without_params() {
    let nested = Type::Generic {
        name: "Map".to_string(),
        type_params: vec![
            Type::String,
            Type::Generic { name: "Array".to_string(), type_params: vec![Type::Integer] },
        ],
    };
    assert_eq!(type_to_c_string(&nested), "Map_String_Array_Integer");
    let bare = Type::Generic { name: "Box".to_string(), type_params: vec![] };
    assert_eq!(type_to_simple_name(&bare), "Box");
    assert_eq!(get_c_type_default(&bare), "{}");
    assert_eq!(get_c_type_default(&Type::TypeParameter("T".to_string())), "0");
}

#[test]
fn substitution_and_required_instances() {
    use_substitution();
}

fn use_substitution() {
    let t = bolt::ast::Type::Pointer(Box::new(Type::Custom("T".to_string())));
    let same = bolt::codegen::monomorphization::substitute_type_params(&t, &[], &[]);
    assert_eq!(same, t);
    let person = bolt::codegen::monomorphization::substitute_type_params(&t, &["T".to_string()], &["Person".to_string()]);
    assert_eq!(person, Type::Pointer(Box::new(Type::Custom("Person".to_string()))));

    let mut m = bolt::codegen::monomorphization::Monomorphizer::new();
    m.register_generic_type("Box".to_string(), vec!["T".to_string()], vec![]);
    assert!(m.has_generic_type("Box"));
    assert!(!m.has_generic_type("Other"));
    assert!(m.get_required_monomorphs().is_empty());
    m.require_monomorph("Box".to_string(), vec!["Integer".to_string()]);
    m.require_monomorph("Box".to_string(), vec!["Integer".to_string()]);
    assert_eq!(m.get_required_monomorphs().len(), 1);

    let cloned = t.clone();
    assert_eq!(cloned, t);
}
