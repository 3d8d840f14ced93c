use bolt::ast::Type;
use bolt::symbol_table::{ScopeKind, SymbolKind, SymbolTable};

#[test]
fn test_symbol_table_creation() {
    let symbol_table = SymbolTable::new();
    assert_eq!(symbol_table.current_scope(), 0);
    assert_eq!(symbol_table.global_scope(), 0);
    assert_eq!(symbol_table.scope_count(), 1);
    assert!(matches!(symbol_table.get_scope(0).unwrap().kind, ScopeKind::Global));
}

#[test]
fn test_scope_management() {
    let mut symbol_table = SymbolTable::new();

    let func_scope = symbol_table.enter_scope(ScopeKind::Function { name: "test".to_string() });
    assert_eq!(func_scope, 1);
    assert_eq!(symbol_table.current_scope(), 1);
    assert_eq!(symbol_table.scope_count(), 2);

    let block_scope = symbol_table.enter_scope(ScopeKind::Block);
    assert_eq!(block_scope, 2);
    assert_eq!(symbol_table.current_scope(), 2);

    symbol_table.exit_scope().unwrap();
    assert_eq!(symbol_table.current_scope(), 1);

    symbol_table.exit_scope().unwrap();
    assert_eq!(symbol_table.current_scope(), 0);
}

#[test]
fn test_variable_declaration() {
    let mut symbol_table = SymbolTable::new();

    let symbol_id = symbol_table.declare_variable("x".to_string(), Type::Integer, true, None).unwrap();

    assert_eq!(symbol_id, 0);

    let found_id = symbol_table.lookup("x").unwrap();
    assert_eq!(found_id, symbol_id);

    let symbol = symbol_table.get_symbol(found_id).unwrap();
    assert_eq!(symbol.name, "x");
    assert_eq!(symbol.symbol_type, Type::Integer);
    assert!(symbol.is_mutable());
    assert!(!symbol.is_initialized());
}

#[test]
fn test_scope_shadowing() {
    let mut symbol_table = SymbolTable::new();

    let global_var = symbol_table.declare_variable("x".to_string(), Type::Integer, false, None).unwrap();

    symbol_table.enter_scope(ScopeKind::Function { name: "test".to_string() });

    let local_var = symbol_table.declare_variable("x".to_string(), Type::String, true, None).unwrap();

    let found_id = symbol_table.lookup("x").unwrap();
    assert_eq!(found_id, local_var);
    assert_ne!(found_id, global_var);

    let found_symbol = symbol_table.get_symbol(found_id).unwrap();
    assert_eq!(found_symbol.symbol_type, Type::String);

    symbol_table.exit_scope().unwrap();

    let found_id = symbol_table.lookup("x").unwrap();
    assert_eq!(found_id, global_var);

    let found_symbol = symbol_table.get_symbol(found_id).unwrap();
    assert_eq!(found_symbol.symbol_type, Type::Integer);
}

#[test]
fn test_redeclaration_error() {
    let mut symbol_table = SymbolTable::new();

    symbol_table.declare_variable("x".to_string(), Type::Integer, false, None).unwrap();

    let result = symbol_table.declare_variable("x".to_string(), Type::String, false, None);

    assert!(result.is_err());
}

#[test]
fn test_function_declaration() {
    let mut symbol_table = SymbolTable::new();

    let symbol_id = symbol_table
        .declare_function("test".to_string(), vec![Type::Integer, Type::String], Some(Type::Bool), None)
        .unwrap();

    let symbol = symbol_table.get_symbol(symbol_id).unwrap();
    assert_eq!(symbol.name, "test");

    if let SymbolKind::Function { params, return_type } = &symbol.kind {
        assert_eq!(params.len(), 2);
        assert_eq!(params[0], Type::Integer);
        assert_eq!(params[1], Type::String);
        assert_eq!(*return_type, Some(Type::Bool));
    } else {
        panic!("Expected function symbol");
    }
}

#[test]
fn test_legacy_variables_conversion() {
    let mut symbol_table = SymbolTable::new();

    symbol_table.declare_variable("x".to_string(), Type::Integer, true, None).unwrap();
    symbol_table.declare_variable("name".to_string(), Type::String, false, None).unwrap();
    symbol_table.declare_variable("flag".to_string(), Type::Bool, true, None).unwrap();

    let legacy = symbol_table.to_legacy_variables();

    assert_eq!(legacy.get("x"), Some(&"int".to_string()));
    assert_eq!(legacy.get("name"), Some(&"char*".to_string()));
    assert_eq!(legacy.get("flag"), Some(&"bool".to_string()));
}

#[test]
fn test_unused_symbols() {
    let mut symbol_table = SymbolTable::new();

    let used_var = symbol_table.declare_variable("used".to_string(), Type::Integer, true, None).unwrap();
    let unused_var = symbol_table.declare_variable("unused".to_string(), Type::String, false, None).unwrap();

    symbol_table.use_symbol(used_var);

    let unused = symbol_table.get_unused_symbols();
    assert_eq!(unused.len(), 1);
    assert_eq!(unused[0], unused_var);
}

#[test]
fn exit_global_scope_fails_and_lookup_current_scope() {
    let mut st = SymbolTable::new();
    assert!(st.exit_scope().is_err());
    st.declare_variable("g".to_string(), Type::Integer, false, None).unwrap();
    st.enter_scope(ScopeKind::Block);
    assert_eq!(st.lookup_current_scope("g"), None);
    assert_eq!(st.lookup("g"), Some(0));
    st.declare_parameter("p".to_string(), Type::Bool, None).unwrap();
    assert_eq!(st.get_symbols_in_scope(1), vec![1]);
    assert_eq!(st.get_uninitialized_variables(), vec![0]);
    st.initialize_symbol(0);
    assert_eq!(st.get_uninitialized_variables(), Vec::<usize>::new());
}

#[test]
fn failed_declaration_uses_up_an_id() {
    let mut st = SymbolTable::new();
    assert_eq!(st.declare_variable("a".to_string(), Type::Integer, false, None).unwrap(), 0);
    assert!(st.declare_type("a".to_string(), Type::Bool, None).is_err());
    assert_eq!(st.declare_type("b".to_string(), Type::Bool, None).unwrap(), 2);
}

#[test]
fn initialized_variables_leave_the_uninitialized_list() {
    let mut st = SymbolTable::new();
    let a = st.declare_variable("a".to_string(), Type::Integer, true, None).unwrap();
    let b = st.declare_variable("b".to_string(), Type::Integer, false, None).unwrap();
    st.declare_parameter("p".to_string(), Type::Integer, None).unwrap();
    assert_eq!(st.get_uninitialized_variables(), vec![a, b]);
    st.initialize_symbol(a);
    assert_eq!(st.get_uninitialized_variables(), vec![b]);
    assert!(st.get_symbol(a).unwrap().is_mutable());
    st.initialize_symbol(a);
    assert_eq!(st.get_uninitialized_variables(), vec![b]);
}

#[test]
fn scopes_list_each_id_once() {
    let mut st = SymbolTable::new();
    st.declare_variable("a".to_string(), Type::Integer, true, None).unwrap();
    assert!(st.declare_variable("a".to_string(), Type::Integer, true, None).is_err());
    st.declare_variable("b".to_string(), Type::Integer, true, None).unwrap();
    let ids = st.get_symbols_in_scope(0);
    assert_eq!(ids.len(), 2);
    assert!(ids[0] < ids[1]);
    let inner = st.enter_scope(ScopeKind::Block);
    assert_eq!(st.get_scope(inner).unwrap().depth, 1);
    assert_eq!(st.get_scope(0).unwrap().children, vec![inner]);
    assert!(st.get_symbols_in_scope(inner).is_empty());
    assert!(st.get_symbols_in_scope(9).is_empty());
}
