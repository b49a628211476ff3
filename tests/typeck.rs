use forgec0::{Module, SymbolTable, Type, TypeChecker};

#[test]
fn test_create_type_checker() {
    let tc = TypeChecker::new();
    assert!(tc.constraints.is_empty());
}

#[test]
fn test_insert_and_lookup() {
    let mut table = SymbolTable::new();
    table.insert("x".to_string(), Type::Int);

    assert!(matches!(table.lookup("x"), Some(Type::Int)));
    assert!(table.lookup("y").is_none());
}

#[test]
fn test_nested_scope() {
    let mut parent = SymbolTable::new();
    parent.insert("x".to_string(), Type::Int);

    let mut child = parent.push_scope();
    child.insert("y".to_string(), Type::Bool);

    assert!(matches!(child.lookup("x"), Some(Type::Int)));
    assert!(matches!(child.lookup("y"), Some(Type::Bool)));
}

#[test]
fn inner_scope_shadows_and_reinsert_replaces() {
    let mut table = SymbolTable::new();
    table.insert("x".to_string(), Type::Int);
    table.insert("x".to_string(), Type::Text);
    assert!(matches!(table.lookup("x"), Some(Type::Text)));
    let mut inner = table.push_scope();
    assert!(matches!(inner.lookup("x"), Some(Type::Text)));
    inner.insert("x".to_string(), Type::Custom("T".to_string()));
    assert!(matches!(inner.lookup("x"), Some(Type::Custom(ref s)) if s == "T"));
}

#[test]
fn check_module_accepts() {
    let mut tc = TypeChecker::new();
    let m = Module { name: "m".to_string(), capability: None, imports: vec![], statements: vec![] };
    assert!(tc.check_module(&m).is_ok());
    assert!(tc.constraints.is_empty());
}
