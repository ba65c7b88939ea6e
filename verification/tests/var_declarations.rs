use swc_ecma_compiler::ast::{Decl, Ident, Span, Stmt, VarDeclKind};
use swc_ecma_compiler::context::{Assumptions, TransformCtx};
use swc_ecma_compiler::var_declarations::VarDeclarationsStore;

fn ident(name: &str) -> Ident {
    Ident { sym: name.to_string(), ctxt: 0, span: Span { lo: 0, hi: 0 } }
}

fn ctx() -> TransformCtx {
    let assumptions = Assumptions { no_document_all: false, set_public_class_fields: false, private_fields_as_properties: false };
    TransformCtx::new("test.js".to_string(), assumptions)
}

#[test]
fn test_var_declarations_store() {
    let mut store = VarDeclarationsStore::new();

    store.record_entering_statements();

    let binding = ident("test");
    store.insert_var(&binding, None);

    let (var_stmt, let_stmt) = store.get_var_statement().unwrap();
    assert!(var_stmt.is_some());
    assert!(let_stmt.is_none());
}

#[test]
fn test_multiple_declarations() {
    let mut store = VarDeclarationsStore::new();

    store.record_entering_statements();

    let var_binding = ident("var_test");
    let let_binding = ident("let_test");

    store.insert_var(&var_binding, None);
    store.insert_let(&let_binding, None);

    let (var_stmt, let_stmt) = store.get_var_statement().unwrap();
    assert!(var_stmt.is_some());
    assert!(let_stmt.is_some());
}

#[test]
fn declarations_go_to_the_innermost_block() {
    let c = ctx();
    let mut store = VarDeclarationsStore::new();
    store.record_entering_statements();
    store.insert_var(&ident("outer"), None);
    store.record_entering_statements();
    let b = store.create_uid_var("inner", &c);
    assert_eq!(b.sym, "_inner");
    let b2 = store.create_uid_var("_kept", &c);
    assert_eq!(b2.sym, "_kept");
    let mut body = vec![Stmt::Empty(Span { lo: 3, hi: 4 })];
    assert!(store.insert_into_statements(&mut body));
    assert_eq!(body.len(), 2);
    match &body[0] {
        Stmt::Decl(Decl::Var(v)) => {
            assert_eq!(v.kind, VarDeclKind::Var);
            assert_eq!(v.decls.len(), 2);
        },
        _ => panic!("expected a var declaration"),
    }
    assert!(store.has_pending_declarations());
    let top = store.get_top_level_statements().unwrap();
    assert_eq!(top.len(), 1);
    assert!(!store.has_pending_declarations());
}

#[test]
fn empty_frame_adds_nothing() {
    let mut store = VarDeclarationsStore::new();
    store.record_entering_statements();
    let mut body = vec![Stmt::Empty(Span { lo: 3, hi: 4 })];
    assert!(!store.insert_into_statements(&mut body));
    assert_eq!(body.len(), 1);
    assert!(store.get_var_statement().is_none());
}
