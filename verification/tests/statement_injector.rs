use swc_ecma_compiler::ast::{Span, Stmt};
use swc_ecma_compiler::statement_injector::{GetStatementId, StatementInjectorStore};

fn dummy_stmt(id: u32) -> Stmt {
    Stmt::Empty(Span { lo: id, hi: id + 1 })
}

#[test]
fn test_insert_before() {
    let mut store = StatementInjectorStore::new();
    let target = dummy_stmt(100);
    let to_insert = dummy_stmt(200);

    store.insert_before(&target, to_insert);

    let mut statements = vec![target];
    store.insert_into_statements(&mut statements);

    assert_eq!(statements.len(), 2);
    assert_eq!(statements[0].statement_id(), (200, 201));
    assert_eq!(statements[1].statement_id(), (100, 101));
}

#[test]
fn test_insert_after() {
    let mut store = StatementInjectorStore::new();
    let target = dummy_stmt(100);
    let to_insert = dummy_stmt(200);

    store.insert_after(&target, to_insert);

    let mut statements = vec![target];
    store.insert_into_statements(&mut statements);

    assert_eq!(statements.len(), 2);
    assert_eq!(statements[0].statement_id(), (100, 101));
    assert_eq!(statements[1].statement_id(), (200, 201));
}

#[test]
fn test_insert_many_before() {
    let mut store = StatementInjectorStore::new();
    let target = dummy_stmt(100);
    let to_insert = vec![dummy_stmt(200), dummy_stmt(201)];

    store.insert_many_before(&target, to_insert);

    let mut statements = vec![target];
    store.insert_into_statements(&mut statements);

    assert_eq!(statements.len(), 3);
    assert_eq!(statements[0].statement_id(), (200, 201));
    assert_eq!(statements[1].statement_id(), (201, 202));
    assert_eq!(statements[2].statement_id(), (100, 101));
}

#[test]
fn test_insert_many_after() {
    let mut store = StatementInjectorStore::new();
    let target = dummy_stmt(100);
    let to_insert = vec![dummy_stmt(200), dummy_stmt(201)];

    store.insert_many_after(&target, to_insert);

    let mut statements = vec![target];
    store.insert_into_statements(&mut statements);

    assert_eq!(statements.len(), 3);
    assert_eq!(statements[0].statement_id(), (100, 101));
    assert_eq!(statements[1].statement_id(), (200, 201));
    assert_eq!(statements[2].statement_id(), (201, 202));
}

#[test]
fn test_insert_before_and_after() {
    let mut store = StatementInjectorStore::new();
    let target = dummy_stmt(100);
    let before = dummy_stmt(200);
    let after = dummy_stmt(201);

    store.insert_before(&target, before);
    store.insert_after(&target, after);

    let mut statements = vec![target];
    store.insert_into_statements(&mut statements);

    assert_eq!(statements.len(), 3);
    assert_eq!(statements[0].statement_id(), (200, 201));
    assert_eq!(statements[1].statement_id(), (100, 101));
    assert_eq!(statements[2].statement_id(), (201, 202));
}

#[test]
fn test_move_insertions() {
    let mut store = StatementInjectorStore::new();
    let old_target = dummy_stmt(100);
    let new_target = dummy_stmt(300);
    let to_insert = dummy_stmt(200);

    store.insert_after(&old_target, to_insert);
    store.move_insertions(&old_target, &new_target);

    let mut statements = vec![new_target];
    store.insert_into_statements(&mut statements);

    assert_eq!(statements.len(), 2);
    assert_eq!(statements[0].statement_id(), (300, 301));
    assert_eq!(statements[1].statement_id(), (200, 201));
}

#[test]
fn moved_insertions_keep_their_side() {
    let mut store = StatementInjectorStore::new();
    store.insert_after(&dummy_stmt(300), dummy_stmt(201));
    store.insert_before(&dummy_stmt(100), dummy_stmt(200));
    store.move_insertions(&dummy_stmt(100), &dummy_stmt(300));
    let mut statements = vec![dummy_stmt(300)];
    store.insert_into_statements(&mut statements);
    let ids: Vec<(u32, u32)> = statements.iter().map(|s| s.statement_id()).collect();
    assert_eq!(ids, vec![(200, 201), (300, 301), (201, 202)]);
}

#[test]
fn insertions_are_consumed_once() {
    let mut store = StatementInjectorStore::new();
    let target = dummy_stmt(10);
    store.insert_after(&target, dummy_stmt(20));
    let mut statements = vec![dummy_stmt(10), dummy_stmt(10)];
    store.insert_into_statements(&mut statements);
    let ids: Vec<(u32, u32)> = statements.iter().map(|s| s.statement_id()).collect();
    assert_eq!(ids, vec![(10, 11), (20, 21), (10, 11)]);
    assert!(store.is_empty());
    assert!(store.assert_no_insertions_remaining());
}

#[test]
fn before_insertions_keep_their_order() {
    let mut store = StatementInjectorStore::new();
    let target = dummy_stmt(1);
    store.insert_after(&target, dummy_stmt(40));
    store.insert_before(&target, dummy_stmt(20));
    store.insert_before(&target, dummy_stmt(30));
    store.insert_many_before(&target, vec![dummy_stmt(10)]);
    let mut statements = vec![dummy_stmt(0), target];
    store.insert_into_statements(&mut statements);
    let ids: Vec<u32> = statements.iter().map(|s| s.statement_id().0).collect();
    assert_eq!(ids, vec![0, 10, 20, 30, 1, 40]);
}

#[test]
fn statements_without_insertions_are_untouched() {
    let mut store = StatementInjectorStore::new();
    store.insert_after(&dummy_stmt(5), dummy_stmt(6));
    let mut statements = vec![dummy_stmt(1), dummy_stmt(2)];
    store.insert_into_statements(&mut statements);
    assert_eq!(statements.len(), 2);
    assert!(!store.is_empty());
}
