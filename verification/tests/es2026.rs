use swc_ecma_compiler::ast::{
    CatchClause, Decl, DefaultDecl, Expr, ForHead, ForOfStmt, Function, Ident, MemberExpr,
    MemberProp, ModuleDecl, ModuleItem, Pat, Span, Stmt, SwitchCase, UsingDecl, VarDecl,
    VarDeclKind, VarDeclarator,
};
use swc_ecma_compiler::context::{Assumptions, TransformCtx};
use swc_ecma_compiler::es2026::{ES2026Options, ExplicitResourceManagement, ES2026};

fn sp() -> Span {
    Span { lo: 0, hi: 0 }
}

fn ident(name: &str) -> Ident {
    Ident { sym: name.to_string(), ctxt: 0, span: sp() }
}

fn ctx() -> TransformCtx {
    let assumptions = Assumptions { no_document_all: false, set_public_class_fields: false, private_fields_as_properties: false };
    TransformCtx::new("test.js".to_string(), assumptions)
}

fn call(name: &str) -> Expr {
    Expr::Call(Box::new(Expr::Ident(ident(name))), vec![])
}

/// `using name = init();` or `await using name = init();`.
fn using(name: &str, init: &str, is_await: bool) -> Stmt {
    Stmt::Decl(Decl::Using(UsingDecl {
        span: Span { lo: 5, hi: 9 },
        is_await,
        decls: vec![VarDeclarator { name: Pat::Ident(ident(name)), init: Some(Box::new(call(init))) }],
    }))
}

fn expr_stmt(name: &str) -> Stmt {
    Stmt::Expr(sp(), Box::new(call(name)))
}

/// The name of the binding a `var`/`const` statement declares first.
fn declared_name(s: &Stmt) -> (String, VarDeclKind) {
    match s {
        Stmt::Decl(Decl::Var(v)) => match &v.decls[0].name {
            Pat::Ident(i) => (i.sym.clone(), v.kind),
            _ => panic!("not an identifier"),
        },
        other => panic!("not a variable declaration: {:?}", other),
    }
}

/// `ctx.method` of a registered initializer `ctx.method(init)`.
fn registered_with(s: &Stmt) -> (String, String) {
    match s {
        Stmt::Decl(Decl::Var(v)) => match v.decls[0].init.as_deref() {
            Some(Expr::Call(callee, args)) => {
                assert_eq!(args.len(), 1);
                match &**callee {
                    Expr::Member(MemberExpr { obj, prop: MemberProp::Ident(m) }) => match &**obj {
                        Expr::Ident(c) => (c.sym.clone(), m.sym.clone()),
                        _ => panic!("not an identifier"),
                    },
                    _ => panic!("not a member call"),
                }
            },
            _ => panic!("not a call"),
        },
        _ => panic!("not a declaration"),
    }
}

/// Checks a `try { .. } catch (_) { ctx.e = _ } finally { ctx.d() }` and
/// returns its block.
fn check_try(s: &Stmt, ctx_name: &str, awaited: bool) -> Vec<String> {
    match s {
        Stmt::Try(_, block, Some(CatchClause { param: Some(Pat::Ident(err)), body }), Some(fin)) => {
            assert_eq!(err.sym, "_");
            assert_eq!(body.len(), 1);
            match &body[0] {
                Stmt::Expr(_, e) => match &**e {
                    Expr::Assign(_, swc_ecma_compiler::ast::AssignTarget::Member(m), rhs) => {
                        match (&*m.obj, &m.prop, &**rhs) {
                            (Expr::Ident(c), MemberProp::Ident(p), Expr::Ident(r)) => {
                                assert_eq!(c.sym, ctx_name);
                                assert_eq!(p.sym, "e");
                                assert_eq!(r.sym, "_");
                                assert_eq!(r.ctxt, err.ctxt);
                                // The contexts handed in name the binding and the error.
                                assert_eq!(c.ctxt, 3);
                                assert_eq!(err.ctxt, 4);
                            },
                            _ => panic!("unexpected catch body"),
                        }
                    },
                    _ => panic!("unexpected catch body"),
                },
                _ => panic!("unexpected catch body"),
            }
            assert_eq!(fin.len(), 1);
            let dispose = match &fin[0] {
                Stmt::Expr(_, e) => &**e,
                _ => panic!("unexpected finally"),
            };
            let call = match (awaited, dispose) {
                (true, Expr::Await(c)) => &**c,
                (false, c) => c,
                _ => panic!("disposal not awaited as expected"),
            };
            match call {
                Expr::Call(callee, args) => {
                    assert!(args.is_empty());
                    match &**callee {
                        Expr::Member(MemberExpr { obj, prop: MemberProp::Ident(d) }) => {
                            assert_eq!(d.sym, "d");
                            match &**obj {
                                Expr::Ident(c) => assert_eq!(c.sym, ctx_name),
                                _ => panic!(),
                            }
                        },
                        _ => panic!(),
                    }
                },
                _ => panic!("not a call"),
            }
            block.iter().map(|s| format!("{:?}", s)).collect()
        },
        other => panic!("not a try statement: {:?}", other),
    }
}

fn block_of(s: &Stmt) -> &Vec<Stmt> {
    match s {
        Stmt::Try(_, block, _, _) => block,
        _ => panic!("not a try statement"),
    }
}

#[test]
fn block_with_using_becomes_try() {
    let c = ctx();
    let mut erm = ExplicitResourceManagement::new(&c);
    let mut stmt = Stmt::Block(sp(), vec![using("x", "y", false), expr_stmt("f")]);
    erm.enter_stmt(&mut stmt, 3, 4);
    assert_eq!(erm.uid_counter, 1);
    check_try(&stmt, "_usingCtx1", false);
    let block = block_of(&stmt);
    assert_eq!(block.len(), 3);
    assert_eq!(declared_name(&block[0]), ("_usingCtx1".to_string(), VarDeclKind::Var));
    assert_eq!(declared_name(&block[1]), ("x".to_string(), VarDeclKind::Const));
    assert_eq!(registered_with(&block[1]), ("_usingCtx1".to_string(), "u".to_string()));
    match &block[1] {
        Stmt::Decl(Decl::Var(v)) => assert_eq!(v.span, Span { lo: 5, hi: 9 }),
        _ => panic!(),
    }
    assert!(matches!(&block[2], Stmt::Expr(_, _)));
}

#[test]
fn await_using_registers_with_a_and_awaits_disposal() {
    let c = ctx();
    let mut erm = ExplicitResourceManagement::new(&c);
    let mut stmt = Stmt::Block(sp(), vec![using("x", "y", true), using("z", "w", false)]);
    erm.enter_stmt(&mut stmt, 3, 4);
    check_try(&stmt, "_usingCtx1", true);
    let block = block_of(&stmt);
    assert_eq!(registered_with(&block[1]), ("_usingCtx1".to_string(), "a".to_string()));
    assert_eq!(registered_with(&block[2]), ("_usingCtx1".to_string(), "u".to_string()));
}

#[test]
fn block_without_using_is_left_alone() {
    let c = ctx();
    let mut erm = ExplicitResourceManagement::new(&c);
    let mut stmt = Stmt::Block(sp(), vec![expr_stmt("f")]);
    let before = format!("{:?}", stmt);
    erm.enter_stmt(&mut stmt, 3, 4);
    assert_eq!(format!("{:?}", stmt), before);
    assert_eq!(erm.uid_counter, 0);
}

#[test]
fn each_scope_gets_its_own_context() {
    let c = ctx();
    let mut erm = ExplicitResourceManagement::new(&c);
    let mut a = Stmt::Block(sp(), vec![using("x", "y", false)]);
    let mut b = Stmt::Block(sp(), vec![using("x", "y", false)]);
    erm.enter_stmt(&mut a, 3, 4);
    erm.enter_stmt(&mut b, 3, 4);
    check_try(&a, "_usingCtx1", false);
    check_try(&b, "_usingCtx2", false);
    assert_eq!(erm.uid_counter, 2);
}

#[test]
fn switch_with_using_is_wrapped() {
    let c = ctx();
    let mut erm = ExplicitResourceManagement::new(&c);
    let cases = vec![
        SwitchCase { test: Some(Box::new(call("one"))), cons: vec![using("foo", "bar", false), expr_stmt("use")] },
        SwitchCase { test: None, cons: vec![expr_stmt("other")] },
    ];
    let mut stmt = Stmt::Switch(Span { lo: 1, hi: 2 }, Box::new(call("d")), cases);
    erm.enter_stmt(&mut stmt, 3, 4);
    check_try(&stmt, "_usingCtx1", false);
    let block = block_of(&stmt);
    assert_eq!(block.len(), 2);
    assert_eq!(declared_name(&block[0]), ("_usingCtx1".to_string(), VarDeclKind::Var));
    match &block[1] {
        Stmt::Switch(s, _, cases) => {
            assert_eq!(*s, Span { lo: 1, hi: 2 });
            assert_eq!(cases.len(), 2);
            assert_eq!(registered_with(&cases[0].cons[0]), ("_usingCtx1".to_string(), "u".to_string()));
            assert_eq!(cases[1].cons.len(), 1);
        },
        _ => panic!("the switch is kept inside the try"),
    }
}

#[test]
fn function_body_and_static_block_are_wrapped() {
    let c = ctx();
    let mut erm = ExplicitResourceManagement::new(&c);
    let mut f = Function {
        span: sp(),
        params: vec![],
        body: Some(vec![using("x", "y", false)]),
        is_async: false,
        is_generator: false,
    };
    erm.enter_function(&mut f, 3, 4);
    let body = f.body.as_ref().unwrap();
    assert_eq!(body.len(), 1);
    check_try(&body[0], "_usingCtx1", false);

    let mut block = vec![using("x", "y", true)];
    erm.exit_static_block(&mut block, 3, 4);
    assert_eq!(block.len(), 1);
    check_try(&block[0], "_usingCtx2", true);
}

#[test]
fn try_block_is_wrapped_inside() {
    let c = ctx();
    let mut erm = ExplicitResourceManagement::new(&c);
    let handler = CatchClause { param: Some(Pat::Ident(ident("err"))), body: vec![] };
    let mut stmt = Stmt::Try(sp(), vec![using("x", "y", false)], Some(handler), None);
    erm.enter_try_stmt(&mut stmt, 3, 4);
    match &stmt {
        Stmt::Try(_, block, Some(h), None) => {
            assert_eq!(block.len(), 1);
            check_try(&block[0], "_usingCtx1", false);
            match &h.param {
                Some(Pat::Ident(i)) => assert_eq!(i.sym, "err"),
                _ => panic!(),
            }
        },
        _ => panic!(),
    }
}

#[test]
fn for_of_using_moves_the_declaration_into_the_body() {
    let c = ctx();
    let mut erm = ExplicitResourceManagement::new(&c);
    let mut f = ForOfStmt {
        span: sp(),
        is_await: true,
        left: ForHead::UsingDecl(UsingDecl {
            span: sp(),
            is_await: true,
            decls: vec![VarDeclarator { name: Pat::Ident(ident("x")), init: None }],
        }),
        right: Box::new(Expr::Ident(ident("y"))),
        body: Box::new(expr_stmt("doSomethingWith")),
    };
    erm.enter_for_of_stmt(&mut f, 3);
    match &f.left {
        ForHead::VarDecl(VarDecl { kind: VarDeclKind::Const, decls, .. }) => match &decls[0].name {
            Pat::Ident(t) => assert_eq!(t.sym, "_x1"),
            _ => panic!(),
        },
        _ => panic!("the head is a const declaration"),
    }
    match &*f.body {
        Stmt::Block(_, stmts) => {
            assert_eq!(stmts.len(), 2);
            match &stmts[0] {
                Stmt::Decl(Decl::Using(u)) => {
                    assert!(u.is_await);
                    match (&u.decls[0].name, u.decls[0].init.as_deref()) {
                        (Pat::Ident(x), Some(Expr::Ident(t))) => {
                            assert_eq!(x.sym, "x");
                            assert_eq!(t.sym, "_x1");
                        },
                        _ => panic!(),
                    }
                },
                _ => panic!("the using declaration comes first"),
            }
        },
        _ => panic!("the body becomes a block"),
    }
}

#[test]
fn module_moves_statements_into_a_block() {
    let c = ctx();
    let mut erm = ExplicitResourceManagement::new(&c);
    let f = Function { span: sp(), params: vec![], body: Some(vec![]), is_async: false, is_generator: false };
    let mut items = vec![
        ModuleItem::Stmt(using("x", "y", false)),
        ModuleItem::Stmt(Stmt::Decl(Decl::Fn(ident("g"), f))),
        ModuleItem::ModuleDecl(ModuleDecl::ExportDecl(Decl::Var(VarDecl {
            span: sp(),
            kind: VarDeclKind::Const,
            decls: vec![VarDeclarator { name: Pat::Ident(ident("z")), init: None }],
        }))),
        ModuleItem::ModuleDecl(ModuleDecl::ExportDefaultDecl(DefaultDecl::Fn(
            None,
            Function { span: sp(), params: vec![], body: Some(vec![]), is_async: false, is_generator: false },
        ))),
    ];
    erm.enter_module(&mut items);
    // Imports, function declarations and exports stay at the top level, in
    // their order; the `using` declaration moves into a trailing block.
    assert_eq!(items.len(), 4);
    assert!(matches!(&items[0], ModuleItem::Stmt(Stmt::Decl(Decl::Fn(_, _)))));
    match &items[1] {
        ModuleItem::ModuleDecl(ModuleDecl::ExportDecl(Decl::Var(v))) => match &v.decls[0].name {
            Pat::Ident(z) => assert_eq!(z.sym, "z"),
            _ => panic!(),
        },
        _ => panic!("the export stays an export"),
    }
    assert!(matches!(&items[2], ModuleItem::ModuleDecl(ModuleDecl::ExportDefaultDecl(DefaultDecl::Fn(None, _)))));
    match &items[3] {
        ModuleItem::Stmt(Stmt::Block(_, stmts)) => {
            assert_eq!(stmts.len(), 1);
            assert!(matches!(&stmts[0], Stmt::Decl(Decl::Using(_))));
        },
        _ => panic!("the rest is a block"),
    }
}

#[test]
fn module_without_using_is_left_alone() {
    let c = ctx();
    let mut erm = ExplicitResourceManagement::new(&c);
    let mut items = vec![ModuleItem::Stmt(expr_stmt("f"))];
    let before = format!("{:?}", items);
    erm.enter_module(&mut items);
    assert_eq!(format!("{:?}", items), before);
}

#[test]
fn es2026_runs_only_when_enabled() {
    let c = ctx();
    let mut off = ES2026::new(ES2026Options::default(), &c);
    let mut stmt = Stmt::Block(sp(), vec![using("x", "y", false)]);
    off.enter_stmt(&mut stmt, 3, 4);
    assert!(matches!(stmt, Stmt::Block(_, _)));

    let mut on = ES2026::new(ES2026Options { explicit_resource_management: true }, &c);
    on.enter_stmt(&mut stmt, 3, 4);
    check_try(&stmt, "_usingCtx1", false);
}
