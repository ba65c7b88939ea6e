use swc_ecma_compiler::ast::{
    ArrowBody, ArrowExpr, AssignTarget, Decl, Expr, Function, Ident, Lit, MemberExpr, MemberProp,
    Pat, Span, Stmt,
};
use swc_ecma_compiler::context::{Assumptions, TransformCtx};
use swc_ecma_compiler::es2017::{AsyncToGenerator, ES2017Options, ES2017};

fn sp() -> Span {
    Span { lo: 0, hi: 0 }
}

fn ident(name: &str) -> Ident {
    Ident { sym: name.to_string(), ctxt: 0, span: sp() }
}

fn ctx() -> TransformCtx {
    let assumptions = Assumptions { no_document_all: false, set_public_class_fields: false, private_fields_as_properties: false };
    TransformCtx::new("test.js".to_string(), assumptions)
}

fn call(name: &str) -> Expr {
    Expr::Call(Box::new(Expr::Ident(ident(name))), vec![])
}

fn async_fn(params: Vec<Pat>, body: Vec<Stmt>) -> Function {
    Function { span: Span { lo: 1, hi: 2 }, params, body: Some(body), is_async: true, is_generator: false }
}

/// The generator function handed to `babelHelpers.asyncToGenerator(..)`.
fn wrapped_generator(e: &Expr) -> &Function {
    match e {
        Expr::Call(callee, args) => {
            match &**callee {
                Expr::Member(MemberExpr { obj, prop: MemberProp::Ident(p) }) => {
                    assert_eq!(p.sym, "asyncToGenerator");
                    assert!(matches!(&**obj, Expr::Ident(i) if i.sym == "babelHelpers"));
                },
                _ => panic!("not the helper"),
            }
            assert_eq!(args.len(), 1);
            match &args[0].expr {
                Expr::Fn(None, f) => {
                    assert!(f.is_generator);
                    assert!(!f.is_async);
                    f
                },
                _ => panic!("not a function"),
            }
        },
        other => panic!("not a helper call: {:?}", other),
    }
}

#[test]
fn await_becomes_yield() {
    let c = ctx();
    let mut t = AsyncToGenerator::new(&c);
    let mut e = Expr::Await(Box::new(call("p")));
    t.exit_expr(&mut e, 7, &vec![8, 9, 10]);
    match e {
        Expr::Yield(Some(arg), false) => assert!(matches!(*arg, Expr::Call(_, _))),
        other => panic!("not a yield: {:?}", other),
    }
}

#[test]
fn async_arrow_without_parameters_is_wrapped_directly() {
    let c = ctx();
    let mut t = AsyncToGenerator::new(&c);
    let mut e = Expr::Arrow(ArrowExpr {
        span: sp(),
        params: vec![],
        body: ArrowBody::Expr(Box::new(Expr::Ident(ident("x")))),
        is_async: true,
        is_generator: false,
    });
    t.exit_expr(&mut e, 7, &vec![8, 9, 10]);
    let g = wrapped_generator(&e);
    assert!(g.params.is_empty());
    let body = g.body.as_ref().unwrap();
    assert_eq!(body.len(), 1);
    assert!(matches!(&body[0], Stmt::Return(_, Some(x)) if matches!(&**x, Expr::Ident(i) if i.sym == "x")));
    assert_eq!(t.executor.uid_counter, 0);
}

#[test]
fn async_function_declaration_gets_a_named_worker() {
    let c = ctx();
    let mut t = AsyncToGenerator::new(&c);
    let mut s = Stmt::Decl(Decl::Fn(ident("foo"), async_fn(vec![Pat::Ident(ident("a"))], vec![])));
    t.exit_stmt(&mut s, 7);
    assert_eq!(t.executor.uid_counter, 1);
    match &s {
        Stmt::Decl(Decl::Fn(name, f)) => {
            assert_eq!(name.sym, "_foo1");
            assert!(!f.is_async);
            assert!(f.params.is_empty());
            let body = f.body.as_ref().unwrap();
            assert_eq!(body.len(), 2);
            // `_foo1 = babelHelpers.asyncToGenerator(function* (a) {})`
            match &body[0] {
                Stmt::Expr(_, e) => match &**e {
                    Expr::Assign(_, AssignTarget::Ident(b), rhs) => {
                        assert_eq!(b.sym, "_foo1");
                        assert_eq!(b.ctxt, 7);
                        assert_eq!(name.ctxt, 7);
                        let g = wrapped_generator(rhs);
                        assert_eq!(g.params.len(), 1);
                    },
                    _ => panic!(),
                },
                _ => panic!(),
            }
            // `return _foo1.apply(this, arguments)`
            match &body[1] {
                Stmt::Return(_, Some(r)) => match &**r {
                    Expr::Call(callee, args) => {
                        assert_eq!(args.len(), 2);
                        assert!(matches!(args[0].expr, Expr::This));
                        match &**callee {
                            Expr::Member(MemberExpr { prop: MemberProp::Ident(p), .. }) => assert_eq!(p.sym, "apply"),
                            _ => panic!(),
                        }
                    },
                    _ => panic!(),
                },
                _ => panic!(),
            }
        },
        _ => panic!("still a function declaration"),
    }
}

#[test]
fn named_async_function_expression_keeps_its_name() {
    let c = ctx();
    let mut t = AsyncToGenerator::new(&c);
    let mut e = Expr::Fn(Some(ident("bar")), async_fn(vec![], vec![]));
    t.exit_expr(&mut e, 7, &vec![8, 9, 10]);
    match &e {
        Expr::Call(callee, args) => {
            assert!(args.is_empty());
            match &**callee {
                Expr::Fn(None, w) => {
                    assert_eq!(w.span, Span { lo: 1, hi: 2 });
                    let body = w.body.as_ref().unwrap();
                    assert_eq!(body.len(), 3);
                    match &body[1] {
                        Stmt::Decl(Decl::Fn(n, _)) => assert_eq!(n.sym, "bar"),
                        _ => panic!(),
                    }
                    assert!(matches!(&body[2], Stmt::Return(_, Some(x)) if matches!(&**x, Expr::Ident(i) if i.sym == "bar")));
                },
                _ => panic!("an immediately called function"),
            }
        },
        _ => panic!(),
    }
}

#[test]
fn method_with_throwing_default_moves_its_parameters() {
    let c = ctx();
    let mut t = AsyncToGenerator::new(&c);
    let params = vec![Pat::Ident(ident("a")), Pat::Assign(Box::new(Pat::Ident(ident("b"))), Box::new(call("f")))];
    let mut f = async_fn(params, vec![]);
    t.exit_function(&mut f, &vec![8, 9, 10]);
    assert!(!f.is_async);
    assert_eq!(f.params.len(), 1);
    match &f.params[0] {
        Pat::Ident(i) => {
            assert_eq!(i.sym, "_x");
            assert_eq!(i.ctxt, 8);
        },
        _ => panic!("a placeholder"),
    }
    let body = f.body.as_ref().unwrap();
    match &body[0] {
        Stmt::Return(_, Some(r)) => match &**r {
            Expr::Call(callee, _) => match &**callee {
                Expr::Member(MemberExpr { obj, prop: MemberProp::Ident(p) }) => {
                    assert_eq!(p.sym, "apply");
                    assert_eq!(wrapped_generator(obj).params.len(), 2);
                },
                _ => panic!(),
            },
            _ => panic!(),
        },
        _ => panic!(),
    }
}

#[test]
fn method_with_safe_defaults_keeps_its_parameters() {
    let c = ctx();
    let mut t = AsyncToGenerator::new(&c);
    let params = vec![Pat::Assign(Box::new(Pat::Ident(ident("b"))), Box::new(Expr::Lit(Lit::Num("1".to_string()))))];
    let mut f = async_fn(params, vec![]);
    t.exit_function(&mut f, &vec![8, 9, 10]);
    assert_eq!(f.params.len(), 1);
    assert!(matches!(&f.params[0], Pat::Assign(_, _)));
    let body = f.body.as_ref().unwrap();
    match &body[0] {
        Stmt::Return(_, Some(r)) => match &**r {
            Expr::Call(callee, args) => {
                assert!(args.is_empty());
                assert!(wrapped_generator(callee).params.is_empty());
            },
            _ => panic!(),
        },
        _ => panic!(),
    }
}

#[test]
fn es2017_is_off_by_default() {
    let c = ctx();
    let mut t = ES2017::new(ES2017Options::default(), &c);
    let mut e = Expr::Await(Box::new(call("p")));
    t.exit_expr(&mut e, 7, &vec![8, 9, 10]);
    assert!(matches!(e, Expr::Await(_)));
    let mut on = ES2017::new(ES2017Options { async_to_generator: true }, &c);
    on.exit_expr(&mut e, 7, &vec![]);
    assert!(matches!(e, Expr::Yield(_, _)));
}
