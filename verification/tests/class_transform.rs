use swc_ecma_compiler::ast::{Class, ClassMember, Decl, Expr, Ident, Key, Pat, PropName, Span, Stmt, VarDeclKind};
use swc_ecma_compiler::class_properties::{create_variable_declaration, exprs_into_stmts};
use swc_ecma_compiler::class_static_block::ClassStaticBlock;

fn sp(lo: u32, hi: u32) -> Span {
    Span { lo, hi }
}

fn call(name: &str) -> Expr {
    Expr::Call(Box::new(Expr::Ident(Ident { sym: name.to_string(), ctxt: 0, span: sp(0, 0) })), vec![])
}

fn expr_stmt(name: &str) -> Stmt {
    Stmt::Expr(sp(0, 0), Box::new(call(name)))
}

/// The key and value of a generated static private field.
fn field(m: &ClassMember) -> (String, &Expr, Span) {
    match m {
        ClassMember::PrivateProp(p) => {
            assert!(p.is_static);
            assert!(p.rest.is_none());
            (p.key.clone(), p.value.as_deref().unwrap(), p.span)
        },
        other => panic!("not a private field: {:?}", other),
    }
}

#[test]
fn static_blocks_become_private_fields() {
    let mut class = Class {
        span: sp(0, 50),
        body: vec![
            ClassMember::StaticBlock(sp(10, 20), vec![expr_stmt("foo")]),
            ClassMember::StaticBlock(sp(21, 40), vec![expr_stmt("foo"), expr_stmt("bar")]),
        ],
        rest: 7,
    };
    let mut t = ClassStaticBlock::new();
    t.enter_class(&mut class);
    assert_eq!(class.rest, 7);
    assert_eq!(class.body.len(), 2);
    let (k0, v0, s0) = field(&class.body[0]);
    assert_eq!(k0, "_");
    assert_eq!(s0, sp(10, 20));
    assert!(matches!(v0, Expr::Call(_, _)));
    let (k1, v1, s1) = field(&class.body[1]);
    assert_eq!(k1, "_2");
    assert_eq!(s1, sp(21, 40));
    match v1 {
        Expr::Call(callee, args) => {
            assert!(args.is_empty());
            match &**callee {
                Expr::Arrow(a) => {
                    assert_eq!(a.span, sp(21, 40));
                    assert!(a.params.is_empty());
                    match &a.body {
                        swc_ecma_compiler::ast::ArrowBody::Block(b) => assert_eq!(b.len(), 2),
                        _ => panic!("the block becomes the arrow's body"),
                    }
                },
                _ => panic!("an arrow function is called"),
            }
        },
        _ => panic!("not a call"),
    }
}

#[test]
fn keys_of_members_are_not_taken() {
    let mut class = Class {
        span: sp(0, 0),
        body: vec![
            ClassMember::PrivateMethod("_".to_string(), 1),
            ClassMember::ClassProp(PropName::Ident("_2".to_string()), 2),
            ClassMember::AutoAccessor(Key::Private("_3".to_string()), 3),
            ClassMember::Method(PropName::Str("_4".to_string()), 4),
            ClassMember::StaticBlock(sp(0, 0), vec![expr_stmt("a")]),
            ClassMember::StaticBlock(sp(0, 0), vec![expr_stmt("b")]),
        ],
        rest: 0,
    };
    let mut t = ClassStaticBlock::new();
    t.enter_class(&mut class);
    // `_4` is a string key, which cannot clash with a private name.
    assert_eq!(field(&class.body[4]).0, "_4");
    assert_eq!(field(&class.body[5]).0, "_5");
    assert!(matches!(class.body[0], ClassMember::PrivateMethod(_, 1)));
}

#[test]
fn class_without_static_block_is_left_alone() {
    let mut class = Class { span: sp(0, 0), body: vec![ClassMember::Other(9)], rest: 0 };
    let before = format!("{:?}", class);
    let mut t = ClassStaticBlock::new();
    t.enter_class(&mut class);
    assert_eq!(format!("{:?}", class), before);
}

#[test]
fn empty_static_block_becomes_called_arrow() {
    let mut class = Class { span: sp(0, 0), body: vec![ClassMember::StaticBlock(sp(3, 4), vec![])], rest: 0 };
    let mut t = ClassStaticBlock::new();
    t.enter_class(&mut class);
    let (k, v, _) = field(&class.body[0]);
    assert_eq!(k, "_");
    assert!(matches!(v, Expr::Call(_, _)));
}

#[test]
fn variable_declaration_binds_the_initializer() {
    let x = Ident { sym: "x".to_string(), ctxt: 3, span: sp(0, 0) };
    match create_variable_declaration(&x, Box::new(call("f"))) {
        Stmt::Decl(Decl::Var(v)) => {
            assert_eq!(v.kind, VarDeclKind::Var);
            assert_eq!(v.decls.len(), 1);
            match &v.decls[0].name {
                Pat::Ident(i) => {
                    assert_eq!(i.sym, "x");
                    assert_eq!(i.ctxt, 3);
                },
                other => panic!("unexpected pattern {:?}", other),
            }
            assert!(matches!(v.decls[0].init.as_deref(), Some(Expr::Call(_, _))));
        },
        other => panic!("not a var declaration: {:?}", other),
    }
}

#[test]
fn expressions_become_statements_in_order() {
    let stmts = exprs_into_stmts(vec![Box::new(call("a")), Box::new(call("b")), Box::new(call("c"))]);
    let names: Vec<String> = stmts
        .iter()
        .map(|s| match s {
            Stmt::Expr(_, e) => match &**e {
                Expr::Call(callee, _) => match &**callee {
                    Expr::Ident(i) => i.sym.clone(),
                    _ => panic!("unexpected callee"),
                },
                _ => panic!("unexpected expression"),
            },
            other => panic!("not an expression statement: {:?}", other),
        })
        .collect();
    assert_eq!(names, vec!["a", "b", "c"]);
    assert!(exprs_into_stmts(vec![]).is_empty());
}
