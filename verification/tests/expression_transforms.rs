use swc_ecma_compiler::ast::{
    AssignOp, AssignTarget, BinaryOp, Expr, Ident, Lit, MemberExpr, MemberProp, ModuleDecl,
    ModuleExportName, ModuleItem, NamedExport, ExportSpecifier, Span, UnaryOp,
};
use swc_ecma_compiler::ast::{ArrowBody, ArrowExpr, PropName, PropOrSpread, Stmt};
use swc_ecma_compiler::context::{Assumptions, TransformCtx};
use swc_ecma_compiler::es2015::{ArrowFunctionsOptions, ES2015Options, ES2015};
use swc_ecma_compiler::es2018::{ObjectRestSpread, ObjectRestSpreadOptions};
use swc_ecma_compiler::es2016::{ES2016Options, ES2016};
use swc_ecma_compiler::es2020::export_namespace_from::ExportNamespaceFrom;
use swc_ecma_compiler::es2020::nullish_coalescing_operator::NullishCoalescingOperator;
use swc_ecma_compiler::es2020::optional_chaining::OptionalChaining;
use swc_ecma_compiler::ast::OptChainBase;
use swc_ecma_compiler::es2021::{assign_op_to_binary_op, ES2021Options, ES2021};

fn sp() -> Span {
    Span { lo: 0, hi: 0 }
}

fn ident(name: &str) -> Ident {
    Ident { sym: name.to_string(), ctxt: 0, span: sp() }
}

fn id(name: &str) -> Expr {
    Expr::Ident(ident(name))
}

fn ctx() -> TransformCtx {
    let assumptions = Assumptions { no_document_all: false, set_public_class_fields: false, private_fields_as_properties: false };
    TransformCtx::new("test.js".to_string(), assumptions)
}

fn is_ident(e: &Expr, name: &str) -> bool {
    matches!(e, Expr::Ident(i) if i.sym == name)
}

/// The callee `obj.prop` of a call, as names.
fn member_names(e: &Expr) -> (String, String) {
    match e {
        Expr::Member(MemberExpr { obj, prop: MemberProp::Ident(p) }) => match &**obj {
            Expr::Ident(o) => (o.sym.clone(), p.sym.clone()),
            _ => panic!("not a name"),
        },
        other => panic!("not a member: {:?}", other),
    }
}

#[test]
fn exponent_becomes_math_pow() {
    let c = ctx();
    let mut t = ES2016::new(ES2016Options { exponentiation_operator: true }, &c);
    let mut e = Expr::Bin(BinaryOp::Exp, Box::new(id("a")), Box::new(id("b")));
    t.enter_expr(&mut e);
    match &e {
        Expr::Call(callee, args) => {
            assert_eq!(member_names(callee), ("Math".to_string(), "pow".to_string()));
            assert_eq!(args.len(), 2);
            assert!(is_ident(&args[0].expr, "a"));
            assert!(is_ident(&args[1].expr, "b"));
        },
        other => panic!("not a call: {:?}", other),
    }
}

#[test]
fn exponent_of_big_int_is_kept() {
    let c = ctx();
    let mut t = ES2016::new(ES2016Options { exponentiation_operator: true }, &c);
    let mut e = Expr::Bin(BinaryOp::Exp, Box::new(Expr::Lit(Lit::BigInt("2".to_string()))), Box::new(id("b")));
    t.enter_expr(&mut e);
    assert!(matches!(e, Expr::Bin(BinaryOp::Exp, _, _)));
}

#[test]
fn exponent_assignment_to_name() {
    let c = ctx();
    let mut t = ES2016::new(ES2016Options { exponentiation_operator: true }, &c);
    let mut e = Expr::Assign(AssignOp::ExpAssign, AssignTarget::Ident(ident("x")), Box::new(id("y")));
    t.enter_expr(&mut e);
    match &e {
        Expr::Assign(AssignOp::Assign, AssignTarget::Ident(x), rhs) => {
            assert_eq!(x.sym, "x");
            assert!(matches!(&**rhs, Expr::Call(_, args) if args.len() == 2 && is_ident(&args[0].expr, "x")));
        },
        other => panic!("unexpected: {:?}", other),
    }
}

/// `obj["key"]`, as a member with a string key.
fn string_key_member(e: &MemberExpr) -> (String, String) {
    match (&*e.obj, &e.prop) {
        (Expr::Ident(o), MemberProp::Computed(k)) => match &**k {
            Expr::Lit(Lit::Str(key)) => (o.sym.clone(), key.clone()),
            other => panic!("not a string key: {:?}", other),
        },
        other => panic!("not a computed member: {:?}", other),
    }
}

#[test]
fn exponent_assignment_to_static_member() {
    // `obj.prop **= 4` becomes `obj["prop"] = Math.pow(obj["prop"], 4)`.
    let c = ctx();
    let mut t = ES2016::new(ES2016Options { exponentiation_operator: true }, &c);
    let target = MemberExpr { obj: Box::new(id("obj")), prop: MemberProp::Ident(ident("prop")) };
    let mut e = Expr::Assign(AssignOp::ExpAssign, AssignTarget::Member(target), Box::new(Expr::Lit(Lit::Num("4".to_string()))));
    t.enter_expr(&mut e);
    match &e {
        Expr::Assign(AssignOp::Assign, AssignTarget::Member(m), rhs) => {
            assert_eq!(string_key_member(m), ("obj".to_string(), "prop".to_string()));
            match &**rhs {
                Expr::Call(callee, args) => {
                    assert_eq!(member_names(callee), ("Math".to_string(), "pow".to_string()));
                    match &args[0].expr {
                        Expr::Member(base) => assert_eq!(string_key_member(base), ("obj".to_string(), "prop".to_string())),
                        other => panic!("not a member: {:?}", other),
                    }
                    assert!(matches!(&args[1].expr, Expr::Lit(Lit::Num(n)) if n == "4"));
                },
                other => panic!("not a call: {:?}", other),
            }
        },
        other => panic!("unexpected: {:?}", other),
    }
}

#[test]
fn exponent_assignment_to_private_field() {
    // `obj.#p **= y` becomes `obj.#p = Math.pow(obj.#p, y)`.
    let c = ctx();
    let mut t = ES2016::new(ES2016Options { exponentiation_operator: true }, &c);
    let target = MemberExpr { obj: Box::new(id("obj")), prop: MemberProp::PrivateName("p".to_string()) };
    let mut e = Expr::Assign(AssignOp::ExpAssign, AssignTarget::Member(target), Box::new(id("y")));
    t.enter_expr(&mut e);
    match &e {
        Expr::Assign(AssignOp::Assign, AssignTarget::Member(m), rhs) => {
            assert!(matches!(&m.prop, MemberProp::PrivateName(n) if n == "p"));
            match &**rhs {
                Expr::Call(_, args) => {
                    assert!(matches!(&args[0].expr, Expr::Member(b) if matches!(&b.prop, MemberProp::PrivateName(n) if n == "p")));
                    assert!(is_ident(&args[1].expr, "y"));
                },
                other => panic!("not a call: {:?}", other),
            }
        },
        other => panic!("unexpected: {:?}", other),
    }
}

#[test]
fn logical_assignment_operators() {
    assert_eq!(assign_op_to_binary_op(AssignOp::AddAssign), None);
    assert_eq!(assign_op_to_binary_op(AssignOp::AndAssign), Some(BinaryOp::LogicalAnd));
    assert_eq!(assign_op_to_binary_op(AssignOp::NullishAssign), Some(BinaryOp::NullishCoalescing));
    assert_eq!(assign_op_to_binary_op(AssignOp::Assign), None);
    let c = ctx();
    let mut t = ES2021::new(ES2021Options { logical_assignment_operators: true }, &c);
    // `a ||= b` becomes `a || (a = b)`.
    let mut e = Expr::Assign(AssignOp::OrAssign, AssignTarget::Ident(ident("a")), Box::new(id("b")));
    t.enter_expr(&mut e);
    match &e {
        Expr::Bin(BinaryOp::LogicalOr, l, r) => {
            assert!(is_ident(l, "a"));
            match &**r {
                Expr::Assign(AssignOp::Assign, AssignTarget::Ident(a), v) => {
                    assert_eq!(a.sym, "a");
                    assert!(is_ident(v, "b"));
                },
                _ => panic!(),
            }
        },
        other => panic!("unexpected: {:?}", other),
    }
}

#[test]
fn nullish_on_a_name_tests_it_twice() {
    let c = ctx();
    let mut t = NullishCoalescingOperator::new(&c);
    t.enter_module();
    let mut e = Expr::Bin(BinaryOp::NullishCoalescing, Box::new(id("a")), Box::new(id("b")));
    t.exit_expr(&mut e);
    match &e {
        Expr::Cond(test, cons, alt) => {
            assert!(is_ident(cons, "a"));
            assert!(is_ident(alt, "b"));
            match &**test {
                Expr::Bin(BinaryOp::LogicalAnd, l, r) => {
                    assert!(matches!(&**l, Expr::Bin(BinaryOp::NotEqEq, x, n) if is_ident(x, "a") && matches!(&**n, Expr::Lit(Lit::Null))));
                    match &**r {
                        Expr::Bin(BinaryOp::NotEqEq, x, v) => {
                            assert!(is_ident(x, "a"));
                            assert!(matches!(&**v, Expr::Unary(UnaryOp::Void, z) if matches!(&**z, Expr::Lit(Lit::Num(n)) if n == "0")));
                        },
                        _ => panic!(),
                    }
                },
                _ => panic!(),
            }
        },
        other => panic!("unexpected: {:?}", other),
    }
}

#[test]
fn export_namespace_from_becomes_import_and_export() {
    let mut t = ExportNamespaceFrom::new();
    let mut body = vec![ModuleItem::ModuleDecl(ModuleDecl::ExportNamed(NamedExport {
        specifiers: vec![ExportSpecifier::Namespace(ModuleExportName::Ident(ident("ns")))],
        src: Some("mod".to_string()),
        type_only: false,
        with: None,
    }))];
    t.exit_module(&mut body);
    assert_eq!(body.len(), 2);
    assert!(matches!(&body[0], ModuleItem::ModuleDecl(ModuleDecl::Import(d)) if d.src == "mod"));
    assert!(matches!(&body[1], ModuleItem::ModuleDecl(ModuleDecl::ExportNamed(n)) if n.src.is_none()));
}

#[test]
fn generated_names_are_unique() {
    let mut t = ExportNamespaceFrom::new();
    let a = t.generate_uid("ns");
    let b = t.generate_uid("ns");
    let c = t.generate_uid("ns");
    assert_eq!(a, "_ns");
    assert_eq!(b, "_ns2");
    assert_eq!(c, "_ns3");
}

#[test]
fn object_spread_becomes_helper_call() {
    let mut c = ctx();
    let mut t = ObjectRestSpread::new(ObjectRestSpreadOptions { loose: false, use_built_ins: false }, &mut c);
    assert!(c.take_errors().is_empty());
    // `{ ...a, b: 1 }` becomes `babelHelpers.objectSpread2({}, a, { b: 1 })`.
    let mut e = Expr::Object(vec![
        PropOrSpread::Spread(id("a")),
        PropOrSpread::KeyValue(PropName::Ident("b".to_string()), Expr::Lit(Lit::Num("1".to_string()))),
    ]);
    t.exit_expr(&mut e);
    match &e {
        Expr::Call(callee, args) => {
            assert_eq!(member_names(callee), ("babelHelpers".to_string(), "objectSpread2".to_string()));
            assert_eq!(args.len(), 3);
            assert!(matches!(&args[0].expr, Expr::Object(ps) if ps.is_empty()));
            assert!(is_ident(&args[1].expr, "a"));
            assert!(matches!(&args[2].expr, Expr::Object(ps) if ps.len() == 1));
        },
        other => panic!("unexpected: {:?}", other),
    }
}

#[test]
fn unsupported_spread_options_are_reported() {
    let mut c = ctx();
    let _t = ObjectRestSpread::new(ObjectRestSpreadOptions { loose: true, use_built_ins: true }, &mut c);
    assert_eq!(c.take_errors().len(), 2);
    assert!(c.take_errors().is_empty());
}

#[test]
fn arrow_function_becomes_function_expression() {
    let c = ctx();
    let mut t = ES2015::new(ES2015Options { arrow_function: Some(ArrowFunctionsOptions { spec: false }) }, &c);
    let mut e = Expr::Arrow(ArrowExpr {
        span: Span { lo: 4, hi: 8 },
        params: vec![],
        body: ArrowBody::Expr(Box::new(id("x"))),
        is_async: false,
        is_generator: false,
    });
    t.exit_expr(&mut e);
    match &e {
        Expr::Fn(None, f) => {
            assert_eq!(f.span, Span { lo: 4, hi: 8 });
            let body = f.body.as_ref().unwrap();
            assert!(matches!(&body[0], Stmt::Return(_, Some(x)) if is_ident(x, "x")));
        },
        other => panic!("unexpected: {:?}", other),
    }
}

#[test]
fn logical_assignment_to_a_member_uses_a_declared_temporary() {
    let c = ctx();
    let mut t = ES2021::new(ES2021Options { logical_assignment_operators: true }, &c);
    t.logical_assignment_operators.enter_block_stmt();
    // `obj.a.b ||= c` becomes `(_obj = obj.a).b || (_obj.b = c)`.
    let obj_a = Expr::Member(MemberExpr { obj: Box::new(id("obj")), prop: MemberProp::Ident(ident("a")) });
    let target = AssignTarget::Member(MemberExpr { obj: Box::new(obj_a), prop: MemberProp::Ident(ident("b")) });
    let mut e = Expr::Assign(AssignOp::OrAssign, target, Box::new(id("c")));
    t.enter_expr(&mut e);
    assert_eq!(t.logical_assignment_operators.uid_counter, 1);
    match &e {
        Expr::Bin(BinaryOp::LogicalOr, l, r) => {
            match &**l {
                Expr::Member(MemberExpr { obj, prop: MemberProp::Ident(b) }) => {
                    assert_eq!(b.sym, "b");
                    match &**obj {
                        Expr::Paren(inner) => match &**inner {
                            Expr::Assign(AssignOp::Assign, AssignTarget::Ident(tmp), v) => {
                                assert_eq!(tmp.sym, "_obj");
                                assert_eq!(member_names(v), ("obj".to_string(), "a".to_string()));
                            },
                            other => panic!("not the temporary's assignment: {:?}", other),
                        },
                        Expr::Assign(AssignOp::Assign, AssignTarget::Ident(tmp), v) => {
                            assert_eq!(tmp.sym, "_obj");
                            assert_eq!(member_names(v), ("obj".to_string(), "a".to_string()));
                        },
                        other => panic!("not the temporary's assignment: {:?}", other),
                    }
                },
                other => panic!("not a member read: {:?}", other),
            }
            match &**r {
                Expr::Assign(AssignOp::Assign, AssignTarget::Member(m), v) => {
                    assert!(is_ident(&m.obj, "_obj"));
                    assert!(is_ident(v, "c"));
                },
                Expr::Paren(inner) => match &**inner {
                    Expr::Assign(AssignOp::Assign, AssignTarget::Member(m), v) => {
                        assert!(is_ident(&m.obj, "_obj"));
                        assert!(is_ident(v, "c"));
                    },
                    other => panic!("not the store: {:?}", other),
                },
                other => panic!("not the store: {:?}", other),
            }
        },
        other => panic!("unexpected: {:?}", other),
    }
    // The temporary is declared with `var` in the enclosing block.
    let mut stmts = vec![Stmt::Expr(sp(), Box::new(e))];
    t.logical_assignment_operators.exit_block_stmt(&mut stmts);
    assert_eq!(stmts.len(), 2);
    match &stmts[0] {
        Stmt::Decl(swc_ecma_compiler::ast::Decl::Var(v)) => {
            assert_eq!(v.kind, swc_ecma_compiler::ast::VarDeclKind::Var);
            assert_eq!(v.decls.len(), 1);
            assert!(matches!(&v.decls[0].name, swc_ecma_compiler::ast::Pat::Ident(i) if i.sym == "_obj"));
        },
        other => panic!("no declaration: {:?}", other),
    }
}

#[test]
fn optional_method_call_keeps_its_receiver() {
    let c = ctx();
    let mut t = OptionalChaining::new(&c);
    t.enter_block_stmt();
    // `a.b?.()` becomes `(_temp = a.b) === null || _temp === void 0 ? void 0 : _temp.call(a)`.
    let callee = Expr::Member(MemberExpr { obj: Box::new(id("a")), prop: MemberProp::Ident(ident("b")) });
    let mut e = Expr::OptChain(OptChainBase::Call(Box::new(callee), vec![]));
    t.exit_expr(&mut e);
    match &e {
        Expr::Cond(_, cons, alt) => {
            assert!(matches!(&**cons, Expr::Unary(UnaryOp::Void, _)));
            match &**alt {
                Expr::Call(f, args) => {
                    assert_eq!(member_names(f), ("_temp".to_string(), "call".to_string()));
                    assert_eq!(args.len(), 1);
                    assert!(is_ident(&args[0].expr, "a"));
                },
                other => panic!("not a call: {:?}", other),
            }
        },
        other => panic!("unexpected: {:?}", other),
    }
    let mut stmts = vec![Stmt::Expr(sp(), Box::new(e))];
    t.exit_block_stmt(&mut stmts);
    assert_eq!(stmts.len(), 2);
    assert!(matches!(&stmts[0], Stmt::Decl(swc_ecma_compiler::ast::Decl::Var(_))));
}

#[test]
fn this_inside_an_arrow_function_becomes_the_binding() {
    let c = ctx();
    let mut t = ES2015::new(ES2015Options { arrow_function: Some(ArrowFunctionsOptions { spec: false }) }, &c);
    t.arrow_functions.enter_module();
    // `f => console.log(this.name + " knows " + f)`.
    let this_name = Expr::Member(MemberExpr { obj: Box::new(Expr::This), prop: MemberProp::Ident(ident("name")) });
    let text = Expr::Bin(
        BinaryOp::Add,
        Box::new(Expr::Bin(BinaryOp::Add, Box::new(this_name), Box::new(Expr::Lit(Lit::Str(" knows ".to_string()))))),
        Box::new(id("f")),
    );
    let log = Expr::Member(MemberExpr { obj: Box::new(id("console")), prop: MemberProp::Ident(ident("log")) });
    let call = Expr::Call(Box::new(log), vec![swc_ecma_compiler::ast::Arg { spread: false, expr: text }]);
    let mut e = Expr::Arrow(ArrowExpr {
        span: sp(),
        params: vec![swc_ecma_compiler::ast::Pat::Ident(ident("f"))],
        body: ArrowBody::Expr(Box::new(call)),
        is_async: false,
        is_generator: false,
    });
    t.exit_expr(&mut e);
    assert!(t.arrow_functions.needs_this_binding);
    assert_eq!(t.arrow_functions.this_var_name, Some("_this".to_string()));
    assert_eq!(t.arrow_functions.uid_counter, 1);
    // `function (f) { return console.log(_this.name + " knows " + f); }`
    match &e {
        Expr::Fn(None, f) => {
            let body = f.body.as_ref().unwrap();
            match &body[0] {
                Stmt::Return(_, Some(r)) => match &**r {
                    Expr::Call(_, args) => match &args[0].expr {
                        Expr::Bin(BinaryOp::Add, l, _) => match &**l {
                            Expr::Bin(BinaryOp::Add, m, _) => {
                                assert_eq!(member_names(m), ("_this".to_string(), "name".to_string()));
                            },
                            other => panic!("unexpected: {:?}", other),
                        },
                        other => panic!("unexpected: {:?}", other),
                    },
                    other => panic!("unexpected: {:?}", other),
                },
                other => panic!("unexpected: {:?}", other),
            }
        },
        other => panic!("unexpected: {:?}", other),
    }
    // `b => b` reaches no `this`: no binding is made for it.
    let mut plain = Expr::Arrow(ArrowExpr {
        span: sp(),
        params: vec![swc_ecma_compiler::ast::Pat::Ident(ident("b"))],
        body: ArrowBody::Expr(Box::new(id("b"))),
        is_async: false,
        is_generator: false,
    });
    let mut fresh = ES2015::new(ES2015Options { arrow_function: Some(ArrowFunctionsOptions { spec: false }) }, &c);
    fresh.exit_expr(&mut plain);
    assert!(!fresh.arrow_functions.needs_this_binding);
    assert_eq!(fresh.arrow_functions.uid_counter, 0);
    assert!(matches!(&plain, Expr::Fn(None, _)));
    // Leaving the module declares `var _this = this` in its first block.
    let mut body = vec![ModuleItem::Stmt(Stmt::Block(sp(), vec![Stmt::Expr(sp(), Box::new(e))]))];
    t.arrow_functions.exit_module(&mut body);
    match &body[0] {
        ModuleItem::Stmt(Stmt::Block(_, stmts)) => {
            assert_eq!(stmts.len(), 2);
            match &stmts[0] {
                Stmt::Decl(swc_ecma_compiler::ast::Decl::Var(v)) => {
                    assert!(matches!(&v.decls[0].name, swc_ecma_compiler::ast::Pat::Ident(i) if i.sym == "_this"));
                    assert!(matches!(v.decls[0].init.as_deref(), Some(Expr::This)));
                },
                other => panic!("no declaration: {:?}", other),
            }
        },
        _ => panic!(),
    }
}

#[test]
fn namespace_reexports_with_one_name_get_different_locals() {
    let mut t = ExportNamespaceFrom::new();
    let ns_export = |src: &str| {
        ModuleItem::ModuleDecl(ModuleDecl::ExportNamed(NamedExport {
            specifiers: vec![ExportSpecifier::Namespace(ModuleExportName::Ident(ident("ns")))],
            src: Some(src.to_string()),
            type_only: false,
            with: None,
        }))
    };
    let mut body = vec![ns_export("a"), ns_export("b")];
    t.exit_module(&mut body);
    assert_eq!(body.len(), 4);
    let local = |item: &ModuleItem| match item {
        ModuleItem::ModuleDecl(ModuleDecl::Import(d)) => match &d.specifiers[0] {
            swc_ecma_compiler::ast::ImportSpecifier::Namespace(i) => i.sym.clone(),
            _ => panic!("not a namespace import"),
        },
        _ => panic!("not an import"),
    };
    assert_eq!(local(&body[0]), "_ns2");
    assert_eq!(local(&body[2]), "_ns");
    assert_eq!(t.uid_counter, 2);
}

#[test]
fn optional_chain_temporary_is_declared_at_module_level() {
    let c = ctx();
    let mut t = OptionalChaining::new(&c);
    t.enter_module();
    let callee = Expr::Member(MemberExpr { obj: Box::new(id("a")), prop: MemberProp::Ident(ident("b")) });
    let mut e = Expr::OptChain(OptChainBase::Call(Box::new(callee), vec![]));
    t.exit_expr(&mut e);
    // No block statement at the top level: the `var` goes in front of the body.
    let mut body = vec![ModuleItem::Stmt(Stmt::Expr(sp(), Box::new(e)))];
    t.exit_module(&mut body);
    assert_eq!(body.len(), 2);
    match &body[0] {
        ModuleItem::Stmt(Stmt::Decl(swc_ecma_compiler::ast::Decl::Var(v))) => {
            assert!(matches!(&v.decls[0].name, swc_ecma_compiler::ast::Pat::Ident(i) if i.sym == "_temp"));
        },
        other => panic!("no declaration: {:?}", other),
    }
    assert!(matches!(&body[1], ModuleItem::Stmt(Stmt::Expr(_, _))));
}

#[test]
fn this_binding_is_declared_in_the_enclosing_method() {
    let c = ctx();
    let mut t = ES2015::new(ES2015Options { arrow_function: Some(ArrowFunctionsOptions { spec: false }) }, &c);
    t.arrow_functions.enter_module();
    // printFriends() { this.friends.forEach(f => console.log(this.name + " knows " + f)); }
    t.arrow_functions.enter_function();
    let this_name = Expr::Member(MemberExpr { obj: Box::new(Expr::This), prop: MemberProp::Ident(ident("name")) });
    let log = Expr::Member(MemberExpr { obj: Box::new(id("console")), prop: MemberProp::Ident(ident("log")) });
    let call = Expr::Call(Box::new(log), vec![swc_ecma_compiler::ast::Arg { spread: false, expr: this_name }]);
    let mut arrow = Expr::Arrow(ArrowExpr {
        span: sp(),
        params: vec![swc_ecma_compiler::ast::Pat::Ident(ident("f"))],
        body: ArrowBody::Expr(Box::new(call)),
        is_async: false,
        is_generator: false,
    });
    t.exit_expr(&mut arrow);
    assert!(t.arrow_functions.needs_this_binding);
    let friends = Expr::Member(MemberExpr { obj: Box::new(Expr::This), prop: MemberProp::Ident(ident("friends")) });
    let for_each = Expr::Member(MemberExpr { obj: Box::new(friends), prop: MemberProp::Ident(ident("forEach")) });
    let stmt = Stmt::Expr(sp(), Box::new(Expr::Call(Box::new(for_each), vec![swc_ecma_compiler::ast::Arg { spread: false, expr: arrow }])));
    let mut method = swc_ecma_compiler::ast::Function {
        span: sp(),
        params: vec![],
        body: Some(vec![stmt]),
        is_async: false,
        is_generator: false,
    };
    t.arrow_functions.exit_function(&mut method);
    // `var _this = this;` opens the method; the method's own `this` stays.
    let body = method.body.as_ref().unwrap();
    assert_eq!(body.len(), 2);
    match &body[0] {
        Stmt::Decl(swc_ecma_compiler::ast::Decl::Var(v)) => {
            assert_eq!(v.kind, swc_ecma_compiler::ast::VarDeclKind::Var);
            assert!(matches!(&v.decls[0].name, swc_ecma_compiler::ast::Pat::Ident(i) if i.sym == "_this"));
            assert!(matches!(v.decls[0].init.as_deref(), Some(Expr::This)));
        },
        other => panic!("no declaration: {:?}", other),
    }
    match &body[1] {
        Stmt::Expr(_, e) => match &**e {
            Expr::Call(callee, _) => match &**callee {
                Expr::Member(MemberExpr { obj, .. }) => {
                    assert!(matches!(&**obj, Expr::Member(MemberExpr { obj: o, .. }) if matches!(&**o, Expr::This)));
                },
                other => panic!("unexpected: {:?}", other),
            },
            other => panic!("unexpected: {:?}", other),
        },
        other => panic!("unexpected: {:?}", other),
    }
    // Outside the method nothing is needed.
    assert!(!t.arrow_functions.needs_this_binding);
    assert!(t.arrow_functions.this_var_name.is_none());
    assert!(t.arrow_functions.this_scopes.is_empty());
}
