use swc_ecma_compiler::ast::{
    AssignOp, AssignTarget, Expr, Ident, Lit, ModuleDecl, ModuleItem, Program, Span, Stmt, Tpl,
};
use swc_ecma_compiler::compiler::CompatCompiler;
use swc_ecma_compiler::computed_key::{create_computed_key_temp_var, key_needs_temp_var};
use swc_ecma_compiler::context::{Assumptions, TransformCtx};
use swc_ecma_compiler::duplicate::duplicate_expression;
use swc_ecma_compiler::jsx::{invalid_pragma, valueless_key};
use swc_ecma_compiler::module_imports::ModuleImportsStore;
use swc_ecma_compiler::options::default_as_true;
use swc_ecma_compiler::top_level_statements::TopLevelStatementsStore;

fn sp() -> Span {
    Span { lo: 0, hi: 0 }
}

fn ident(name: &str) -> Ident {
    Ident { sym: name.to_string(), ctxt: 0, span: sp() }
}

fn assumptions() -> Assumptions {
    Assumptions { no_document_all: false, set_public_class_fields: false, private_fields_as_properties: false }
}

#[test]
fn context_names_the_file_after_its_stem() {
    let c = TransformCtx::new("/a/b/input.js".to_string(), assumptions());
    assert_eq!(c.filename, "input");
    assert_eq!(c.source_path, "/a/b/input.js");
    assert_eq!(TransformCtx::filename_from_stem(None), "unknown");
    let compiler = CompatCompiler::new("x.ts".to_string(), assumptions());
    assert_eq!(compiler.context().filename, "x");
}

#[test]
fn errors_are_taken_once() {
    let mut c = TransformCtx::new("t.js".to_string(), assumptions());
    c.error("one".to_string());
    c.error("two".to_string());
    assert_eq!(c.take_errors(), vec!["one".to_string(), "two".to_string()]);
    assert!(c.take_errors().is_empty());
}

#[test]
fn literal_keys_need_no_temporary() {
    assert!(!key_needs_temp_var(&Expr::Lit(Lit::Str("k".to_string()))));
    assert!(!key_needs_temp_var(&Expr::Tpl(Tpl { span: sp(), exprs: vec![], quasis: vec![] })));
    assert!(key_needs_temp_var(&Expr::Ident(ident("k"))));
    let (assign, reference) = create_computed_key_temp_var(Box::new(Expr::Ident(ident("k"))), "_k".to_string());
    match (*assign, *reference) {
        (Expr::Assign(AssignOp::Assign, AssignTarget::Ident(t), v), Expr::Ident(r)) => {
            assert_eq!(t.sym, "_k");
            assert_eq!(r.sym, "_k");
            assert!(matches!(*v, Expr::Ident(k) if k.sym == "k"));
        },
        other => panic!("unexpected {:?}", other),
    }
}

#[test]
fn duplicating_a_call_goes_through_a_temporary() {
    let call = Expr::Call(Box::new(Expr::Ident(ident("f"))), vec![]);
    let r = duplicate_expression(Box::new(call), 2, "_t".to_string());
    assert!(matches!(&*r.original, Expr::Assign(AssignOp::Assign, AssignTarget::Ident(t), _) if t.sym == "_t"));
    assert_eq!(r.duplicates.len(), 2);
    assert!(r.duplicates.iter().all(|d| matches!(&**d, Expr::Ident(t) if t.sym == "_t")));

    let lit = Expr::Lit(Lit::Num("1".to_string()));
    let r = duplicate_expression(Box::new(lit), 1, "_t".to_string());
    assert!(matches!(&*r.original, Expr::Lit(_)));
    assert!(matches!(&*r.duplicates[0], Expr::Lit(_)));
}

#[test]
fn jsx_diagnostics_and_defaults() {
    assert!(invalid_pragma().starts_with("pragma and pragmaFrag must be"));
    assert_eq!(valueless_key(), "Please provide an explicit key value. Using \"key\" as a shorthand for \"key={true}\" is not allowed.");
    assert!(default_as_true());
}

#[test]
fn top_level_statements_go_after_imports() {
    let mut store = TopLevelStatementsStore::new();
    store.insert_statement(Stmt::Empty(Span { lo: 7, hi: 7 }));
    assert_eq!(store.len(), 1);
    let import = ModuleItem::ModuleDecl(ModuleDecl::Import(swc_ecma_compiler::ast::ImportDecl {
        specifiers: vec![],
        src: "m".to_string(),
        type_only: false,
        with: None,
    }));
    let mut program = Program::Module(vec![import, ModuleItem::Stmt(Stmt::Empty(Span { lo: 1, hi: 1 }))]);
    store.insert_into_program(&mut program);
    assert!(store.is_empty());
    match &program {
        Program::Module(items) => {
            assert_eq!(items.len(), 3);
            assert!(matches!(&items[0], ModuleItem::ModuleDecl(ModuleDecl::Import(_))));
            assert!(matches!(&items[1], ModuleItem::Stmt(Stmt::Empty(s)) if s.lo == 7));
        },
        _ => panic!(),
    }
}

#[test]
fn top_level_statements_go_before_leading_reexports() {
    let mut store = TopLevelStatementsStore::new();
    store.insert_statement(Stmt::Empty(Span { lo: 7, hi: 7 }));
    let import = ModuleItem::ModuleDecl(ModuleDecl::Import(swc_ecma_compiler::ast::ImportDecl {
        specifiers: vec![],
        src: "m".to_string(),
        type_only: false,
        with: None,
    }));
    let reexport = ModuleItem::ModuleDecl(ModuleDecl::ExportAll(3));
    let mut program = Program::Module(vec![import, reexport]);
    store.insert_into_program(&mut program);
    match &program {
        Program::Module(items) => {
            assert_eq!(items.len(), 3);
            assert!(matches!(&items[1], ModuleItem::Stmt(Stmt::Empty(s)) if s.lo == 7));
            assert!(matches!(&items[2], ModuleItem::ModuleDecl(ModuleDecl::ExportAll(3))));
        },
        _ => panic!(),
    }
}

#[test]
fn imports_are_grouped_by_source() {
    let mut store = ModuleImportsStore::new();
    store.add_named_import("react".to_string(), "useState".to_string(), ident("useState"), false);
    store.add_default_import("react".to_string(), ident("React"), true);
    store.add_named_import("other".to_string(), "x".to_string(), ident("x"), false);
    let items = store.finalize(true);
    assert!(store.is_empty());
    assert_eq!(items.len(), 2);
    match &items[0] {
        ModuleItem::ModuleDecl(ModuleDecl::Import(d)) => {
            assert_eq!(d.src, "react");
            assert_eq!(d.specifiers.len(), 2);
            assert!(matches!(&d.specifiers[0], swc_ecma_compiler::ast::ImportSpecifier::Named(i, _) if i.sym == "useState"));
            assert!(matches!(&d.specifiers[1], swc_ecma_compiler::ast::ImportSpecifier::Default(i) if i.sym == "React"));
        },
        _ => panic!(),
    }
}
