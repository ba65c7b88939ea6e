use swc_ecma_compiler::ast::{
    Expr, Ident, ImportDecl, ImportSpecifier, Lit, MemberExpr, MemberProp, ModuleDecl,
    ModuleExportName, ModuleItem, PropName, PropOrSpread, Span, Tpl, TplElement,
};
use swc_ecma_compiler::context::{Assumptions, TransformCtx};
use swc_ecma_compiler::plugins::{Plugins, PluginsOptions};
use swc_ecma_compiler::styled_components::{
    base36_encode, choose_block_name, is_valid_styled_component_source, StyledComponents,
    StyledComponentsHelper, StyledComponentsOptions,
};

fn sp() -> Span {
    Span { lo: 0, hi: 0 }
}

fn ident(name: &str) -> Ident {
    Ident { sym: name.to_string(), ctxt: 0, span: sp() }
}

fn ctx(path: &str) -> TransformCtx {
    let assumptions = Assumptions { no_document_all: false, set_public_class_fields: false, private_fields_as_properties: false };
    TransformCtx::new(path.to_string(), assumptions)
}

fn member(obj: Expr, prop: &str) -> Expr {
    Expr::Member(MemberExpr { obj: Box::new(obj), prop: MemberProp::Ident(ident(prop)) })
}

fn styled_import(specifiers: Vec<ImportSpecifier>, src: &str) -> ModuleItem {
    ModuleItem::ModuleDecl(ModuleDecl::Import(ImportDecl { specifiers, src: src.to_string(), type_only: false, with: None }))
}

fn tagged(tag: Expr, raw: &str) -> Expr {
    Expr::TaggedTpl(
        Box::new(tag),
        Tpl {
            span: Span { lo: 3, hi: 9 },
            exprs: vec![],
            quasis: vec![TplElement { span: sp(), tail: true, cooked: None, raw: raw.as_bytes().to_vec() }],
        },
    )
}

/// The string properties of an object literal.
fn string_props(e: &Expr) -> Vec<(String, String)> {
    match e {
        Expr::Object(ps) => ps
            .iter()
            .map(|p| match p {
                PropOrSpread::KeyValue(PropName::Ident(k), Expr::Lit(Lit::Str(v))) => (k.clone(), v.clone()),
                other => panic!("unexpected property {:?}", other),
            })
            .collect(),
        other => panic!("not an object: {:?}", other),
    }
}

#[test]
fn helpers_are_found_by_name() {
    assert_eq!(StyledComponentsHelper::from_str("css"), Some(StyledComponentsHelper::Css));
    assert_eq!(StyledComponentsHelper::from_str("injectGlobal"), Some(StyledComponentsHelper::InjectGlobal));
    assert_eq!(StyledComponentsHelper::pure_from_str("injectGlobal"), None);
    assert_eq!(StyledComponentsHelper::pure_from_str("keyframes"), Some(StyledComponentsHelper::Keyframes));
    assert_eq!(StyledComponentsHelper::from_str("div"), None);
}

#[test]
fn styled_sources() {
    assert!(is_valid_styled_component_source("styled-components"));
    assert!(is_valid_styled_component_source("styled-components/native"));
    assert!(!is_valid_styled_component_source("styled-components/other"));
    assert!(!is_valid_styled_component_source("emotion"));
}

#[test]
fn base36_writes_least_significant_digit_first() {
    assert_eq!(base36_encode(0), "");
    assert_eq!(base36_encode(1), "b");
    assert_eq!(base36_encode(35), "9");
    assert_eq!(base36_encode(36), "ab");
    assert_eq!(base36_encode(2176782336), "");
    assert_eq!(base36_encode(2176782337), "b");
    assert!(base36_encode(u64::MAX).len() <= 6);
}

#[test]
fn block_name_falls_back_to_directory() {
    let meaningless = vec!["index".to_string()];
    assert_eq!(choose_block_name(&"index".to_string(), &Some("Button".to_string()), &meaningless), "Button");
    assert_eq!(choose_block_name(&"index".to_string(), &None, &meaningless), "index");
    assert_eq!(choose_block_name(&"Card".to_string(), &Some("ui".to_string()), &meaningless), "Card");
}

#[test]
fn styled_template_gets_config_and_becomes_call() {
    let c = ctx("/src/Button/index.js");
    let mut s = StyledComponents::new(StyledComponentsOptions::default(), &c);
    let items = vec![styled_import(vec![ImportSpecifier::Default(ident("styled"))], "styled-components")];
    s.enter_module(&items);
    let mut e = tagged(member(Expr::Ident(ident("styled")), "div"), "\n  color: blue;\n");
    s.enter_expr(&mut e);
    assert_eq!(s.component_count, 1);
    match &e {
        Expr::Call(callee, args) => {
            // `styled.div.withConfig({ .. })`
            match &**callee {
                Expr::Call(wc, wargs) => {
                    match &**wc {
                        Expr::Member(MemberExpr { prop: MemberProp::Ident(p), .. }) => assert_eq!(p.sym, "withConfig"),
                        _ => panic!("withConfig expected"),
                    }
                    let props = string_props(&wargs[0].expr);
                    assert_eq!(props[0], ("displayName".to_string(), "Button".to_string()));
                    assert_eq!(props[1].0, "componentId");
                    assert!(props[1].1.starts_with("sc-"));
                    assert!(props[1].1.ends_with("-0"));
                },
                other => panic!("unexpected callee {:?}", other),
            }
            // `(["color:blue;"])`
            assert_eq!(args.len(), 1);
            match &args[0].expr {
                Expr::Array(span, elems) => {
                    assert_eq!(*span, Span { lo: 3, hi: 9 });
                    match &elems[0] {
                        Expr::Lit(Lit::Str(text)) => assert_eq!(text, "color:blue;"),
                        _ => panic!(),
                    }
                },
                _ => panic!("an array of strings"),
            }
        },
        other => panic!("not transpiled: {:?}", other),
    }
}

#[test]
fn component_ids_count_up_and_carry_the_namespace() {
    let c = ctx("/src/Button/index.js");
    let mut options = StyledComponentsOptions::default();
    options.namespace = Some("app".to_string());
    options.display_name = false;
    options.transpile_template_literals = false;
    let mut s = StyledComponents::new(options, &c);
    let items = vec![styled_import(
        vec![ImportSpecifier::Named(ident("sc"), Some(ModuleExportName::Ident(ident("default"))))],
        "styled-components",
    )];
    s.enter_module(&items);
    let mut ids = vec![];
    for _ in 0..2 {
        let mut e = tagged(member(Expr::Ident(ident("sc")), "p"), "a: b;");
        s.enter_expr(&mut e);
        match &e {
            Expr::TaggedTpl(tag, _) => match &**tag {
                Expr::Call(_, args) => {
                    let props = string_props(&args[0].expr);
                    assert_eq!(props.len(), 1);
                    ids.push(props[0].1.clone());
                },
                _ => panic!(),
            },
            _ => panic!("the template stays when not transpiled"),
        }
    }
    assert!(ids[0].starts_with("app__sc-"));
    assert!(ids[0].ends_with("-0"));
    assert!(ids[1].ends_with("-1"));
    assert_eq!(ids[0][..ids[0].len() - 1], ids[1][..ids[1].len() - 1]);
}

#[test]
fn other_tags_are_left_alone() {
    let c = ctx("/src/a.js");
    let mut s = StyledComponents::new(StyledComponentsOptions::default(), &c);
    let items = vec![styled_import(vec![ImportSpecifier::Default(ident("styled"))], "not-styled")];
    s.enter_module(&items);
    let mut e = tagged(member(Expr::Ident(ident("styled")), "div"), "a: b;");
    let before = format!("{:?}", e);
    s.enter_expr(&mut e);
    assert_eq!(format!("{:?}", e), before);
    assert_eq!(s.component_count, 0);
}

#[test]
fn helper_templates_are_minified_without_config() {
    let c = ctx("/src/a.js");
    let mut s = StyledComponents::new(StyledComponentsOptions::default(), &c);
    let items = vec![styled_import(vec![ImportSpecifier::Named(ident("css"), None)], "styled-components")];
    s.enter_module(&items);
    let mut e = tagged(Expr::Ident(ident("css")), "color: red;");
    s.enter_expr(&mut e);
    assert_eq!(s.component_count, 0);
    match &e {
        Expr::Call(callee, args) => {
            assert!(matches!(&**callee, Expr::Ident(i) if i.sym == "css"));
            match &args[0].expr {
                Expr::Array(_, elems) => match &elems[0] {
                    Expr::Lit(Lit::Str(text)) => assert_eq!(text, "color:red;"),
                    _ => panic!(),
                },
                _ => panic!(),
            }
        },
        _ => panic!("transpiled"),
    }
}

#[test]
fn existing_with_config_gets_the_missing_properties() {
    let c = ctx("/src/Card.js");
    let mut options = StyledComponentsOptions::default();
    options.ssr = false;
    let mut s = StyledComponents::new(options, &c);
    let items = vec![styled_import(vec![ImportSpecifier::Default(ident("styled"))], "styled-components")];
    s.enter_module(&items);
    let wc = member(member(Expr::Ident(ident("styled")), "div"), "withConfig");
    let mut callee = Expr::Call(
        Box::new(wc),
        vec![swc_ecma_compiler::ast::Arg { spread: false, expr: Expr::Object(vec![]) }],
    );
    s.enter_call_expr(&mut callee);
    match &callee {
        Expr::Call(_, args) => {
            assert_eq!(string_props(&args[0].expr), vec![("displayName".to_string(), "Card".to_string())]);
        },
        _ => panic!(),
    }
    // A second visit finds the display name already there.
    let before = format!("{:?}", callee);
    s.enter_call_expr(&mut callee);
    assert_eq!(format!("{:?}", callee), before);
}

#[test]
fn plugins_without_styled_components_do_nothing() {
    let c = ctx("/src/a.js");
    let mut p = Plugins::new(PluginsOptions { styled_components: None }, &c);
    let mut e = tagged(member(Expr::Ident(ident("styled")), "div"), "a: b;");
    let before = format!("{:?}", e);
    p.enter_expr(&mut e);
    assert_eq!(format!("{:?}", e), before);
}
