use swc_ecma_compiler::ast::{Expr, ImportSpecifier, MemberProp, ModuleDecl, Span};
use swc_ecma_compiler::helper_loader::{Helper, HelperLoaderMode, HelperLoaderOptions, HelperLoaderStore};

fn sp() -> Span {
    Span { lo: 0, hi: 0 }
}

#[test]
fn test_helper_name() {
    assert_eq!(Helper::AsyncToGenerator.name(), "asyncToGenerator");
    assert_eq!(Helper::Extends.name(), "extends");
    assert_eq!(Helper::ObjectSpread2.name(), "objectSpread2");
}

#[test]
fn test_helper_pure() {
    assert!(Helper::ClassPrivateFieldLooseKey.pure());
    assert!(!Helper::AsyncToGenerator.pure());
}

#[test]
fn test_default_module_name() {
    let options = HelperLoaderOptions::default();
    assert_eq!(options.module_name, "@swc/helpers");
    assert!(matches!(options.mode, HelperLoaderMode::Runtime));
}

#[test]
fn test_runtime_source() {
    let options = HelperLoaderOptions::default();
    let store = HelperLoaderStore::new(&options);
    let source = store.get_runtime_source(Helper::AsyncToGenerator);
    assert_eq!(source, "@swc/helpers/helpers/asyncToGenerator");
}

#[test]
fn test_external_helper() {
    let expr = HelperLoaderStore::transform_for_external_helper(Helper::AsyncToGenerator, sp());
    if let Expr::Member(member) = expr.as_ref() {
        if let Expr::Ident(obj_ident) = &*member.obj {
            assert_eq!(obj_ident.sym, "babelHelpers");
        } else {
            panic!("Expected object to be an identifier");
        }
        if let MemberProp::Ident(prop) = &member.prop {
            assert_eq!(prop.sym, "asyncToGenerator");
        } else {
            panic!("Expected property to be an identifier");
        }
    } else {
        panic!("Expected member expression");
    }
}

#[test]
fn runtime_helpers_are_imported_once_in_first_use_order() {
    let options = HelperLoaderOptions::default();
    let mut store = HelperLoaderStore::new(&options);
    let a = store.helper_load(Helper::Extends, Span { lo: 3, hi: 9 });
    match *a {
        Expr::Ident(i) => {
            assert_eq!(i.sym, "extends");
            assert_eq!(i.span, Span { lo: 3, hi: 9 });
        },
        _ => panic!("expected an identifier"),
    }
    store.helper_load(Helper::DefineProperty, sp());
    store.helper_load(Helper::Extends, sp());
    let imports = store.get_import_declarations();
    assert_eq!(imports.len(), 2);
    let sources: Vec<String> = imports
        .iter()
        .map(|d| match d {
            ModuleDecl::Import(i) => {
                assert!(matches!(i.specifiers[0], ImportSpecifier::Default(_)));
                i.src.clone()
            },
            _ => panic!("expected an import"),
        })
        .collect();
    assert_eq!(sources, vec!["@swc/helpers/helpers/extends".to_string(), "@swc/helpers/helpers/defineProperty".to_string()]);
    assert_eq!(store.used_helpers.len(), 2);
}

#[test]
fn external_helpers_need_no_import() {
    let options = HelperLoaderOptions { module_name: "@swc/helpers".to_string(), mode: HelperLoaderMode::External };
    let mut store = HelperLoaderStore::new(&options);
    let call = store.helper_call_expr(Helper::ObjectSpread2, sp(), vec![]);
    assert!(matches!(call, Expr::Call(_, _)));
    assert!(store.get_import_declarations().is_empty());
    assert_eq!(store.used_helpers.len(), 1);
}
