use swc_ecma_compiler::ast::{CatchClause, Ident, Pat, Span};
use swc_ecma_compiler::context::{Assumptions, TransformCtx};
use swc_ecma_compiler::es2019::OptionalCatchBinding;

fn create_test_ctx() -> TransformCtx {
    let assumptions = Assumptions { no_document_all: false, set_public_class_fields: false, private_fields_as_properties: false };
    TransformCtx::new("test.js".to_string(), assumptions)
}

#[test]
fn test_optional_catch_binding_adds_param() {
    let ctx = create_test_ctx();
    let mut transform = OptionalCatchBinding::new(&ctx);

    let mut clause = CatchClause { param: None, body: vec![] };

    transform.enter_catch_clause(&mut clause);

    assert!(clause.param.is_some());

    if let Some(Pat::Ident(binding)) = &clause.param {
        assert_eq!(binding.sym.as_str(), "_unused");
    } else {
        panic!("Expected Pat::Ident binding");
    }
}

#[test]
fn test_optional_catch_binding_preserves_existing_param() {
    let ctx = create_test_ctx();
    let mut transform = OptionalCatchBinding::new(&ctx);

    let original_ident = Ident { sym: "err".to_string(), ctxt: 0, span: Span { lo: 0, hi: 0 } };

    let mut clause = CatchClause { param: Some(Pat::Ident(original_ident)), body: vec![] };

    transform.enter_catch_clause(&mut clause);

    if let Some(Pat::Ident(binding)) = &clause.param {
        assert_eq!(binding.sym.as_str(), "err");
    } else {
        panic!("Expected Pat::Ident binding");
    }
}
