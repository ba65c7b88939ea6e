use swc_ecma_compiler::ast::{Expr, Lit};
use swc_ecma_compiler::context::{Assumptions, TransformCtx};
use swc_ecma_compiler::regexp::{
    has_tag, parse_flags, pattern_features, RegExp, RegExpOptions, RegexCheck, DOT_ALL, GLOBAL,
    HAS_INDICES, IGNORE_CASE, MULTILINE, STICKY, TAG_LOOKBEHIND, TAG_NAMED_GROUP,
    TAG_PROPERTY_ESCAPE, UNICODE, UNICODE_SETS,
};

fn ctx() -> TransformCtx {
    let assumptions =
        Assumptions { no_document_all: false, set_public_class_fields: false, private_fields_as_properties: false };
    TransformCtx::new("test.js".to_string(), assumptions)
}

#[test]
fn test_parse_flags() {
    let flags = parse_flags("gimsuy");
    assert!(flags.contains(GLOBAL));
    assert!(flags.contains(IGNORE_CASE));
    assert!(flags.contains(MULTILINE));
    assert!(flags.contains(DOT_ALL));
    assert!(flags.contains(UNICODE));
    assert!(flags.contains(STICKY));
}

#[test]
fn test_no_transformation_when_not_needed() {
    let options = RegExpOptions::default();
    let transform = RegExp::new(options);

    let mut expr = Expr::Lit(Lit::Regex("test".to_string(), "g".to_string()));

    transform.visit_mut_expr(&mut expr, &mut ctx());

    assert!(matches!(expr, Expr::Lit(Lit::Regex(_, _))));
}

#[test]
fn test_transform_sticky_flag() {
    let options = RegExpOptions { sticky_flag: true, ..Default::default() };
    let transform = RegExp::new(options);

    let mut expr = Expr::Lit(Lit::Regex("test".to_string(), "y".to_string()));

    transform.visit_mut_expr(&mut expr, &mut ctx());

    assert!(matches!(expr, Expr::New(_, _)));
}

#[test]
fn parse_flags_ignores_unknown_letters() {
    let flags = parse_flags("dvx");
    assert!(flags.contains(HAS_INDICES));
    assert!(flags.contains(UNICODE_SETS));
    assert!(!flags.contains(GLOBAL));
    assert_eq!(flags.bits, 0b1100_0000);
}

#[test]
fn rewrite_builds_constructor_call() {
    let transform = RegExp::new(RegExpOptions { dot_all_flag: true, ..Default::default() });
    let mut expr = Expr::Lit(Lit::Regex("a.b".to_string(), "gs".to_string()));
    transform.visit_mut_expr(&mut expr, &mut ctx());
    match expr {
        Expr::New(callee, args) => {
            match *callee {
                Expr::Ident(i) => assert_eq!(i.sym, "RegExp"),
                _ => panic!("expected RegExp"),
            }
            assert_eq!(args.len(), 2);
            match (&args[0].expr, &args[1].expr) {
                (Expr::Lit(Lit::Str(p)), Expr::Lit(Lit::Str(f))) => {
                    assert_eq!(p, "a.b");
                    assert_eq!(f, "gs");
                },
                _ => panic!("expected string arguments"),
            }
        },
        _ => panic!("expected new RegExp(..)"),
    }
}

#[test]
fn pattern_features_decide_when_flags_do_not() {
    let transform = RegExp::new(RegExpOptions { look_behind_assertions: true, ..Default::default() });
    assert_eq!(transform.check_flags("g"), RegexCheck::CheckPattern);
    let mut expr = Expr::Lit(Lit::Regex("(?<=a)b".to_string(), "g".to_string()));
    transform.visit_mut_expr(&mut expr, &mut ctx());
    assert!(matches!(expr, Expr::New(_, _)));

    // A named group is no lookbehind: this transform keeps it.
    let mut expr2 = Expr::Lit(Lit::Regex("(?<n>a)".to_string(), "g".to_string()));
    transform.visit_mut_expr(&mut expr2, &mut ctx());
    assert!(matches!(expr2, Expr::Lit(Lit::Regex(_, _))));
}

#[test]
fn named_groups_and_property_escapes_are_found() {
    let named = RegExp::new(RegExpOptions { named_capture_groups: true, ..Default::default() });
    let mut expr = Expr::Lit(Lit::Regex("(?<year>\\d{4})".to_string(), "".to_string()));
    named.visit_mut_expr(&mut expr, &mut ctx());
    assert!(matches!(expr, Expr::New(_, _)));
    let mut plain = Expr::Lit(Lit::Regex("(\\d{4})".to_string(), "".to_string()));
    named.visit_mut_expr(&mut plain, &mut ctx());
    assert!(matches!(plain, Expr::Lit(Lit::Regex(_, _))));

    let escapes = RegExp::new(RegExpOptions { unicode_property_escapes: true, ..Default::default() });
    let mut expr = Expr::Lit(Lit::Regex("\\p{L}+".to_string(), "u".to_string()));
    escapes.visit_mut_expr(&mut expr, &mut ctx());
    assert!(matches!(expr, Expr::New(_, _)));
}

#[test]
fn tags_give_the_features() {
    let nodes = vec![TAG_NAMED_GROUP, TAG_PROPERTY_ESCAPE];
    assert!(has_tag(&nodes, TAG_NAMED_GROUP));
    assert!(!has_tag(&nodes, TAG_LOOKBEHIND));
    let f = pattern_features(&nodes);
    assert!(!f.has_lookbehind);
    assert!(f.has_named_group);
    assert!(f.has_property_escape);
}

#[test]
fn unparsable_pattern_is_reported_and_kept() {
    let transform = RegExp::new(RegExpOptions { named_capture_groups: true, ..Default::default() });
    let mut c = ctx();
    let mut expr = Expr::Lit(Lit::Regex("(?<".to_string(), "".to_string()));
    transform.visit_mut_expr(&mut expr, &mut c);
    assert!(matches!(expr, Expr::Lit(Lit::Regex(_, _))));
    let errors = c.take_errors();
    assert_eq!(errors.len(), 1);
    assert!(errors[0].starts_with("Failed to parse regex: "));
    assert!(errors[0].len() > "Failed to parse regex: ".len());
}

#[test]
fn parse_message_unread_when_flags_decide() {
    let transform = RegExp::new(RegExpOptions { sticky_flag: true, named_capture_groups: true, ..Default::default() });
    let mut c = ctx();
    let mut expr = Expr::Lit(Lit::Regex("(?<".to_string(), "y".to_string()));
    transform.visit_mut_expr(&mut expr, &mut c);
    assert!(matches!(expr, Expr::New(_, _)));
    assert!(c.take_errors().is_empty());
}
