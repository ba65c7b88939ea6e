use swc_ecma_compiler::ast::{Expr, Span, Tpl, TplElement};
use swc_ecma_compiler::minify::minify_template_literal;

fn dummy() -> Span {
    Span { lo: 0, hi: 0 }
}

fn minify_raw(input: &str) -> String {
    let mut lit = Tpl {
        span: dummy(),
        exprs: vec![],
        quasis: vec![TplElement { span: dummy(), tail: true, cooked: None, raw: input.as_bytes().to_vec() }],
    };

    minify_template_literal(&mut lit);

    assert!(lit.quasis.len() == 1);

    String::from_utf8(lit.quasis[0].raw.clone()).unwrap()
}

fn quasi(lo: u32, hi: u32, raw: &str) -> TplElement {
    TplElement { span: Span { lo, hi }, tail: false, cooked: None, raw: raw.as_bytes().to_vec() }
}

#[test]
fn splits_line_by_potential_comment_starts() {
    let actual = minify_raw("abc def//ghi//jkl");
    assert_eq!(actual, "abc def");
}

#[test]
fn ignores_comment_markers_inside_strings() {
    let actual1 = minify_raw(r#"abc def"//"ghi'//'jkl//the end"#);
    assert_eq!(actual1, r#"abc def"//"ghi'//'jkl"#);

    let actual2 = minify_raw(r#"abc def"//""#);
    assert_eq!(actual2, r#"abc def"//""#);
}

#[test]
fn ignores_comment_markers_inside_parentheses() {
    let actual = minify_raw("bla (//) bla//the end");
    assert_eq!(actual, "bla (//) bla");
}

#[test]
fn ignores_even_unescaped_urls() {
    let actual = minify_raw("https://test.com// comment//");
    assert_eq!(actual, "https://test.com");
}

#[test]
fn removes_multi_line_comments() {
    let input = "this is a/* ignore me please */test";
    let expected = "this is a test";
    let actual = minify_raw(input);
    assert_eq!(actual, expected);
}

#[test]
fn joins_all_lines_of_code() {
    let input = "this\nis\na/* ignore me \n please */\ntest";
    let expected = "this is a test";
    let actual = minify_raw(input);
    assert_eq!(actual, expected);
}

#[test]
fn removes_line_comments_filling_entire_line() {
    let input = "line one\n// remove this comment\nline two";
    let expected = "line one line two";
    let actual = minify_raw(input);
    assert_eq!(actual, expected);
}

#[test]
fn removes_line_comments_at_end_of_lines() {
    let input = "valid line with // a comment\nout comments";
    let expected = "valid line with out comments";
    let actual = minify_raw(input);
    assert_eq!(actual, expected);
}

#[test]
fn preserves_multi_line_comments_starting_with_bang() {
    let input = "this is a /*! dont ignore me please */ test/* but you can ignore me */";
    let expected = "this is a /*! dont ignore me please */ test";
    let actual = minify_raw(input);
    assert_eq!(actual, expected);
}

#[test]
fn works_with_raw_escape_codes() {
    let input = "this\\nis\\na/* ignore me \\n please */\\ntest";
    let expected = "this is a test";
    let actual = minify_raw(input);
    assert_eq!(actual, expected);
}

#[test]
fn removes_spaces_around_symbols() {
    let input = ";  :  {  }  ,  ;  ";
    let expected = ";:{},;";
    let actual = minify_raw(input);
    assert_eq!(actual, expected);
}

#[test]
fn ignores_symbols_inside_strings() {
    let input = r#";   " : " ' : ' ;"#;
    let expected = r#";" : " ' : ';"#;
    let actual = minify_raw(input);
    assert_eq!(actual, expected);
}

#[test]
fn preserves_whitespace_preceding_colons() {
    let input = "& :last-child { color: blue; }";
    let expected = "& :last-child{color:blue;}";
    let actual = minify_raw(input);
    assert_eq!(actual, expected);
}

#[test]
fn interpolation_inside_comment_is_dropped() {
    // `a /* ${x} */ b`: the interpolation stands inside a comment.
    let mut lit = Tpl {
        span: dummy(),
        exprs: vec![Expr::Opaque(7)],
        quasis: vec![quasi(1, 5, "a /* "), quasi(9, 14, " */ b")],
    };
    minify_template_literal(&mut lit);
    assert_eq!(lit.exprs.len(), 0);
    assert_eq!(lit.quasis.len(), 1);
    assert_eq!(lit.quasis[0].raw, b"a b".to_vec());
    assert_eq!(lit.quasis[0].span, Span { lo: 1, hi: 14 });
}

#[test]
fn interpolations_outside_comments_stay() {
    let mut lit = Tpl {
        span: dummy(),
        exprs: vec![Expr::Opaque(1), Expr::Opaque(2)],
        quasis: vec![quasi(0, 8, "color : "), quasi(10, 13, " ; "), quasi(15, 16, "  ")],
    };
    minify_template_literal(&mut lit);
    assert_eq!(lit.exprs.len(), 2);
    assert_eq!(lit.quasis.len(), 3);
    assert_eq!(lit.quasis[0].raw, b"color :".to_vec());
    assert_eq!(lit.quasis[1].raw, b";".to_vec());
    assert_eq!(lit.quasis[2].raw, b"".to_vec());
}
