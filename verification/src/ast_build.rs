//! Constructors of the nodes that transforms generate, with their views.

use vstd::prelude::*;


use crate::ast::{dummy_sp, dummy_span, Arg, Expr, Ident, Lit, MemberExpr, MemberProp};
use crate::ast_view::{
    arg_v, args_v, expr_v, ident_v, member_prop_v, member_v, ArgV, ExprV, IdentV, LitV,
    MemberExprV, MemberPropV,
};
use crate::text::{decimal, push_char, push_decimal, push_str, string_of};

verus! {

/// A generated identifier named `name`.
pub open spec fn gen_ident(name: Seq<char>) -> IdentV {
    IdentV { sym: name, ctxt: 0, span: dummy_span() }
}

/// `obj.prop` for a generated property name.
pub open spec fn static_member(obj: ExprV, prop: Seq<char>) -> ExprV {
    ExprV::Member(MemberExprV { obj: Box::new(obj), prop: MemberPropV::Ident(gen_ident(prop)) })
}

/// Arguments without spread.
pub open spec fn plain_args(args: Seq<ExprV>) -> Seq<ArgV> {
    args.map_values(|e: ExprV| ArgV { spread: false, expr: e })
}

/// `callee(args)`.
pub open spec fn call_v(callee: ExprV, args: Seq<ExprV>) -> ExprV {
    ExprV::Call(Box::new(callee), plain_args(args))
}

/// A string literal.
pub open spec fn str_v(s: Seq<char>) -> ExprV {
    ExprV::Lit(LitV::Str(s))
}

/// A generated identifier.
pub fn ident(name: &str) -> (i: Ident)
    ensures
        ident_v(i) == gen_ident(name@),
{
    Ident { sym: string_of(name), ctxt: 0, span: dummy_sp() }
}

/// A generated identifier expression.
pub fn ident_expr(name: &str) -> (e: Expr)
    ensures
        expr_v(e) == ExprV::Ident(gen_ident(name@)),
{
    Expr::Ident(ident(name))
}

/// `obj.prop`.
pub fn static_member_expr(obj: Expr, prop: &str) -> (e: Expr)
    ensures
        expr_v(e) == static_member(expr_v(obj), prop@),
{
    let p = MemberProp::Ident(ident(prop));
    let m = MemberExpr { obj: Box::new(obj), prop: p };
    assert(member_prop_v(p) == MemberPropV::Ident(gen_ident(prop@)));
    assert(member_v(m) == MemberExprV { obj: Box::new(expr_v(obj)), prop: member_prop_v(p) });
    Expr::Member(m)
}

/// The view of a sequence of plain arguments.
pub proof fn lemma_plain_args(a: Seq<Arg>, es: Seq<ExprV>)
    requires
        a.len() == es.len(),
        forall|i: int| 0 <= i < a.len() ==> !(#[trigger] a[i]).spread && expr_v(a[i].expr) == es[i],
    ensures
        args_v(a) == plain_args(es),
    decreases a.len(),
{
    crate::ast_view::lemma_args_v(a);
    assert forall|i: int| 0 <= i < a.len() implies #[trigger] args_v(a)[i] == plain_args(es)[i] by {
        assert(args_v(a)[i] == arg_v(a[i]));
    }
    assert(args_v(a) =~= plain_args(es));
}

/// `callee()`.
pub fn call0(callee: Expr) -> (e: Expr)
    ensures
        expr_v(e) == call_v(expr_v(callee), Seq::empty()),
{
    let args: Vec<Arg> = Vec::new();
    proof {
        lemma_plain_args(args@, Seq::empty());
    }
    Expr::Call(Box::new(callee), args)
}

/// `callee(a)`.
pub fn call1(callee: Expr, a: Expr) -> (e: Expr)
    ensures
        expr_v(e) == call_v(expr_v(callee), seq![expr_v(a)]),
{
    let ghost av = expr_v(a);
    let args = vec![Arg { spread: false, expr: a }];
    proof {
        lemma_plain_args(args@, seq![av]);
    }
    Expr::Call(Box::new(callee), args)
}

/// `callee(a, b)`.
pub fn call2(callee: Expr, a: Expr, b: Expr) -> (e: Expr)
    ensures
        expr_v(e) == call_v(expr_v(callee), seq![expr_v(a), expr_v(b)]),
{
    let ghost av = expr_v(a);
    let ghost bv = expr_v(b);
    let args = vec![Arg { spread: false, expr: a }, Arg { spread: false, expr: b }];
    proof {
        lemma_plain_args(args@, seq![av, bv]);
    }
    Expr::Call(Box::new(callee), args)
}

/// A generated private binding.
pub open spec fn private_ident(sym: Seq<char>, ctxt: u32) -> IdentV {
    IdentV { sym, ctxt, span: dummy_span() }
}

/// A binding named `_name` followed by `n`, with the context `c`.
pub open spec fn numbered_ident(name: Seq<char>, n: nat, c: u32) -> IdentV {
    private_ident(seq!['_'] + name + decimal(n), c)
}

/// Numbered bindings are unique: bindings made from one name with
/// different numbers differ, whatever their contexts.
pub proof fn lemma_numbered_distinct(name: Seq<char>, m: nat, n: nat, c: u32, d: u32)
    requires
        m != n,
    ensures
        numbered_ident(name, m, c) != numbered_ident(name, n, d),
{
    let p = seq!['_'] + name;
    if numbered_ident(name, m, c).sym == numbered_ident(name, n, d).sym {
        assert(numbered_ident(name, m, c).sym.skip(p.len() as int) =~= decimal(m));
        assert(numbered_ident(name, n, d).sym.skip(p.len() as int) =~= decimal(n));
        crate::text::lemma_decimal_injective(m, n);
    }
}

/// A generated private binding named `sym`.
pub fn make_private_ident(sym: String, ctxt: u32) -> (i: Ident)
    ensures
        ident_v(i) == private_ident(sym@, ctxt),
{
    Ident { sym, ctxt, span: dummy_sp() }
}

/// `_name` followed by `n`.
pub fn make_numbered_name(name: &str, n: u64) -> (s: String)
    ensures
        s@ == seq!['_'] + name@ + decimal(n as nat),
{
    let mut s = String::new();
    push_char(&mut s, '_');
    push_str(&mut s, name);
    push_decimal(&mut s, n);
    assert(s@ =~= seq!['_'] + name@ + decimal(n as nat));
    s
}

} // verus!
