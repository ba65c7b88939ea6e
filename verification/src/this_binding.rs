//! `this` seen from inside an arrow function: an arrow function has no
//! `this` of its own, so once it becomes a function expression every `this`
//! it reaches, through nested arrow functions too but not through functions
//! or classes, which bind their own, is replaced by a binding that holds the
//! outer `this`.

use vstd::prelude::*;

use crate::ast::{
    Arg, ArrowBody, ArrowExpr, AssignTarget, CatchClause, Decl, Expr, ForHead, ForOfStmt, Ident,
    MemberExpr, MemberProp, OptChainBase, Pat, PropOrSpread, Stmt, SwitchCase, Tpl, UsingDecl,
    VarDecl, VarDeclarator,
};
use crate::ast_clone::{clone_decl, clone_expr, clone_ident, clone_member_prop, clone_quasis, clone_stmt};
use crate::ast_view::{
    arg_v, args_v, arrow_v, assign_target_v, cases_v, declarator_v, declarators_v, decl_v, expr_v,
    exprs_v, for_head_v, for_of_v, ident_v, lemma_args_v, lemma_cases_v, lemma_declarators_v,
    lemma_exprs_v, lemma_pats_v, lemma_props_v, lemma_stmts_v, member_v, opt_chain_v,
    pat_v, pats_v, prop_v, props_v, stmt_v, stmts_v, switch_case_v, tpl_v, ArgV, ArrowBodyV,
    ArrowExprV, AssignTargetV, CatchClauseV, DeclV, ExprV, ForHeadV, ForOfStmtV, IdentV,
    MemberExprV, MemberPropV, OptChainBaseV, PatV, PropOrSpreadV, StmtV, SwitchCaseV, TplV,
    UsingDeclV, VarDeclV, VarDeclaratorV,
};

verus! {

// ---------------------------------------------------------------------------
// What the replacement makes of each kind of node.

/// `e` with every `this` it reaches replaced by `t`.
pub open spec fn this_e(e: ExprV, t: IdentV) -> ExprV
    decreases e,
{
    match e {
        ExprV::This => ExprV::Ident(t),
        ExprV::Tpl(tp) => ExprV::Tpl(this_tpl(tp, t)),
        ExprV::TaggedTpl(tag, tp) => ExprV::TaggedTpl(Box::new(this_e(*tag, t)), this_tpl(tp, t)),
        ExprV::Bin(op, l, r) => ExprV::Bin(op, Box::new(this_e(*l, t)), Box::new(this_e(*r, t))),
        ExprV::Unary(op, a) => ExprV::Unary(op, Box::new(this_e(*a, t))),
        ExprV::Assign(op, tg, r) => ExprV::Assign(op, this_target(tg, t), Box::new(this_e(*r, t))),
        ExprV::Member(m) => ExprV::Member(this_member(m, t)),
        ExprV::Call(c, a) => ExprV::Call(Box::new(this_e(*c, t)), this_args(a, t)),
        ExprV::New(c, a) => ExprV::New(Box::new(this_e(*c, t)), this_args(a, t)),
        ExprV::Cond(x, c, a) => ExprV::Cond(
            Box::new(this_e(*x, t)),
            Box::new(this_e(*c, t)),
            Box::new(this_e(*a, t)),
        ),
        ExprV::Sequence(es) => ExprV::Sequence(this_es(es, t)),
        ExprV::Array(sp, es) => ExprV::Array(sp, this_es(es, t)),
        ExprV::Paren(a) => ExprV::Paren(Box::new(this_e(*a, t))),
        ExprV::Object(ps) => ExprV::Object(this_props(ps, t)),
        ExprV::Arrow(a) => ExprV::Arrow(this_arrow(a, t)),
        ExprV::Await(a) => ExprV::Await(Box::new(this_e(*a, t))),
        ExprV::Yield(Some(a), d) => ExprV::Yield(Some(Box::new(this_e(*a, t))), d),
        ExprV::OptChain(b) => ExprV::OptChain(this_opt(b, t)),
        _ => e,
    }
}

pub open spec fn this_tpl(tp: TplV, t: IdentV) -> TplV
    decreases tp,
{
    TplV { span: tp.span, exprs: this_es(tp.exprs, t), quasis: tp.quasis }
}

pub open spec fn this_member(m: MemberExprV, t: IdentV) -> MemberExprV
    decreases m,
{
    MemberExprV {
        obj: Box::new(this_e(*m.obj, t)),
        prop: match m.prop {
            MemberPropV::Computed(k) => MemberPropV::Computed(Box::new(this_e(*k, t))),
            p => p,
        },
    }
}

pub open spec fn this_target(tg: AssignTargetV, t: IdentV) -> AssignTargetV
    decreases tg,
{
    match tg {
        AssignTargetV::Member(m) => AssignTargetV::Member(this_member(m, t)),
        _ => tg,
    }
}

pub open spec fn this_pat(p: PatV, t: IdentV) -> PatV
    decreases p,
{
    match p {
        PatV::Assign(l, r) => PatV::Assign(Box::new(this_pat(*l, t)), Box::new(this_e(*r, t))),
        _ => p,
    }
}

pub open spec fn this_arrow(a: ArrowExprV, t: IdentV) -> ArrowExprV
    decreases a,
{
    ArrowExprV {
        span: a.span,
        params: this_pats(a.params, t),
        body: match a.body {
            ArrowBodyV::Block(b) => ArrowBodyV::Block(this_stmts(b, t)),
            ArrowBodyV::Expr(x) => ArrowBodyV::Expr(Box::new(this_e(*x, t))),
        },
        is_async: a.is_async,
        is_generator: a.is_generator,
    }
}

pub open spec fn this_opt(b: OptChainBaseV, t: IdentV) -> OptChainBaseV
    decreases b,
{
    match b {
        OptChainBaseV::Member(m) => OptChainBaseV::Member(this_member(m, t)),
        OptChainBaseV::Call(c, a) => OptChainBaseV::Call(Box::new(this_e(*c, t)), this_args(a, t)),
    }
}

pub open spec fn this_declarator(d: VarDeclaratorV, t: IdentV) -> VarDeclaratorV
    decreases d,
{
    VarDeclaratorV {
        name: this_pat(d.name, t),
        init: this_init(d.init, t),
    }
}

/// Declarations of variables are rewritten; those of functions and classes
/// bind their own `this` and are kept.
pub open spec fn this_decl(d: DeclV, t: IdentV) -> DeclV
    decreases d,
{
    match d {
        DeclV::Var(v) => DeclV::Var(VarDeclV { span: v.span, kind: v.kind, decls: this_declarators(v.decls, t) }),
        DeclV::Using(u) => DeclV::Using(
            UsingDeclV { span: u.span, is_await: u.is_await, decls: this_declarators(u.decls, t) },
        ),
        _ => d,
    }
}

pub open spec fn this_case(c: SwitchCaseV, t: IdentV) -> SwitchCaseV
    decreases c,
{
    SwitchCaseV {
        test: match c.test {
            Some(x) => Some(Box::new(this_e(*x, t))),
            None => None,
        },
        cons: this_stmts(c.cons, t),
    }
}

pub open spec fn this_head(h: ForHeadV, t: IdentV) -> ForHeadV
    decreases h,
{
    match h {
        ForHeadV::VarDecl(v) => ForHeadV::VarDecl(
            VarDeclV { span: v.span, kind: v.kind, decls: this_declarators(v.decls, t) },
        ),
        ForHeadV::UsingDecl(u) => ForHeadV::UsingDecl(
            UsingDeclV { span: u.span, is_await: u.is_await, decls: this_declarators(u.decls, t) },
        ),
        ForHeadV::Pat(p) => ForHeadV::Pat(this_pat(p, t)),
    }
}

pub open spec fn this_for_of(f: ForOfStmtV, t: IdentV) -> ForOfStmtV
    decreases f,
{
    ForOfStmtV {
        span: f.span,
        is_await: f.is_await,
        left: this_head(f.left, t),
        right: Box::new(this_e(*f.right, t)),
        body: Box::new(this_s(*f.body, t)),
    }
}

pub open spec fn this_s(s: StmtV, t: IdentV) -> StmtV
    decreases s,
{
    match s {
        StmtV::Expr(sp, x) => StmtV::Expr(sp, Box::new(this_e(*x, t))),
        StmtV::Block(sp, b) => StmtV::Block(sp, this_stmts(b, t)),
        StmtV::Return(sp, Some(x)) => StmtV::Return(sp, Some(Box::new(this_e(*x, t)))),
        StmtV::Decl(d) => StmtV::Decl(this_decl(d, t)),
        StmtV::Try(sp, b, h, f) => StmtV::Try(
            sp,
            this_stmts(b, t),
            match h {
                Some(c) => Some(
                    CatchClauseV {
                        param: match c.param {
                            Some(p) => Some(this_pat(p, t)),
                            None => None,
                        },
                        body: this_stmts(c.body, t),
                    },
                ),
                None => None,
            },
            match f {
                Some(fb) => Some(this_stmts(fb, t)),
                None => None,
            },
        ),
        StmtV::Switch(sp, d, cs) => StmtV::Switch(sp, Box::new(this_e(*d, t)), this_cases(cs, t)),
        StmtV::ForOf(f) => StmtV::ForOf(this_for_of(f, t)),
        _ => s,
    }
}

pub open spec fn this_arg(a: ArgV, t: IdentV) -> ArgV
    decreases a,
{
    ArgV { spread: a.spread, expr: this_e(a.expr, t) }
}

pub open spec fn this_prop(p: PropOrSpreadV, t: IdentV) -> PropOrSpreadV
    decreases p,
{
    match p {
        PropOrSpreadV::Spread(x) => PropOrSpreadV::Spread(this_e(x, t)),
        PropOrSpreadV::KeyValue(k, x) => PropOrSpreadV::KeyValue(k, this_e(x, t)),
        _ => p,
    }
}

pub open spec fn this_es(s: Seq<ExprV>, t: IdentV) -> Seq<ExprV>
    decreases s,
{
    if s.len() == 0 {
        Seq::empty()
    } else {
        this_es(s.subrange(0, s.len() - 1), t).push(this_e(s[s.len() - 1], t))
    }
}

pub open spec fn this_args(s: Seq<ArgV>, t: IdentV) -> Seq<ArgV>
    decreases s,
{
    if s.len() == 0 {
        Seq::empty()
    } else {
        this_args(s.subrange(0, s.len() - 1), t).push(this_arg(s[s.len() - 1], t))
    }
}

pub open spec fn this_props(s: Seq<PropOrSpreadV>, t: IdentV) -> Seq<PropOrSpreadV>
    decreases s,
{
    if s.len() == 0 {
        Seq::empty()
    } else {
        this_props(s.subrange(0, s.len() - 1), t).push(this_prop(s[s.len() - 1], t))
    }
}

pub open spec fn this_pats(s: Seq<PatV>, t: IdentV) -> Seq<PatV>
    decreases s,
{
    if s.len() == 0 {
        Seq::empty()
    } else {
        this_pats(s.subrange(0, s.len() - 1), t).push(this_pat(s[s.len() - 1], t))
    }
}

pub open spec fn this_stmts(s: Seq<StmtV>, t: IdentV) -> Seq<StmtV>
    decreases s,
{
    if s.len() == 0 {
        Seq::empty()
    } else {
        this_stmts(s.subrange(0, s.len() - 1), t).push(this_s(s[s.len() - 1], t))
    }
}

pub open spec fn this_declarators(s: Seq<VarDeclaratorV>, t: IdentV) -> Seq<VarDeclaratorV>
    decreases s,
{
    if s.len() == 0 {
        Seq::empty()
    } else {
        this_declarators(s.subrange(0, s.len() - 1), t).push(this_declarator(s[s.len() - 1], t))
    }
}

pub open spec fn this_cases(s: Seq<SwitchCaseV>, t: IdentV) -> Seq<SwitchCaseV>
    decreases s,
{
    if s.len() == 0 {
        Seq::empty()
    } else {
        this_cases(s.subrange(0, s.len() - 1), t).push(this_case(s[s.len() - 1], t))
    }
}

// ---------------------------------------------------------------------------
// Sequences, element by element.

pub proof fn lemma_this_es(s: Seq<ExprV>, t: IdentV)
    ensures
        this_es(s, t).len() == s.len(),
        forall|i: int| 0 <= i < s.len() ==> #[trigger] this_es(s, t)[i] == this_e(s[i], t),
    decreases s.len(),
{
    if s.len() > 0 {
        lemma_this_es(s.subrange(0, s.len() - 1), t);
    }
}

pub proof fn lemma_this_args(s: Seq<ArgV>, t: IdentV)
    ensures
        this_args(s, t).len() == s.len(),
        forall|i: int| 0 <= i < s.len() ==> #[trigger] this_args(s, t)[i] == this_arg(s[i], t),
    decreases s.len(),
{
    if s.len() > 0 {
        lemma_this_args(s.subrange(0, s.len() - 1), t);
    }
}

pub proof fn lemma_this_props(s: Seq<PropOrSpreadV>, t: IdentV)
    ensures
        this_props(s, t).len() == s.len(),
        forall|i: int| 0 <= i < s.len() ==> #[trigger] this_props(s, t)[i] == this_prop(s[i], t),
    decreases s.len(),
{
    if s.len() > 0 {
        lemma_this_props(s.subrange(0, s.len() - 1), t);
    }
}

pub proof fn lemma_this_pats(s: Seq<PatV>, t: IdentV)
    ensures
        this_pats(s, t).len() == s.len(),
        forall|i: int| 0 <= i < s.len() ==> #[trigger] this_pats(s, t)[i] == this_pat(s[i], t),
    decreases s.len(),
{
    if s.len() > 0 {
        lemma_this_pats(s.subrange(0, s.len() - 1), t);
    }
}

pub proof fn lemma_this_stmts(s: Seq<StmtV>, t: IdentV)
    ensures
        this_stmts(s, t).len() == s.len(),
        forall|i: int| 0 <= i < s.len() ==> #[trigger] this_stmts(s, t)[i] == this_s(s[i], t),
    decreases s.len(),
{
    if s.len() > 0 {
        lemma_this_stmts(s.subrange(0, s.len() - 1), t);
    }
}

pub proof fn lemma_this_declarators(s: Seq<VarDeclaratorV>, t: IdentV)
    ensures
        this_declarators(s, t).len() == s.len(),
        forall|i: int| 0 <= i < s.len() ==> #[trigger] this_declarators(s, t)[i] == this_declarator(s[i], t),
    decreases s.len(),
{
    if s.len() > 0 {
        lemma_this_declarators(s.subrange(0, s.len() - 1), t);
    }
}

pub proof fn lemma_this_cases(s: Seq<SwitchCaseV>, t: IdentV)
    ensures
        this_cases(s, t).len() == s.len(),
        forall|i: int| 0 <= i < s.len() ==> #[trigger] this_cases(s, t)[i] == this_case(s[i], t),
    decreases s.len(),
{
    if s.len() > 0 {
        lemma_this_cases(s.subrange(0, s.len() - 1), t);
    }
}

// ---------------------------------------------------------------------------
// The replacement. Each function returns the rewritten node and whether
// it differs from the one it was given, that is whether a `this` was met.

pub fn this_replaced_exprs(v: &Vec<Expr>, t: &Ident) -> (r: (Vec<Expr>, bool))
    ensures
        exprs_v(r.0@) == this_es(exprs_v(v@), ident_v(*t)),
        r.1 == (this_es(exprs_v(v@), ident_v(*t)) != exprs_v(v@)),
    decreases v,
{
    let ghost tv = ident_v(*t);
    proof {
        lemma_exprs_v(v@);
    }
    let mut r: Vec<Expr> = Vec::new();
    let mut found = false;
    let mut i: usize = 0;
    while i < v.len()
        invariant
            i <= v.len(),
            r@.len() == i,
            tv == ident_v(*t),
            forall|j: int| 0 <= j < i ==> expr_v(#[trigger] r@[j]) == this_e(expr_v(v@[j]), tv),
            found == exists|j: int| 0 <= j < i && #[trigger] this_e(expr_v(v@[j]), tv) != expr_v(v@[j]),
        decreases v.len() - i,
    {
        proof {
            assert(decreases_to!(v => v@[i as int]));
        }
        let (x, f) = this_replaced_expr(&v[i], t);
        r.push(x);
        found = found || f;
        proof {
            if f {
                assert(this_e(expr_v(v@[i as int]), tv) != expr_v(v@[i as int]));
            }
            if !found {
                assert forall|j: int| 0 <= j < i + 1 implies this_e(expr_v(v@[j]), tv) == expr_v(v@[j]) by {
                    if j < i {
                        assert(!(this_e(expr_v(v@[j]), tv) != expr_v(v@[j])));
                    }
                }
            }
        }
        i += 1;
    }
    proof {
        lemma_exprs_v(r@);
        let sv = exprs_v(v@);
        lemma_this_es(sv, tv);
        assert(this_es(sv, tv) =~= exprs_v(r@));
        if found {
            let j = choose|j: int| 0 <= j < v.len() && #[trigger] this_e(expr_v(v@[j]), tv) != expr_v(v@[j]);
            assert(this_es(sv, tv)[j] != sv[j]);
        } else {
            assert forall|j: int| 0 <= j < sv.len() implies this_es(sv, tv)[j] == sv[j] by {
                assert(!(this_e(expr_v(v@[j]), tv) != expr_v(v@[j])));
            }
            assert(this_es(sv, tv) =~= sv);
        }
    }
    (r, found)
}

pub fn this_replaced_args(v: &Vec<Arg>, t: &Ident) -> (r: (Vec<Arg>, bool))
    ensures
        args_v(r.0@) == this_args(args_v(v@), ident_v(*t)),
        r.1 == (this_args(args_v(v@), ident_v(*t)) != args_v(v@)),
    decreases v,
{
    let ghost tv = ident_v(*t);
    proof {
        lemma_args_v(v@);
    }
    let mut r: Vec<Arg> = Vec::new();
    let mut found = false;
    let mut i: usize = 0;
    while i < v.len()
        invariant
            i <= v.len(),
            r@.len() == i,
            tv == ident_v(*t),
            forall|j: int| 0 <= j < i ==> arg_v(#[trigger] r@[j]) == this_arg(arg_v(v@[j]), tv),
            found == exists|j: int| 0 <= j < i && #[trigger] this_arg(arg_v(v@[j]), tv) != arg_v(v@[j]),
        decreases v.len() - i,
    {
        proof {
            assert(decreases_to!(v => v@[i as int]));
        }
        let (x, f) = this_replaced_arg(&v[i], t);
        r.push(x);
        found = found || f;
        proof {
            if f {
                assert(this_arg(arg_v(v@[i as int]), tv) != arg_v(v@[i as int]));
            }
            if !found {
                assert forall|j: int| 0 <= j < i + 1 implies this_arg(arg_v(v@[j]), tv) == arg_v(v@[j]) by {
                    if j < i {
                        assert(!(this_arg(arg_v(v@[j]), tv) != arg_v(v@[j])));
                    }
                }
            }
        }
        i += 1;
    }
    proof {
        lemma_args_v(r@);
        let sv = args_v(v@);
        lemma_this_args(sv, tv);
        assert(this_args(sv, tv) =~= args_v(r@));
        if found {
            let j = choose|j: int| 0 <= j < v.len() && #[trigger] this_arg(arg_v(v@[j]), tv) != arg_v(v@[j]);
            assert(this_args(sv, tv)[j] != sv[j]);
        } else {
            assert forall|j: int| 0 <= j < sv.len() implies this_args(sv, tv)[j] == sv[j] by {
                assert(!(this_arg(arg_v(v@[j]), tv) != arg_v(v@[j])));
            }
            assert(this_args(sv, tv) =~= sv);
        }
    }
    (r, found)
}

pub fn this_replaced_props(v: &Vec<PropOrSpread>, t: &Ident) -> (r: (Vec<PropOrSpread>, bool))
    ensures
        props_v(r.0@) == this_props(props_v(v@), ident_v(*t)),
        r.1 == (this_props(props_v(v@), ident_v(*t)) != props_v(v@)),
    decreases v,
{
    let ghost tv = ident_v(*t);
    proof {
        lemma_props_v(v@);
    }
    let mut r: Vec<PropOrSpread> = Vec::new();
    let mut found = false;
    let mut i: usize = 0;
    while i < v.len()
        invariant
            i <= v.len(),
            r@.len() == i,
            tv == ident_v(*t),
            forall|j: int| 0 <= j < i ==> prop_v(#[trigger] r@[j]) == this_prop(prop_v(v@[j]), tv),
            found == exists|j: int| 0 <= j < i && #[trigger] this_prop(prop_v(v@[j]), tv) != prop_v(v@[j]),
        decreases v.len() - i,
    {
        proof {
            assert(decreases_to!(v => v@[i as int]));
        }
        let (x, f) = this_replaced_prop(&v[i], t);
        r.push(x);
        found = found || f;
        proof {
            if f {
                assert(this_prop(prop_v(v@[i as int]), tv) != prop_v(v@[i as int]));
            }
            if !found {
                assert forall|j: int| 0 <= j < i + 1 implies this_prop(prop_v(v@[j]), tv) == prop_v(v@[j]) by {
                    if j < i {
                        assert(!(this_prop(prop_v(v@[j]), tv) != prop_v(v@[j])));
                    }
                }
            }
        }
        i += 1;
    }
    proof {
        lemma_props_v(r@);
        let sv = props_v(v@);
        lemma_this_props(sv, tv);
        assert(this_props(sv, tv) =~= props_v(r@));
        if found {
            let j = choose|j: int| 0 <= j < v.len() && #[trigger] this_prop(prop_v(v@[j]), tv) != prop_v(v@[j]);
            assert(this_props(sv, tv)[j] != sv[j]);
        } else {
            assert forall|j: int| 0 <= j < sv.len() implies this_props(sv, tv)[j] == sv[j] by {
                assert(!(this_prop(prop_v(v@[j]), tv) != prop_v(v@[j])));
            }
            assert(this_props(sv, tv) =~= sv);
        }
    }
    (r, found)
}

pub fn this_replaced_pats(v: &Vec<Pat>, t: &Ident) -> (r: (Vec<Pat>, bool))
    ensures
        pats_v(r.0@) == this_pats(pats_v(v@), ident_v(*t)),
        r.1 == (this_pats(pats_v(v@), ident_v(*t)) != pats_v(v@)),
    decreases v,
{
    let ghost tv = ident_v(*t);
    proof {
        lemma_pats_v(v@);
    }
    let mut r: Vec<Pat> = Vec::new();
    let mut found = false;
    let mut i: usize = 0;
    while i < v.len()
        invariant
            i <= v.len(),
            r@.len() == i,
            tv == ident_v(*t),
            forall|j: int| 0 <= j < i ==> pat_v(#[trigger] r@[j]) == this_pat(pat_v(v@[j]), tv),
            found == exists|j: int| 0 <= j < i && #[trigger] this_pat(pat_v(v@[j]), tv) != pat_v(v@[j]),
        decreases v.len() - i,
    {
        proof {
            assert(decreases_to!(v => v@[i as int]));
        }
        let (x, f) = this_replaced_pat(&v[i], t);
        r.push(x);
        found = found || f;
        proof {
            if f {
                assert(this_pat(pat_v(v@[i as int]), tv) != pat_v(v@[i as int]));
            }
            if !found {
                assert forall|j: int| 0 <= j < i + 1 implies this_pat(pat_v(v@[j]), tv) == pat_v(v@[j]) by {
                    if j < i {
                        assert(!(this_pat(pat_v(v@[j]), tv) != pat_v(v@[j])));
                    }
                }
            }
        }
        i += 1;
    }
    proof {
        lemma_pats_v(r@);
        let sv = pats_v(v@);
        lemma_this_pats(sv, tv);
        assert(this_pats(sv, tv) =~= pats_v(r@));
        if found {
            let j = choose|j: int| 0 <= j < v.len() && #[trigger] this_pat(pat_v(v@[j]), tv) != pat_v(v@[j]);
            assert(this_pats(sv, tv)[j] != sv[j]);
        } else {
            assert forall|j: int| 0 <= j < sv.len() implies this_pats(sv, tv)[j] == sv[j] by {
                assert(!(this_pat(pat_v(v@[j]), tv) != pat_v(v@[j])));
            }
            assert(this_pats(sv, tv) =~= sv);
        }
    }
    (r, found)
}

pub fn this_replaced_stmts(v: &Vec<Stmt>, t: &Ident) -> (r: (Vec<Stmt>, bool))
    ensures
        stmts_v(r.0@) == this_stmts(stmts_v(v@), ident_v(*t)),
        r.1 == (this_stmts(stmts_v(v@), ident_v(*t)) != stmts_v(v@)),
    decreases v,
{
    let ghost tv = ident_v(*t);
    proof {
        lemma_stmts_v(v@);
    }
    let mut r: Vec<Stmt> = Vec::new();
    let mut found = false;
    let mut i: usize = 0;
    while i < v.len()
        invariant
            i <= v.len(),
            r@.len() == i,
            tv == ident_v(*t),
            forall|j: int| 0 <= j < i ==> stmt_v(#[trigger] r@[j]) == this_s(stmt_v(v@[j]), tv),
            found == exists|j: int| 0 <= j < i && #[trigger] this_s(stmt_v(v@[j]), tv) != stmt_v(v@[j]),
        decreases v.len() - i,
    {
        proof {
            assert(decreases_to!(v => v@[i as int]));
        }
        let (x, f) = this_replaced_stmt(&v[i], t);
        r.push(x);
        found = found || f;
        proof {
            if f {
                assert(this_s(stmt_v(v@[i as int]), tv) != stmt_v(v@[i as int]));
            }
            if !found {
                assert forall|j: int| 0 <= j < i + 1 implies this_s(stmt_v(v@[j]), tv) == stmt_v(v@[j]) by {
                    if j < i {
                        assert(!(this_s(stmt_v(v@[j]), tv) != stmt_v(v@[j])));
                    }
                }
            }
        }
        i += 1;
    }
    proof {
        lemma_stmts_v(r@);
        let sv = stmts_v(v@);
        lemma_this_stmts(sv, tv);
        assert(this_stmts(sv, tv) =~= stmts_v(r@));
        if found {
            let j = choose|j: int| 0 <= j < v.len() && #[trigger] this_s(stmt_v(v@[j]), tv) != stmt_v(v@[j]);
            assert(this_stmts(sv, tv)[j] != sv[j]);
        } else {
            assert forall|j: int| 0 <= j < sv.len() implies this_stmts(sv, tv)[j] == sv[j] by {
                assert(!(this_s(stmt_v(v@[j]), tv) != stmt_v(v@[j])));
            }
            assert(this_stmts(sv, tv) =~= sv);
        }
    }
    (r, found)
}

#[verifier::rlimit(40)]
pub fn this_replaced_declarators(v: &Vec<VarDeclarator>, t: &Ident) -> (r: (Vec<VarDeclarator>, bool))
    ensures
        declarators_v(r.0@) == this_declarators(declarators_v(v@), ident_v(*t)),
        r.1 == (this_declarators(declarators_v(v@), ident_v(*t)) != declarators_v(v@)),
    decreases v,
{
    let ghost tv = ident_v(*t);
    proof {
        lemma_declarators_v(v@);
    }
    let mut r: Vec<VarDeclarator> = Vec::new();
    let mut found = false;
    let mut i: usize = 0;
    while i < v.len()
        invariant
            i <= v.len(),
            r@.len() == i,
            tv == ident_v(*t),
            forall|j: int| 0 <= j < i ==> declarator_v(#[trigger] r@[j]) == this_declarator(declarator_v(v@[j]), tv),
            found == exists|j: int| 0 <= j < i && #[trigger] this_declarator(declarator_v(v@[j]), tv) != declarator_v(v@[j]),
        decreases v.len() - i,
    {
        proof {
            assert(decreases_to!(v => v@[i as int]));
        }
        let (x, f) = this_replaced_declarator(&v[i], t);
        r.push(x);
        found = found || f;
        proof {
            if f {
                assert(this_declarator(declarator_v(v@[i as int]), tv) != declarator_v(v@[i as int]));
            }
            if !found {
                assert forall|j: int| 0 <= j < i + 1 implies this_declarator(declarator_v(v@[j]), tv) == declarator_v(v@[j]) by {
                    if j < i {
                        assert(!(this_declarator(declarator_v(v@[j]), tv) != declarator_v(v@[j])));
                    }
                }
            }
        }
        i += 1;
    }
    proof {
        lemma_declarators_v(r@);
        let sv = declarators_v(v@);
        lemma_this_declarators(sv, tv);
        assert(this_declarators(sv, tv) =~= declarators_v(r@));
        if found {
            let j = choose|j: int| 0 <= j < v.len() && #[trigger] this_declarator(declarator_v(v@[j]), tv) != declarator_v(v@[j]);
            assert(this_declarators(sv, tv)[j] != sv[j]);
        } else {
            assert forall|j: int| 0 <= j < sv.len() implies this_declarators(sv, tv)[j] == sv[j] by {
                assert(!(this_declarator(declarator_v(v@[j]), tv) != declarator_v(v@[j])));
            }
            assert(this_declarators(sv, tv) =~= sv);
        }
    }
    (r, found)
}

pub fn this_replaced_cases(v: &Vec<SwitchCase>, t: &Ident) -> (r: (Vec<SwitchCase>, bool))
    ensures
        cases_v(r.0@) == this_cases(cases_v(v@), ident_v(*t)),
        r.1 == (this_cases(cases_v(v@), ident_v(*t)) != cases_v(v@)),
    decreases v,
{
    let ghost tv = ident_v(*t);
    proof {
        lemma_cases_v(v@);
    }
    let mut r: Vec<SwitchCase> = Vec::new();
    let mut found = false;
    let mut i: usize = 0;
    while i < v.len()
        invariant
            i <= v.len(),
            r@.len() == i,
            tv == ident_v(*t),
            forall|j: int| 0 <= j < i ==> switch_case_v(#[trigger] r@[j]) == this_case(switch_case_v(v@[j]), tv),
            found == exists|j: int| 0 <= j < i && #[trigger] this_case(switch_case_v(v@[j]), tv) != switch_case_v(v@[j]),
        decreases v.len() - i,
    {
        proof {
            assert(decreases_to!(v => v@[i as int]));
        }
        let (x, f) = this_replaced_case(&v[i], t);
        r.push(x);
        found = found || f;
        proof {
            if f {
                assert(this_case(switch_case_v(v@[i as int]), tv) != switch_case_v(v@[i as int]));
            }
            if !found {
                assert forall|j: int| 0 <= j < i + 1 implies this_case(switch_case_v(v@[j]), tv) == switch_case_v(v@[j]) by {
                    if j < i {
                        assert(!(this_case(switch_case_v(v@[j]), tv) != switch_case_v(v@[j])));
                    }
                }
            }
        }
        i += 1;
    }
    proof {
        lemma_cases_v(r@);
        let sv = cases_v(v@);
        lemma_this_cases(sv, tv);
        assert(this_cases(sv, tv) =~= cases_v(r@));
        if found {
            let j = choose|j: int| 0 <= j < v.len() && #[trigger] this_case(switch_case_v(v@[j]), tv) != switch_case_v(v@[j]);
            assert(this_cases(sv, tv)[j] != sv[j]);
        } else {
            assert forall|j: int| 0 <= j < sv.len() implies this_cases(sv, tv)[j] == sv[j] by {
                assert(!(this_case(switch_case_v(v@[j]), tv) != switch_case_v(v@[j])));
            }
            assert(this_cases(sv, tv) =~= sv);
        }
    }
    (r, found)
}

pub fn this_replaced_expr(e: &Expr, t: &Ident) -> (r: (Expr, bool))
    ensures
        expr_v(r.0) == this_e(expr_v(*e), ident_v(*t)),
        r.1 == (this_e(expr_v(*e), ident_v(*t)) != expr_v(*e)),
    decreases e,
{
    match e {
        Expr::This => (Expr::Ident(clone_ident(t)), true),
        Expr::Tpl(tp) => {
            let (x, f) = this_replaced_tpl(tp, t);
            (Expr::Tpl(x), f)
        },
        Expr::TaggedTpl(tag, tp) => {
            let (a, f1) = this_replaced_expr(&**tag, t);
            let (b, f2) = this_replaced_tpl(tp, t);
            (Expr::TaggedTpl(Box::new(a), b), f1 || f2)
        },
        Expr::Bin(op, l, r) => {
            let (a, f1) = this_replaced_expr(&**l, t);
            let (b, f2) = this_replaced_expr(&**r, t);
            (Expr::Bin(*op, Box::new(a), Box::new(b)), f1 || f2)
        },
        Expr::Unary(op, x) => {
            let (a, f) = this_replaced_expr(&**x, t);
            (Expr::Unary(*op, Box::new(a)), f)
        },
        Expr::Assign(op, tg, r) => {
            let (a, f1) = this_replaced_target(tg, t);
            let (b, f2) = this_replaced_expr(&**r, t);
            (Expr::Assign(*op, a, Box::new(b)), f1 || f2)
        },
        Expr::Member(m) => {
            let (a, f) = this_replaced_member(m, t);
            (Expr::Member(a), f)
        },
        Expr::Call(c, args) => {
            let (a, f1) = this_replaced_expr(&**c, t);
            let (b, f2) = this_replaced_args(args, t);
            (Expr::Call(Box::new(a), b), f1 || f2)
        },
        Expr::New(c, args) => {
            let (a, f1) = this_replaced_expr(&**c, t);
            let (b, f2) = this_replaced_args(args, t);
            (Expr::New(Box::new(a), b), f1 || f2)
        },
        Expr::Cond(x, c, y) => {
            let (a, f1) = this_replaced_expr(&**x, t);
            let (b, f2) = this_replaced_expr(&**c, t);
            let (d, f3) = this_replaced_expr(&**y, t);
            (Expr::Cond(Box::new(a), Box::new(b), Box::new(d)), f1 || f2 || f3)
        },
        Expr::Sequence(es) => {
            let (a, f) = this_replaced_exprs(es, t);
            (Expr::Sequence(a), f)
        },
        Expr::Array(sp, es) => {
            let (a, f) = this_replaced_exprs(es, t);
            (Expr::Array(*sp, a), f)
        },
        Expr::Paren(x) => {
            let (a, f) = this_replaced_expr(&**x, t);
            (Expr::Paren(Box::new(a)), f)
        },
        Expr::Object(ps) => {
            let (a, f) = this_replaced_props(ps, t);
            (Expr::Object(a), f)
        },
        Expr::Arrow(x) => {
            let (a, f) = this_replaced_arrow(x, t);
            (Expr::Arrow(a), f)
        },
        Expr::Await(x) => {
            let (a, f) = this_replaced_expr(&**x, t);
            (Expr::Await(Box::new(a)), f)
        },
        Expr::Yield(Some(x), d) => {
            let (a, f) = this_replaced_expr(&**x, t);
            (Expr::Yield(Some(Box::new(a)), *d), f)
        },
        Expr::OptChain(b) => {
            let (a, f) = this_replaced_opt(b, t);
            (Expr::OptChain(a), f)
        },
        _ => (clone_expr(e), false),
    }
}

pub fn this_replaced_tpl(tp: &Tpl, t: &Ident) -> (r: (Tpl, bool))
    ensures
        tpl_v(r.0) == this_tpl(tpl_v(*tp), ident_v(*t)),
        r.1 == (this_tpl(tpl_v(*tp), ident_v(*t)) != tpl_v(*tp)),
    decreases tp,
{
    let (es, f) = this_replaced_exprs(&tp.exprs, t);
    (Tpl { span: tp.span, exprs: es, quasis: clone_quasis(&tp.quasis) }, f)
}

pub fn this_replaced_member(m: &MemberExpr, t: &Ident) -> (r: (MemberExpr, bool))
    ensures
        member_v(r.0) == this_member(member_v(*m), ident_v(*t)),
        r.1 == (this_member(member_v(*m), ident_v(*t)) != member_v(*m)),
    decreases m,
{
    let (o, f1) = this_replaced_expr(&*m.obj, t);
    match &m.prop {
        MemberProp::Computed(k) => {
            let (kk, f2) = this_replaced_expr(&**k, t);
            (MemberExpr { obj: Box::new(o), prop: MemberProp::Computed(Box::new(kk)) }, f1 || f2)
        },
        p => (MemberExpr { obj: Box::new(o), prop: clone_member_prop(p) }, f1),
    }
}

pub fn this_replaced_target(tg: &AssignTarget, t: &Ident) -> (r: (AssignTarget, bool))
    ensures
        assign_target_v(r.0) == this_target(assign_target_v(*tg), ident_v(*t)),
        r.1 == (this_target(assign_target_v(*tg), ident_v(*t)) != assign_target_v(*tg)),
    decreases tg,
{
    match tg {
        AssignTarget::Member(m) => {
            let (a, f) = this_replaced_member(m, t);
            (AssignTarget::Member(a), f)
        },
        AssignTarget::Ident(i) => (AssignTarget::Ident(clone_ident(i)), false),
        AssignTarget::SuperProp(h) => (AssignTarget::SuperProp(*h), false),
        AssignTarget::Invalid => (AssignTarget::Invalid, false),
        AssignTarget::Opaque(h) => (AssignTarget::Opaque(*h), false),
    }
}

pub fn this_replaced_pat(p: &Pat, t: &Ident) -> (r: (Pat, bool))
    ensures
        pat_v(r.0) == this_pat(pat_v(*p), ident_v(*t)),
        r.1 == (this_pat(pat_v(*p), ident_v(*t)) != pat_v(*p)),
    decreases p,
{
    match p {
        Pat::Assign(l, x) => {
            let (a, f1) = this_replaced_pat(&**l, t);
            let (b, f2) = this_replaced_expr(&**x, t);
            (Pat::Assign(Box::new(a), Box::new(b)), f1 || f2)
        },
        Pat::Ident(i) => (Pat::Ident(clone_ident(i)), false),
        Pat::Opaque(h) => (Pat::Opaque(*h), false),
    }
}

pub fn this_replaced_arrow(a: &ArrowExpr, t: &Ident) -> (r: (ArrowExpr, bool))
    ensures
        arrow_v(r.0) == this_arrow(arrow_v(*a), ident_v(*t)),
        r.1 == (this_arrow(arrow_v(*a), ident_v(*t)) != arrow_v(*a)),
    decreases a,
{
    let (ps, f1) = this_replaced_pats(&a.params, t);
    let (body, f2) = match &a.body {
        ArrowBody::Block(b) => {
            let (x, f) = this_replaced_stmts(b, t);
            (ArrowBody::Block(x), f)
        },
        ArrowBody::Expr(e) => {
            let (x, f) = this_replaced_expr(&**e, t);
            (ArrowBody::Expr(Box::new(x)), f)
        },
    };
    (ArrowExpr { span: a.span, params: ps, body, is_async: a.is_async, is_generator: a.is_generator }, f1 || f2)
}

pub fn this_replaced_opt(b: &OptChainBase, t: &Ident) -> (r: (OptChainBase, bool))
    ensures
        opt_chain_v(r.0) == this_opt(opt_chain_v(*b), ident_v(*t)),
        r.1 == (this_opt(opt_chain_v(*b), ident_v(*t)) != opt_chain_v(*b)),
    decreases b,
{
    match b {
        OptChainBase::Member(m) => {
            let (a, f) = this_replaced_member(m, t);
            (OptChainBase::Member(a), f)
        },
        OptChainBase::Call(c, args) => {
            let (a, f1) = this_replaced_expr(&**c, t);
            let (x, f2) = this_replaced_args(args, t);
            (OptChainBase::Call(Box::new(a), x), f1 || f2)
        },
    }
}

pub fn this_replaced_arg(a: &Arg, t: &Ident) -> (r: (Arg, bool))
    ensures
        arg_v(r.0) == this_arg(arg_v(*a), ident_v(*t)),
        r.1 == (this_arg(arg_v(*a), ident_v(*t)) != arg_v(*a)),
    decreases a,
{
    let (x, f) = this_replaced_expr(&a.expr, t);
    (Arg { spread: a.spread, expr: x }, f)
}

pub fn this_replaced_prop(p: &PropOrSpread, t: &Ident) -> (r: (PropOrSpread, bool))
    ensures
        prop_v(r.0) == this_prop(prop_v(*p), ident_v(*t)),
        r.1 == (this_prop(prop_v(*p), ident_v(*t)) != prop_v(*p)),
    decreases p,
{
    match p {
        PropOrSpread::Spread(x) => {
            let (a, f) = this_replaced_expr(x, t);
            (PropOrSpread::Spread(a), f)
        },
        PropOrSpread::KeyValue(k, x) => {
            let (a, f) = this_replaced_expr(x, t);
            (PropOrSpread::KeyValue(crate::ast_clone::clone_prop_name(k), a), f)
        },
        PropOrSpread::Opaque(h) => (PropOrSpread::Opaque(*h), false),
    }
}

pub fn this_replaced_declarator(d: &VarDeclarator, t: &Ident) -> (r: (VarDeclarator, bool))
    ensures
        declarator_v(r.0) == this_declarator(declarator_v(*d), ident_v(*t)),
        r.1 == (this_declarator(declarator_v(*d), ident_v(*t)) != declarator_v(*d)),
    decreases d,
{
    let ghost tv = ident_v(*t);
    let ghost dv = declarator_v(*d);
    let (n, f1) = this_replaced_pat(&d.name, t);
    let (init, f2) = this_replaced_init(&d.init, t);
    let r = VarDeclarator { name: n, init };
    assert(declarator_v(r) == VarDeclaratorV { name: pat_v(n), init: init_v(init) });
    assert(dv == VarDeclaratorV { name: pat_v(d.name), init: init_v(d.init) });
    (r, f1 || f2)
}

/// The view of an initializer.
pub open spec fn init_v(i: Option<Box<Expr>>) -> Option<Box<ExprV>> {
    match i {
        Some(x) => Some(Box::new(expr_v(*x))),
        None => None,
    }
}

/// An initializer with `this` replaced.
pub open spec fn this_init(i: Option<Box<ExprV>>, t: IdentV) -> Option<Box<ExprV>>
    decreases i,
{
    match i {
        Some(x) => Some(Box::new(this_e(*x, t))),
        None => None,
    }
}

fn this_replaced_init(i: &Option<Box<Expr>>, t: &Ident) -> (r: (Option<Box<Expr>>, bool))
    ensures
        init_v(r.0) == this_init(init_v(*i), ident_v(*t)),
        r.1 == (this_init(init_v(*i), ident_v(*t)) != init_v(*i)),
    decreases i,
{
    match i {
        Some(x) => {
            let (a, f) = this_replaced_expr(&**x, t);
            (Some(Box::new(a)), f)
        },
        None => (None, false),
    }
}

pub fn this_replaced_decl(d: &Decl, t: &Ident) -> (r: (Decl, bool))
    ensures
        decl_v(r.0) == this_decl(decl_v(*d), ident_v(*t)),
        r.1 == (this_decl(decl_v(*d), ident_v(*t)) != decl_v(*d)),
    decreases d,
{
    match d {
        Decl::Var(v) => {
            let (ds, f) = this_replaced_declarators(&v.decls, t);
            (Decl::Var(VarDecl { span: v.span, kind: v.kind, decls: ds }), f)
        },
        Decl::Using(u) => {
            let (ds, f) = this_replaced_declarators(&u.decls, t);
            (Decl::Using(UsingDecl { span: u.span, is_await: u.is_await, decls: ds }), f)
        },
        _ => (clone_decl(d), false),
    }
}

pub fn this_replaced_case(c: &SwitchCase, t: &Ident) -> (r: (SwitchCase, bool))
    ensures
        switch_case_v(r.0) == this_case(switch_case_v(*c), ident_v(*t)),
        r.1 == (this_case(switch_case_v(*c), ident_v(*t)) != switch_case_v(*c)),
    decreases c,
{
    let (cons, f2) = this_replaced_stmts(&c.cons, t);
    match &c.test {
        Some(x) => {
            let (a, f1) = this_replaced_expr(&**x, t);
            (SwitchCase { test: Some(Box::new(a)), cons }, f1 || f2)
        },
        None => (SwitchCase { test: None, cons }, f2),
    }
}

pub fn this_replaced_head(h: &ForHead, t: &Ident) -> (r: (ForHead, bool))
    ensures
        for_head_v(r.0) == this_head(for_head_v(*h), ident_v(*t)),
        r.1 == (this_head(for_head_v(*h), ident_v(*t)) != for_head_v(*h)),
    decreases h,
{
    match h {
        ForHead::VarDecl(v) => {
            let (ds, f) = this_replaced_declarators(&v.decls, t);
            (ForHead::VarDecl(VarDecl { span: v.span, kind: v.kind, decls: ds }), f)
        },
        ForHead::UsingDecl(u) => {
            let (ds, f) = this_replaced_declarators(&u.decls, t);
            (ForHead::UsingDecl(UsingDecl { span: u.span, is_await: u.is_await, decls: ds }), f)
        },
        ForHead::Pat(p) => {
            let (x, f) = this_replaced_pat(p, t);
            (ForHead::Pat(x), f)
        },
    }
}

#[verifier::rlimit(40)]
pub fn this_replaced_for_of(fo: &ForOfStmt, t: &Ident) -> (r: (ForOfStmt, bool))
    ensures
        for_of_v(r.0) == this_for_of(for_of_v(*fo), ident_v(*t)),
        r.1 == (this_for_of(for_of_v(*fo), ident_v(*t)) != for_of_v(*fo)),
    decreases fo,
{
    let ghost tv = ident_v(*t);
    let ghost fv = for_of_v(*fo);
    let (left, f1) = this_replaced_head(&fo.left, t);
    let (right, f2) = this_replaced_expr(&*fo.right, t);
    let (body, f3) = this_replaced_stmt(&*fo.body, t);
    let r = ForOfStmt { span: fo.span, is_await: fo.is_await, left, right: Box::new(right), body: Box::new(body) };
    let ghost want = this_for_of(fv, tv);
    assert(fv.left == for_head_v(fo.left));
    assert(*fv.right == expr_v(*fo.right));
    assert(*fv.body == stmt_v(*fo.body));
    assert(for_of_v(r) == ForOfStmtV {
        span: fo.span,
        is_await: fo.is_await,
        left: for_head_v(left),
        right: Box::new(expr_v(right)),
        body: Box::new(stmt_v(body)),
    });
    assert((f1 || f2 || f3) == (want != fv));
    (r, f1 || f2 || f3)
}

pub fn this_replaced_stmt(s: &Stmt, t: &Ident) -> (r: (Stmt, bool))
    ensures
        stmt_v(r.0) == this_s(stmt_v(*s), ident_v(*t)),
        r.1 == (this_s(stmt_v(*s), ident_v(*t)) != stmt_v(*s)),
    decreases s,
{
    match s {
        Stmt::Expr(sp, x) => {
            let (a, f) = this_replaced_expr(&**x, t);
            (Stmt::Expr(*sp, Box::new(a)), f)
        },
        Stmt::Block(sp, b) => {
            let (a, f) = this_replaced_stmts(b, t);
            (Stmt::Block(*sp, a), f)
        },
        Stmt::Return(sp, Some(x)) => {
            let (a, f) = this_replaced_expr(&**x, t);
            (Stmt::Return(*sp, Some(Box::new(a))), f)
        },
        Stmt::Decl(d) => {
            let (a, f) = this_replaced_decl(d, t);
            (Stmt::Decl(a), f)
        },
        Stmt::Try(sp, b, h, fin) => {
            let (bb, f1) = this_replaced_stmts(b, t);
            let (hh, f2) = match h {
                Some(c) => {
                    let (body, g2) = this_replaced_stmts(&c.body, t);
                    match &c.param {
                        Some(p) => {
                            let (pp, g1) = this_replaced_pat(p, t);
                            (Some(CatchClause { param: Some(pp), body }), g1 || g2)
                        },
                        None => (Some(CatchClause { param: None, body }), g2),
                    }
                },
                None => (None, false),
            };
            let (ff, f3) = match fin {
                Some(fb) => {
                    let (x, g) = this_replaced_stmts(fb, t);
                    (Some(x), g)
                },
                None => (None, false),
            };
            (Stmt::Try(*sp, bb, hh, ff), f1 || f2 || f3)
        },
        Stmt::Switch(sp, d, cs) => {
            let (a, f1) = this_replaced_expr(&**d, t);
            let (b, f2) = this_replaced_cases(cs, t);
            (Stmt::Switch(*sp, Box::new(a), b), f1 || f2)
        },
        Stmt::ForOf(fo) => {
            let (a, f) = this_replaced_for_of(fo, t);
            (Stmt::ForOf(a), f)
        },
        _ => (clone_stmt(s), false),
    }
}

} // verus!
