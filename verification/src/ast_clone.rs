//! Copies of syntax trees whose views equal the originals', and moves that
//! leave an `Invalid` node behind.

use vstd::prelude::*;

use crate::ast::{dummy_sp, dummy_span, Arg, ArrowBody, ArrowExpr, AssignTarget, Class, ClassMember, Decl, Expr, ForHead, ForOfStmt, Function, Ident, Key, Lit, MemberExpr, MemberProp, OptChainBase, Pat, PrivateProp, PropName, PropOrSpread, Stmt, SwitchCase, Tpl, TplElement, VarDecl, UsingDecl, VarDeclarator, CatchClause};
use crate::ast_view::{arg_v, args_v, assign_target_v, declarator_v, declarators_v, expr_v, exprs_v, ident_v, lemma_args_v, lemma_declarators_v, lemma_exprs_v, lemma_pats_v, lemma_props_v, lemma_stmts_v, lit_v, member_prop_v, member_v, pat_v, pats_v, prop_name_v, prop_v, props_v, quasis_v, stmt_v, stmts_v, tpl_element_v, tpl_v, function_v, arrow_v, opt_chain_v, decl_v, opt_ident_v, class_v, class_member_v, members_v, lemma_members_v, switch_case_v, cases_v, lemma_cases_v, for_of_v};

verus! {

/// Moves the expression out of `e`, leaving `Invalid` in its place.
pub fn take_expr(e: &mut Expr) -> (r: Expr)
    ensures
        r == *old(e),
        *final(e) == Expr::Invalid,
{
    let mut r = Expr::Invalid;
    std::mem::swap(&mut r, e);
    r
}

/// Moves the statement out of `s`, leaving an empty statement in its place.
pub fn take_stmt(s: &mut Stmt) -> (r: Stmt)
    ensures
        r == *old(s),
        *final(s) == Stmt::Empty(dummy_span()),
{
    let mut r = Stmt::Empty(dummy_sp());
    std::mem::swap(&mut r, s);
    r
}

pub fn clone_string(s: &String) -> (r: String)
    ensures
        r@ == s@,
{
    s.clone()
}

pub fn clone_bytes(v: &Vec<u8>) -> (r: Vec<u8>)
    ensures
        r@ == v@,
{
    let mut r: Vec<u8> = Vec::new();
    let mut i: usize = 0;
    while i < v.len()
        invariant
            i <= v.len(),
            r@ =~= v@.take(i as int),
        decreases v.len() - i,
    {
        r.push(v[i]);
        i += 1;
    }
    assert(v@.take(v.len() as int) =~= v@);
    r
}

pub fn clone_ident(i: &Ident) -> (r: Ident)
    ensures
        ident_v(r) == ident_v(*i),
{
    Ident { sym: i.sym.clone(), ctxt: i.ctxt, span: i.span }
}

pub fn clone_opt_ident(i: &Option<Ident>) -> (r: Option<Ident>)
    ensures
        opt_ident_v(r) == opt_ident_v(*i),
{
    match i {
        Some(x) => Some(clone_ident(x)),
        None => None,
    }
}

pub fn clone_lit(l: &Lit) -> (r: Lit)
    ensures
        lit_v(r) == lit_v(*l),
{
    match l {
        Lit::Str(s) => Lit::Str(s.clone()),
        Lit::Bool(b) => Lit::Bool(*b),
        Lit::Null => Lit::Null,
        Lit::Num(s) => Lit::Num(s.clone()),
        Lit::BigInt(s) => Lit::BigInt(s.clone()),
        Lit::Regex(e, f) => Lit::Regex(e.clone(), f.clone()),
    }
}

pub fn clone_prop_name(p: &PropName) -> (r: PropName)
    ensures
        prop_name_v(r) == prop_name_v(*p),
{
    match p {
        PropName::Ident(s) => PropName::Ident(s.clone()),
        PropName::Str(s) => PropName::Str(s.clone()),
        PropName::Opaque(h) => PropName::Opaque(*h),
    }
}

pub fn clone_quasis(v: &Vec<TplElement>) -> (r: Vec<TplElement>)
    ensures
        quasis_v(r@) == quasis_v(v@),
{
    let mut r: Vec<TplElement> = Vec::new();
    let mut i: usize = 0;
    while i < v.len()
        invariant
            i <= v.len(),
            r@.len() == i,
            forall|j: int| 0 <= j < i ==> tpl_element_v(#[trigger] r@[j]) == tpl_element_v(v@[j]),
        decreases v.len() - i,
    {
        let q = &v[i];
        let cooked = match &q.cooked {
            Some(c) => Some(clone_bytes(c)),
            None => None,
        };
        r.push(TplElement { span: q.span, tail: q.tail, cooked, raw: clone_bytes(&q.raw) });
        i += 1;
    }
    assert(quasis_v(r@) =~= quasis_v(v@));
    r
}

pub fn clone_expr(e: &Expr) -> (r: Expr)
    ensures
        expr_v(r) == expr_v(*e),
    decreases e,
{
    match e {
        Expr::This => Expr::This,
        Expr::Ident(i) => Expr::Ident(clone_ident(i)),
        Expr::Lit(l) => Expr::Lit(clone_lit(l)),
        Expr::Tpl(t) => Expr::Tpl(clone_tpl(t)),
        Expr::TaggedTpl(tag, t) => Expr::TaggedTpl(Box::new(clone_expr(&**tag)), clone_tpl(t)),
        Expr::Bin(op, l, r) => Expr::Bin(*op, Box::new(clone_expr(&**l)), Box::new(clone_expr(&**r))),
        Expr::Unary(op, a) => Expr::Unary(*op, Box::new(clone_expr(&**a))),
        Expr::Assign(op, t, r) => Expr::Assign(
            *op,
            clone_assign_target(t),
            Box::new(clone_expr(&**r)),
        ),
        Expr::Member(m) => Expr::Member(clone_member(m)),
        Expr::SuperProp(h) => Expr::SuperProp(*h),
        Expr::Call(c, a) => Expr::Call(Box::new(clone_expr(&**c)), clone_args(a)),
        Expr::New(c, a) => Expr::New(Box::new(clone_expr(&**c)), clone_args(a)),
        Expr::Cond(t, c, a) => Expr::Cond(
            Box::new(clone_expr(&**t)),
            Box::new(clone_expr(&**c)),
            Box::new(clone_expr(&**a)),
        ),
        Expr::Sequence(es) => Expr::Sequence(clone_exprs(es)),
        Expr::Array(sp, es) => Expr::Array(*sp, clone_exprs(es)),
        Expr::Paren(a) => Expr::Paren(Box::new(clone_expr(&**a))),
        Expr::Object(ps) => Expr::Object(clone_props(ps)),
        Expr::Fn(id, f) => Expr::Fn(clone_opt_ident(id), clone_function(f)),
        Expr::Arrow(a) => Expr::Arrow(clone_arrow(a)),
        Expr::Await(a) => Expr::Await(Box::new(clone_expr(&**a))),
        Expr::Yield(a, d) => Expr::Yield(
            match a {
                Some(x) => Some(Box::new(clone_expr(&**x))),
                None => None,
            },
            *d,
        ),
        Expr::OptChain(b) => Expr::OptChain(clone_opt_chain(b)),
        Expr::Invalid => Expr::Invalid,
        Expr::Opaque(h) => Expr::Opaque(*h),
    }
}

pub fn clone_tpl(t: &Tpl) -> (r: Tpl)
    ensures
        tpl_v(r) == tpl_v(*t),
    decreases t,
{
    Tpl { span: t.span, exprs: clone_exprs(&t.exprs), quasis: clone_quasis(&t.quasis) }
}

pub fn clone_member_prop(p: &MemberProp) -> (r: MemberProp)
    ensures
        member_prop_v(r) == member_prop_v(*p),
    decreases p,
{
    match p {
        MemberProp::Ident(i) => MemberProp::Ident(clone_ident(i)),
        MemberProp::Computed(e) => MemberProp::Computed(Box::new(clone_expr(&**e))),
        MemberProp::PrivateName(n) => MemberProp::PrivateName(n.clone()),
    }
}

pub fn clone_member(m: &MemberExpr) -> (r: MemberExpr)
    ensures
        member_v(r) == member_v(*m),
    decreases m,
{
    MemberExpr { obj: Box::new(clone_expr(&*m.obj)), prop: clone_member_prop(&m.prop) }
}

pub fn clone_assign_target(t: &AssignTarget) -> (r: AssignTarget)
    ensures
        assign_target_v(r) == assign_target_v(*t),
    decreases t,
{
    match t {
        AssignTarget::Ident(i) => AssignTarget::Ident(clone_ident(i)),
        AssignTarget::Member(m) => AssignTarget::Member(clone_member(m)),
        AssignTarget::SuperProp(h) => AssignTarget::SuperProp(*h),
        AssignTarget::Invalid => AssignTarget::Invalid,
        AssignTarget::Opaque(h) => AssignTarget::Opaque(*h),
    }
}

pub fn clone_pat(p: &Pat) -> (r: Pat)
    ensures
        pat_v(r) == pat_v(*p),
    decreases p,
{
    match p {
        Pat::Ident(i) => Pat::Ident(clone_ident(i)),
        Pat::Assign(l, r) => Pat::Assign(Box::new(clone_pat(&**l)), Box::new(clone_expr(&**r))),
        Pat::Opaque(h) => Pat::Opaque(*h),
    }
}

pub fn clone_function(f: &Function) -> (r: Function)
    ensures
        function_v(r) == function_v(*f),
    decreases f,
{
    Function {
        span: f.span,
        params: clone_pats(&f.params),
        body: match &f.body {
            Some(b) => Some(clone_stmts(b)),
            None => None,
        },
        is_async: f.is_async,
        is_generator: f.is_generator,
    }
}

pub fn clone_arrow(a: &ArrowExpr) -> (r: ArrowExpr)
    ensures
        arrow_v(r) == arrow_v(*a),
    decreases a,
{
    ArrowExpr {
        span: a.span,
        params: clone_pats(&a.params),
        body: match &a.body {
            ArrowBody::Block(b) => ArrowBody::Block(clone_stmts(b)),
            ArrowBody::Expr(e) => ArrowBody::Expr(Box::new(clone_expr(&**e))),
        },
        is_async: a.is_async,
        is_generator: a.is_generator,
    }
}

pub fn clone_opt_chain(b: &OptChainBase) -> (r: OptChainBase)
    ensures
        opt_chain_v(r) == opt_chain_v(*b),
    decreases b,
{
    match b {
        OptChainBase::Member(m) => OptChainBase::Member(clone_member(m)),
        OptChainBase::Call(c, a) => OptChainBase::Call(Box::new(clone_expr(&**c)), clone_args(a)),
    }
}

pub fn clone_declarator(d: &VarDeclarator) -> (r: VarDeclarator)
    ensures
        declarator_v(r) == declarator_v(*d),
    decreases d,
{
    VarDeclarator {
        name: clone_pat(&d.name),
        init: match &d.init {
            Some(e) => Some(Box::new(clone_expr(&**e))),
            None => None,
        },
    }
}

pub fn clone_decl(d: &Decl) -> (r: Decl)
    ensures
        decl_v(r) == decl_v(*d),
    decreases d,
{
    match d {
        Decl::Var(v) => Decl::Var(
            VarDecl { span: v.span, kind: v.kind, decls: clone_declarators(&v.decls) },
        ),
        Decl::Using(u) => Decl::Using(
            UsingDecl { span: u.span, is_await: u.is_await, decls: clone_declarators(&u.decls) },
        ),
        Decl::Fn(i, f) => Decl::Fn(clone_ident(i), clone_function(f)),
        Decl::Class(i, c) => Decl::Class(clone_ident(i), clone_class(c)),
        Decl::Opaque(s, h) => Decl::Opaque(*s, *h),
    }
}

pub fn clone_class(c: &Class) -> (r: Class)
    ensures
        class_v(r) == class_v(*c),
    decreases c,
{
    Class { span: c.span, body: clone_members(&c.body), rest: c.rest }
}

pub fn clone_class_member(m: &ClassMember) -> (r: ClassMember)
    ensures
        class_member_v(r) == class_member_v(*m),
    decreases m,
{
    match m {
        ClassMember::StaticBlock(sp, b) => ClassMember::StaticBlock(*sp, clone_stmts(b)),
        ClassMember::Method(k, h) => ClassMember::Method(clone_prop_name(k), *h),
        ClassMember::PrivateMethod(k, h) => ClassMember::PrivateMethod(clone_string(k), *h),
        ClassMember::ClassProp(k, h) => ClassMember::ClassProp(clone_prop_name(k), *h),
        ClassMember::PrivateProp(p) => ClassMember::PrivateProp(
            PrivateProp {
                span: p.span,
                key: clone_string(&p.key),
                value: match &p.value {
                    Some(e) => Some(Box::new(clone_expr(&**e))),
                    None => None,
                },
                is_static: p.is_static,
                rest: p.rest,
            },
        ),
        ClassMember::AutoAccessor(k, h) => ClassMember::AutoAccessor(
            match k {
                Key::Private(n) => Key::Private(clone_string(n)),
                Key::Public(p) => Key::Public(clone_prop_name(p)),
            },
            *h,
        ),
        ClassMember::Other(h) => ClassMember::Other(*h),
    }
}

pub fn clone_members(v: &Vec<ClassMember>) -> (r: Vec<ClassMember>)
    ensures
        members_v(r@) == members_v(v@),
    decreases v,
{
    let mut r: Vec<ClassMember> = Vec::new();
    let mut i: usize = 0;
    while i < v.len()
        invariant
            i <= v.len(),
            r@.len() == i,
            forall|j: int| 0 <= j < i ==> class_member_v(#[trigger] r@[j]) == class_member_v(v@[j]),
        decreases v.len() - i,
    {
        proof {
            assert(decreases_to!(v => v@[i as int]));
        }
        r.push(clone_class_member(&v[i]));
        i += 1;
    }
    proof {
        lemma_members_v(r@);
        lemma_members_v(v@);
        assert(members_v(r@) =~= members_v(v@));
    }
    r
}

pub fn clone_case(c: &SwitchCase) -> (r: SwitchCase)
    ensures
        switch_case_v(r) == switch_case_v(*c),
    decreases c,
{
    SwitchCase {
        test: match &c.test {
            Some(e) => Some(Box::new(clone_expr(&**e))),
            None => None,
        },
        cons: clone_stmts(&c.cons),
    }
}

pub fn clone_cases(v: &Vec<SwitchCase>) -> (r: Vec<SwitchCase>)
    ensures
        cases_v(r@) == cases_v(v@),
    decreases v,
{
    let mut r: Vec<SwitchCase> = Vec::new();
    let mut i: usize = 0;
    while i < v.len()
        invariant
            i <= v.len(),
            r@.len() == i,
            forall|j: int| 0 <= j < i ==> switch_case_v(#[trigger] r@[j]) == switch_case_v(v@[j]),
        decreases v.len() - i,
    {
        proof {
            assert(decreases_to!(v => v@[i as int]));
        }
        r.push(clone_case(&v[i]));
        i += 1;
    }
    proof {
        lemma_cases_v(r@);
        lemma_cases_v(v@);
        assert(cases_v(r@) =~= cases_v(v@));
    }
    r
}

pub fn clone_for_of(f: &ForOfStmt) -> (r: ForOfStmt)
    ensures
        for_of_v(r) == for_of_v(*f),
    decreases f,
{
    ForOfStmt {
        span: f.span,
        is_await: f.is_await,
        left: match &f.left {
            ForHead::VarDecl(v) => ForHead::VarDecl(
                VarDecl { span: v.span, kind: v.kind, decls: clone_declarators(&v.decls) },
            ),
            ForHead::UsingDecl(u) => ForHead::UsingDecl(
                UsingDecl { span: u.span, is_await: u.is_await, decls: clone_declarators(&u.decls) },
            ),
            ForHead::Pat(p) => ForHead::Pat(clone_pat(p)),
        },
        right: Box::new(clone_expr(&*f.right)),
        body: Box::new(clone_stmt(&*f.body)),
    }
}

pub fn clone_stmt(s: &Stmt) -> (r: Stmt)
    ensures
        stmt_v(r) == stmt_v(*s),
    decreases s,
{
    match s {
        Stmt::Expr(sp, e) => Stmt::Expr(*sp, Box::new(clone_expr(&**e))),
        Stmt::Block(sp, b) => Stmt::Block(*sp, clone_stmts(b)),
        Stmt::Empty(sp) => Stmt::Empty(*sp),
        Stmt::Return(sp, a) => Stmt::Return(
            *sp,
            match a {
                Some(e) => Some(Box::new(clone_expr(&**e))),
                None => None,
            },
        ),
        Stmt::Decl(d) => Stmt::Decl(clone_decl(d)),
        Stmt::Try(sp, b, h, f) => Stmt::Try(
            *sp,
            clone_stmts(b),
            match h {
                Some(c) => Some(
                    CatchClause {
                        param: match &c.param {
                            Some(p) => Some(clone_pat(p)),
                            None => None,
                        },
                        body: clone_stmts(&c.body),
                    },
                ),
                None => None,
            },
            match f {
                Some(fb) => Some(clone_stmts(fb)),
                None => None,
            },
        ),
        Stmt::Switch(sp, d, cs) => Stmt::Switch(*sp, Box::new(clone_expr(&**d)), clone_cases(cs)),
        Stmt::ForOf(f) => Stmt::ForOf(clone_for_of(f)),
        Stmt::Opaque(sp, h) => Stmt::Opaque(*sp, *h),
    }
}

pub fn clone_exprs(v: &Vec<Expr>) -> (r: Vec<Expr>)
    ensures
        exprs_v(r@) == exprs_v(v@),
    decreases v,
{
    let mut r: Vec<Expr> = Vec::new();
    let mut i: usize = 0;
    while i < v.len()
        invariant
            i <= v.len(),
            r@.len() == i,
            forall|j: int| 0 <= j < i ==> expr_v(#[trigger] r@[j]) == expr_v(v@[j]),
        decreases v.len() - i,
    {
        proof {
            assert(decreases_to!(v => v@[i as int]));
        }
        r.push(clone_expr(&v[i]));
        i += 1;
    }
    proof {
        lemma_exprs_v(r@);
        lemma_exprs_v(v@);
        assert(exprs_v(r@) =~= exprs_v(v@));
    }
    r
}

pub fn clone_args(v: &Vec<Arg>) -> (r: Vec<Arg>)
    ensures
        args_v(r@) == args_v(v@),
    decreases v,
{
    let mut r: Vec<Arg> = Vec::new();
    let mut i: usize = 0;
    while i < v.len()
        invariant
            i <= v.len(),
            r@.len() == i,
            forall|j: int| 0 <= j < i ==> arg_v(#[trigger] r@[j]) == arg_v(v@[j]),
        decreases v.len() - i,
    {
        proof {
            assert(decreases_to!(v => v@[i as int]));
        }
        r.push(Arg { spread: v[i].spread, expr: clone_expr(&v[i].expr) });
        i += 1;
    }
    proof {
        lemma_args_v(r@);
        lemma_args_v(v@);
        assert(args_v(r@) =~= args_v(v@));
    }
    r
}

pub fn clone_props(v: &Vec<PropOrSpread>) -> (r: Vec<PropOrSpread>)
    ensures
        props_v(r@) == props_v(v@),
    decreases v,
{
    let mut r: Vec<PropOrSpread> = Vec::new();
    let mut i: usize = 0;
    while i < v.len()
        invariant
            i <= v.len(),
            r@.len() == i,
            forall|j: int| 0 <= j < i ==> prop_v(#[trigger] r@[j]) == prop_v(v@[j]),
        decreases v.len() - i,
    {
        proof {
            assert(decreases_to!(v => v@[i as int]));
        }
        let p = match &v[i] {
            PropOrSpread::Spread(e) => PropOrSpread::Spread(clone_expr(e)),
            PropOrSpread::KeyValue(k, e) => PropOrSpread::KeyValue(clone_prop_name(k), clone_expr(e)),
            PropOrSpread::Opaque(h) => PropOrSpread::Opaque(*h),
        };
        r.push(p);
        i += 1;
    }
    proof {
        lemma_props_v(r@);
        lemma_props_v(v@);
        assert(props_v(r@) =~= props_v(v@));
    }
    r
}

pub fn clone_pats(v: &Vec<Pat>) -> (r: Vec<Pat>)
    ensures
        pats_v(r@) == pats_v(v@),
    decreases v,
{
    let mut r: Vec<Pat> = Vec::new();
    let mut i: usize = 0;
    while i < v.len()
        invariant
            i <= v.len(),
            r@.len() == i,
            forall|j: int| 0 <= j < i ==> pat_v(#[trigger] r@[j]) == pat_v(v@[j]),
        decreases v.len() - i,
    {
        proof {
            assert(decreases_to!(v => v@[i as int]));
        }
        r.push(clone_pat(&v[i]));
        i += 1;
    }
    proof {
        lemma_pats_v(r@);
        lemma_pats_v(v@);
        assert(pats_v(r@) =~= pats_v(v@));
    }
    r
}

pub fn clone_stmts(v: &Vec<Stmt>) -> (r: Vec<Stmt>)
    ensures
        stmts_v(r@) == stmts_v(v@),
    decreases v,
{
    let mut r: Vec<Stmt> = Vec::new();
    let mut i: usize = 0;
    while i < v.len()
        invariant
            i <= v.len(),
            r@.len() == i,
            forall|j: int| 0 <= j < i ==> stmt_v(#[trigger] r@[j]) == stmt_v(v@[j]),
        decreases v.len() - i,
    {
        proof {
            assert(decreases_to!(v => v@[i as int]));
        }
        r.push(clone_stmt(&v[i]));
        i += 1;
    }
    proof {
        lemma_stmts_v(r@);
        lemma_stmts_v(v@);
        assert(stmts_v(r@) =~= stmts_v(v@));
    }
    r
}

pub fn clone_declarators(v: &Vec<VarDeclarator>) -> (r: Vec<VarDeclarator>)
    ensures
        declarators_v(r@) == declarators_v(v@),
    decreases v,
{
    let mut r: Vec<VarDeclarator> = Vec::new();
    let mut i: usize = 0;
    while i < v.len()
        invariant
            i <= v.len(),
            r@.len() == i,
            forall|j: int| 0 <= j < i ==> declarator_v(#[trigger] r@[j]) == declarator_v(v@[j]),
        decreases v.len() - i,
    {
        proof {
            assert(decreases_to!(v => v@[i as int]));
        }
        r.push(clone_declarator(&v[i]));
        i += 1;
    }
    proof {
        lemma_declarators_v(r@);
        lemma_declarators_v(v@);
        assert(declarators_v(r@) =~= declarators_v(v@));
    }
    r
}

} // verus!
