//! `obj?.prop` becomes `obj === null || obj === void 0 ? void 0 : obj.prop`,
//! and `f?.(args)` likewise, with the object or callee assigned to a
//! temporary first unless it is an identifier.

use vstd::prelude::*;

use crate::ast::{
    dummy_sp, Arg, ArrowBody, ArrowExpr, AssignOp, AssignTarget, BinaryOp, Expr, Ident, Lit,
    MemberExpr, ModuleItem, OptChainBase, Stmt,
};
use crate::ast_build::{gen_ident, static_member, static_member_expr};
use crate::ast_clone::{clone_expr, clone_ident, take_expr};
use crate::ast_view::{module_items_v, stmts_v,
    args_v, arrow_v, assign_target_v, expr_v, ident_v, member_v, opt_chain_v, ArrowBodyV, ArrowExprV, AssignTargetV, ExprV,
    LitV, MemberExprV, OptChainBaseV, ArgV,
};
use crate::context::TransformCtx;
use crate::duplicate::assign_temp_v;
use crate::es2020::nullish_coalescing_operator::{temp_declarator, void0_v, void_0};
use crate::text::{make_uid, uid_v};
use crate::var_declarations::{declarations_into_first_block, lemma_svs_stmts_v, popped, with_declarations, DeclaratorsV, VarDeclarationsStore};

verus! {

/// `e === null`, or `e == null` when `document.all` is assumed unused.
pub open spec fn null_check_v(no_document_all: bool, e: ExprV) -> ExprV {
    ExprV::Bin(
        if no_document_all { BinaryOp::EqEq } else { BinaryOp::EqEqEq },
        Box::new(e),
        Box::new(ExprV::Lit(LitV::Null)),
    )
}

/// The test of a rewritten chain: `first == null` when `document.all` is
/// assumed unused, else `first === null || second === void 0`.
pub open spec fn chain_test_v(no_document_all: bool, first: ExprV, second: ExprV) -> ExprV {
    if no_document_all {
        null_check_v(true, first)
    } else {
        ExprV::Bin(
            BinaryOp::LogicalOr,
            Box::new(null_check_v(false, first)),
            Box::new(ExprV::Bin(BinaryOp::EqEqEq, Box::new(second), Box::new(void0_v()))),
        )
    }
}

/// `test ? void 0 : alt`.
pub open spec fn chain_cond_v(test: ExprV, alt: ExprV) -> ExprV {
    ExprV::Cond(Box::new(test), Box::new(void0_v()), Box::new(alt))
}

/// `f.call(receiver, args)`: `f` called with `receiver` as `this`.
pub open spec fn method_call_v(f: ExprV, receiver: ExprV, args: Seq<ArgV>) -> ExprV {
    ExprV::Call(Box::new(static_member(f, "call"@)), seq![ArgV { spread: false, expr: receiver }] + args)
}

/// How many temporaries the rewrite of `e` may need.
pub open spec fn temps_needed(e: ExprV) -> nat
    decreases e,
{
    match e {
        ExprV::OptChain(b) => match b {
            OptChainBaseV::Member(m) => 1 + temps_needed(*m.obj),
            OptChainBaseV::Call(_, _) => 2,
        },
        _ => 0,
    }
}

/// The rewrite of an optional chain `e`, given the counter of generated
/// names and the frames of pending declarations: the new expression, the
/// new counter and the new frames. The object of an optional member access
/// is rewritten first when it is itself a chain.
pub open spec fn opt_chain_rewrite(
    e: ExprV,
    nda: bool,
    counter: nat,
    frames: Seq<Option<DeclaratorsV>>,
) -> (ExprV, nat, Seq<Option<DeclaratorsV>>)
    decreases e,
{
    match e {
        ExprV::OptChain(b) => match b {
            OptChainBaseV::Member(m) => {
                let inner = opt_chain_rewrite(*m.obj, nda, counter, frames);
                let obj = inner.0;
                match obj {
                    ExprV::Ident(i) => (
                        chain_cond_v(
                            chain_test_v(nda, ExprV::Ident(i), ExprV::Ident(i)),
                            ExprV::Member(MemberExprV { obj: Box::new(ExprV::Ident(i)), prop: m.prop }),
                        ),
                        inner.1,
                        inner.2,
                    ),
                    _ => {
                        let n = inner.1 + 1;
                        let name = uid_v("temp"@, n);
                        let t = ExprV::Ident(gen_ident(name));
                        (
                            chain_cond_v(
                                chain_test_v(nda, assign_temp_v(name, obj), t),
                                ExprV::Member(MemberExprV { obj: Box::new(t), prop: m.prop }),
                            ),
                            n,
                            VarDeclarationsStore::spec_add(inner.2, temp_declarator(name), true),
                        )
                    },
                }
            },
            OptChainBaseV::Call(callee, args) => match *callee {
                ExprV::Ident(i) => (
                    chain_cond_v(
                        chain_test_v(nda, ExprV::Ident(i), ExprV::Ident(i)),
                        ExprV::Call(Box::new(ExprV::Ident(i)), args),
                    ),
                    counter,
                    frames,
                ),
                ExprV::Member(m) => if (*m.obj is Ident) || (*m.obj is This) {
                    let n = counter + 1;
                    let name = uid_v("temp"@, n);
                    let t = ExprV::Ident(gen_ident(name));
                    (
                        chain_cond_v(
                            chain_test_v(nda, assign_temp_v(name, *callee), t),
                            method_call_v(t, *m.obj, args),
                        ),
                        n,
                        VarDeclarationsStore::spec_add(frames, temp_declarator(name), true),
                    )
                } else {
                    let rn = counter + 1;
                    let rname = uid_v("temp"@, rn);
                    let r = ExprV::Ident(gen_ident(rname));
                    let n = rn + 1;
                    let name = uid_v("temp"@, n);
                    let t = ExprV::Ident(gen_ident(name));
                    let callee2 = ExprV::Member(MemberExprV { obj: Box::new(assign_temp_v(rname, *m.obj)), prop: m.prop });
                    (
                        chain_cond_v(
                            chain_test_v(nda, assign_temp_v(name, callee2), t),
                            method_call_v(t, r, args),
                        ),
                        n,
                        VarDeclarationsStore::spec_add(
                            VarDeclarationsStore::spec_add(frames, temp_declarator(rname), true),
                            temp_declarator(name),
                            true,
                        ),
                    )
                },
                c => {
                    let n = counter + 1;
                    let name = uid_v("temp"@, n);
                    let t = ExprV::Ident(gen_ident(name));
                    (
                        chain_cond_v(
                            chain_test_v(nda, assign_temp_v(name, c), t),
                            ExprV::Call(Box::new(t), args),
                        ),
                        n,
                        VarDeclarationsStore::spec_add(frames, temp_declarator(name), true),
                    )
                },
            },
        },
        _ => (e, counter, frames),
    }
}

proof fn lemma_rewrite_counter(e: ExprV, nda: bool, counter: nat, frames: Seq<Option<DeclaratorsV>>)
    ensures
        counter <= opt_chain_rewrite(e, nda, counter, frames).1 <= counter + temps_needed(e),
    decreases e,
{
    match e {
        ExprV::OptChain(b) => match b {
            OptChainBaseV::Member(m) => {
                lemma_rewrite_counter(*m.obj, nda, counter, frames);
            },
            _ => {},
        },
        _ => {},
    }
}

/// `(() => e)()`.
pub open spec fn arrow_iife_v(e: ExprV) -> ExprV {
    ExprV::Call(
        Box::new(
            ExprV::Arrow(
                ArrowExprV {
                    span: crate::ast::dummy_span(),
                    params: Seq::empty(),
                    body: ArrowBodyV::Expr(Box::new(e)),
                    is_async: false,
                    is_generator: false,
                },
            ),
        ),
        Seq::empty(),
    )
}

/// `(() => e)()`.
pub fn wrap_expression_in_arrow_function_iife(e: Box<Expr>) -> (r: Expr)
    ensures
        expr_v(r) == arrow_iife_v(expr_v(*e)),
{
    let ghost ev = expr_v(*e);
    let arrow = ArrowExpr { span: dummy_sp(), params: Vec::new(), body: ArrowBody::Expr(e), is_async: false, is_generator: false };
    proof {
        assert(crate::ast_view::pats_v(arrow.params@) =~= Seq::empty());
        assert(arrow_v(arrow) == ArrowExprV { span: crate::ast::dummy_span(), params: Seq::empty(), body: ArrowBodyV::Expr(Box::new(ev)), is_async: false, is_generator: false });
    }
    let callee = Expr::Arrow(arrow);
    assert(expr_v(callee) == ExprV::Arrow(ArrowExprV { span: crate::ast::dummy_span(), params: Seq::empty(), body: ArrowBodyV::Expr(Box::new(ev)), is_async: false, is_generator: false }));
    let args: Vec<crate::ast::Arg> = Vec::new();
    proof {
        assert(args_v(args@) =~= Seq::<ArgV>::empty());
    }
    Expr::Call(Box::new(callee), args)
}

/// The rewrite of `?.`.
pub struct OptionalChaining {
    pub no_document_all: bool,
    pub var_declarations: VarDeclarationsStore,
    pub uid_counter: usize,
    /// Whether a function parameter is being visited.
    pub is_inside_function_parameter: bool,
}

impl OptionalChaining {
    pub fn new(ctx: &TransformCtx) -> (s: Self)
        ensures
            s.no_document_all == ctx.assumptions.no_document_all,
            s.uid_counter == 0,
            s.var_declarations.frames().len() == 0,
            !s.is_inside_function_parameter,
    {
        OptionalChaining {
            no_document_all: ctx.assumptions.no_document_all,
            var_declarations: VarDeclarationsStore::new(),
            uid_counter: 0,
            is_inside_function_parameter: false,
        }
    }

    fn generate_uid(&mut self, base_name: &str) -> (b: Ident)
        requires
            old(self).uid_counter < usize::MAX,
        ensures
            final(self).uid_counter == old(self).uid_counter + 1,
            final(self).var_declarations == old(self).var_declarations,
            final(self).no_document_all == old(self).no_document_all,
            final(self).is_inside_function_parameter == old(self).is_inside_function_parameter,
            ident_v(b) == gen_ident(uid_v(base_name@, final(self).uid_counter as nat)),
    {
        self.uid_counter = self.uid_counter + 1;
        Ident { sym: make_uid(base_name, self.uid_counter), ctxt: 0, span: dummy_sp() }
    }

    /// `expr === null`, or `expr == null` when `document.all` is assumed
    /// unused.
    fn create_null_check(&self, expr: Expr) -> (e: Expr)
        ensures
            expr_v(e) == null_check_v(self.no_document_all, expr_v(expr)),
    {
        let null = Expr::Lit(Lit::Null);
        assert(expr_v(null) == ExprV::Lit(LitV::Null));
        let op = if self.no_document_all { BinaryOp::EqEq } else { BinaryOp::EqEqEq };
        Expr::Bin(op, Box::new(expr), Box::new(null))
    }

    /// `expr === void 0`.
    fn create_void_0_check(expr: Expr) -> (e: Expr)
        ensures
            expr_v(e) == ExprV::Bin(BinaryOp::EqEqEq, Box::new(expr_v(expr)), Box::new(void0_v())),
    {
        Expr::Bin(BinaryOp::EqEqEq, Box::new(expr), Box::new(void_0()))
    }

    /// `expr1 === null || expr2 === void 0`, the null check as
    /// `create_null_check` makes it.
    fn create_nullish_check(&self, expr1: Expr, expr2: Expr) -> (e: Expr)
        ensures
            expr_v(e) == ExprV::Bin(
                BinaryOp::LogicalOr,
                Box::new(null_check_v(self.no_document_all, expr_v(expr1))),
                Box::new(ExprV::Bin(BinaryOp::EqEqEq, Box::new(expr_v(expr2)), Box::new(void0_v()))),
            ),
    {
        let null_check = self.create_null_check(expr1);
        let void_check = Self::create_void_0_check(expr2);
        Expr::Bin(BinaryOp::LogicalOr, Box::new(null_check), Box::new(void_check))
    }

    /// The test of a rewritten chain.
    fn create_test(&self, first: Expr, second: Expr) -> (e: Expr)
        ensures
            expr_v(e) == chain_test_v(self.no_document_all, expr_v(first), expr_v(second)),
    {
        if self.no_document_all {
            self.create_null_check(first)
        } else {
            self.create_nullish_check(first, second)
        }
    }

    fn create_cond(test: Expr, alt: Expr) -> (e: Expr)
        ensures
            expr_v(e) == chain_cond_v(expr_v(test), expr_v(alt)),
    {
        Expr::Cond(Box::new(test), Box::new(void_0()), Box::new(alt))
    }

    /// `args` prepended with the receiver argument `receiver`.
    fn receiver_args(receiver: Expr, args: Vec<Arg>) -> (r: Vec<Arg>)
        ensures
            args_v(r@) == seq![ArgV { spread: false, expr: expr_v(receiver) }] + args_v(args@),
    {
        let first = Arg { spread: false, expr: receiver };
        let mut r = vec![first];
        let mut rest = args;
        let ghost a0 = rest@;
        r.append(&mut rest);
        proof {
            crate::ast_view::lemma_args_v(r@);
            crate::ast_view::lemma_args_v(a0);
            assert(args_v(r@) =~= seq![ArgV { spread: false, expr: expr_v(receiver) }] + args_v(a0));
        }
        r
    }

    /// The optional call `obj.prop?.(args)`: the callee is stored in a
    /// temporary and called with `obj` as `this`, and `obj` itself is stored
    /// in a temporary first unless it is a name or `this`.
    fn transform_method_call(&mut self, m: MemberExpr, args: Vec<Arg>) -> (e: Expr)
        requires
            old(self).uid_counter + 2 <= usize::MAX,
        ensures
            ({
                let r = opt_chain_rewrite(
                    ExprV::OptChain(OptChainBaseV::Call(Box::new(ExprV::Member(member_v(m))), args_v(args@))),
                    old(self).no_document_all,
                    old(self).uid_counter as nat,
                    old(self).var_declarations.frames(),
                );
                &&& expr_v(e) == r.0
                &&& final(self).uid_counter == r.1
                &&& final(self).var_declarations.frames() == r.2
            }),
            final(self).no_document_all == old(self).no_document_all,
            final(self).is_inside_function_parameter == old(self).is_inside_function_parameter,
    {
        let ghost mv = member_v(m);
        let ghost argsv = args_v(args@);
        let MemberExpr { obj, prop } = m;
        let ghost objv = expr_v(*obj);
        let ghost propv = crate::ast_view::member_prop_v(prop);
        assert(mv == MemberExprV { obj: Box::new(objv), prop: propv });
        let simple = match &*obj {
            Expr::Ident(_) => true,
            Expr::This => true,
            _ => false,
        };
        proof {
            crate::ast_view::lemma_expr_v_ident(*obj);
        }
        let (callee, receiver) = if simple {
            let receiver = clone_expr(&*obj);
            (MemberExpr { obj, prop }, receiver)
        } else {
            let rb = self.generate_uid("temp");
            self.var_declarations.insert_var(&rb, None);
            let target = AssignTarget::Ident(clone_ident(&rb));
            assert(assign_target_v(target) == AssignTargetV::Ident(ident_v(rb)));
            let stored = Expr::Assign(AssignOp::Assign, target, obj);
            assert(expr_v(stored) == assign_temp_v(ident_v(rb).sym, objv));
            (MemberExpr { obj: Box::new(stored), prop }, Expr::Ident(rb))
        };
        let ghost calleev = member_v(callee);
        let ghost recv = expr_v(receiver);
        let binding = self.generate_uid("temp");
        self.var_declarations.insert_var(&binding, None);
        let target = AssignTarget::Ident(clone_ident(&binding));
        assert(assign_target_v(target) == AssignTargetV::Ident(ident_v(binding)));
        let callee_e = Expr::Member(callee);
        assert(expr_v(callee_e) == ExprV::Member(calleev));
        assert(ident_v(binding) == gen_ident(ident_v(binding).sym));
        let assignment = Expr::Assign(AssignOp::Assign, target, Box::new(callee_e));
        assert(expr_v(assignment) == assign_temp_v(ident_v(binding).sym, ExprV::Member(calleev)));
        let second = Expr::Ident(clone_ident(&binding));
        let test = self.create_test(assignment, second);
        let f = static_member_expr(Expr::Ident(binding), "call");
        let call_args = Self::receiver_args(receiver, args);
        let call = Expr::Call(Box::new(f), call_args);
        assert(expr_v(call) == method_call_v(ExprV::Ident(ident_v(binding)), recv, argsv));
        Self::create_cond(test, call)
    }

    /// Rewrites `expr` when it is an optional chain; returns whether it was.
    pub fn transform_optional_member(&mut self, expr: &mut Expr) -> (transformed: bool)
        requires
            old(self).uid_counter + temps_needed(expr_v(*old(expr))) <= usize::MAX,
        ensures
            ({
                let t = opt_chain_rewrite(
                    expr_v(*old(expr)),
                    old(self).no_document_all,
                    old(self).uid_counter as nat,
                    old(self).var_declarations.frames(),
                );
                &&& expr_v(*final(expr)) == t.0
                &&& final(self).uid_counter == t.1
                &&& final(self).var_declarations.frames() == t.2
            }),
            transformed == (expr_v(*old(expr)) is OptChain),
            final(self).no_document_all == old(self).no_document_all,
            final(self).is_inside_function_parameter == old(self).is_inside_function_parameter,
        decreases *old(expr),
    {
        let ghost ev = expr_v(*expr);
        let ghost c0 = self.uid_counter as nat;
        let ghost f0 = self.var_declarations.frames();
        let ghost nda = self.no_document_all;
        let ghost t = opt_chain_rewrite(ev, nda, c0, f0);
        let e = take_expr(expr);
        match e {
            Expr::OptChain(base) => {
                let ghost bv = opt_chain_v(base);
                assert(ev == ExprV::OptChain(bv));
                match base {
                    OptChainBase::Member(member) => {
                        let ghost mv = member_v(member);
                        assert(bv == OptChainBaseV::Member(mv));
                        let MemberExpr { obj, prop } = member;
                        let mut obj = obj;
                        let ghost prop_v = crate::ast_view::member_prop_v(prop);
                        let ghost objv0 = expr_v(*obj);
                        assert(mv == MemberExprV { obj: Box::new(objv0), prop: prop_v });
                        proof {
                            lemma_rewrite_counter(objv0, self.no_document_all, self.uid_counter as nat, self.var_declarations.frames());
                        }
                        self.transform_optional_member(&mut *obj);
                        let ghost objv = expr_v(*obj);
                        match *obj {
                            Expr::Ident(ident) => {
                                let a = Expr::Ident(clone_ident(&ident));
                                let b = Expr::Ident(clone_ident(&ident));
                                let test = self.create_test(a, b);
                                let m = MemberExpr { obj: Box::new(Expr::Ident(ident)), prop };
                                assert(member_v(m) == MemberExprV { obj: Box::new(objv), prop: prop_v });
                                *expr = Self::create_cond(test, Expr::Member(m));
                                assert(expr_v(*expr) == t.0);
                                assert(self.var_declarations.frames() == t.2);
                            },
                            o => {
                                proof {
                                    crate::ast_view::lemma_expr_v_ident(o);
                                }
                                let binding = self.generate_uid("temp");
                                self.var_declarations.insert_var(&binding, None);
                                let target = AssignTarget::Ident(clone_ident(&binding));
                                assert(assign_target_v(target) == AssignTargetV::Ident(ident_v(binding)));
                                let assignment = Expr::Assign(AssignOp::Assign, target, Box::new(o));
                                assert(expr_v(assignment) == assign_temp_v(ident_v(binding).sym, objv));
                                let second = Expr::Ident(clone_ident(&binding));
                                let test = self.create_test(assignment, second);
                                let m = MemberExpr { obj: Box::new(Expr::Ident(binding)), prop };
                                assert(member_v(m) == MemberExprV { obj: Box::new(ExprV::Ident(ident_v(binding))), prop: prop_v });
                                *expr = Self::create_cond(test, Expr::Member(m));
                                assert(expr_v(*expr) == t.0);
                                assert(self.var_declarations.frames() == t.2);
                            },
                        }
                    },
                    OptChainBase::Call(callee, args) => {
                        let ghost calleev = expr_v(*callee);
                        let ghost argsv = args_v(args@);
                        assert(bv == OptChainBaseV::Call(Box::new(calleev), argsv));
                        match *callee {
                            Expr::Ident(ident) => {
                                let a = Expr::Ident(clone_ident(&ident));
                                let b = Expr::Ident(clone_ident(&ident));
                                let test = self.create_test(a, b);
                                let call = Expr::Call(Box::new(Expr::Ident(ident)), args);
                                *expr = Self::create_cond(test, call);
                                assert(expr_v(*expr) == t.0);
                            },
                            Expr::Member(m) => {
                                *expr = self.transform_method_call(m, args);
                                assert(expr_v(*expr) == t.0);
                                assert(self.var_declarations.frames() == t.2);
                            },
                            c => {
                                proof {
                                    crate::ast_view::lemma_expr_v_ident(c);
                                }
                                assert(!(calleev is Member));
                                let binding = self.generate_uid("temp");
                                self.var_declarations.insert_var(&binding, None);
                                let target = AssignTarget::Ident(clone_ident(&binding));
                                assert(assign_target_v(target) == AssignTargetV::Ident(ident_v(binding)));
                                let assignment = Expr::Assign(AssignOp::Assign, target, Box::new(c));
                                assert(expr_v(assignment) == assign_temp_v(ident_v(binding).sym, calleev));
                                let second = Expr::Ident(clone_ident(&binding));
                                let test = self.create_test(assignment, second);
                                let ghost name = uid_v("temp"@, c0 + 1);
                                let ghost tv = ExprV::Ident(gen_ident(name));
                                assert(!(calleev is Ident));
                                assert(t.0 == chain_cond_v(chain_test_v(nda, assign_temp_v(name, calleev), tv), ExprV::Call(Box::new(tv), argsv)));
                                assert(ident_v(binding) == gen_ident(name));
                                let callee_e = Expr::Ident(binding);
                                assert(expr_v(callee_e) == tv);
                                assert(args_v(args@) == argsv);
                                let call = Expr::Call(Box::new(callee_e), args);
                                assert(expr_v(call) == ExprV::Call(Box::new(tv), argsv));
                                *expr = Self::create_cond(test, call);
                                assert(expr_v(*expr) == t.0);
                                assert(self.var_declarations.frames() == t.2);
                            },
                        }
                    },
                }
                true
            },
            e => {
                *expr = e;
                false
            },
        }
    }

    /// Inside a function parameter, wraps an optional chain in an arrow
    /// function that is called at once.
    pub fn enter_expr(&mut self, expr: &mut Expr)
        ensures
            *final(self) == *old(self),
            if old(self).is_inside_function_parameter && expr_v(*old(expr)) is OptChain {
                expr_v(*final(expr)) == arrow_iife_v(expr_v(*old(expr)))
            } else {
                *final(expr) == *old(expr)
            },
    {
        let is_chain = match expr {
            Expr::OptChain(_) => true,
            _ => false,
        };
        if self.is_inside_function_parameter && is_chain {
            let taken = take_expr(expr);
            *expr = wrap_expression_in_arrow_function_iife(Box::new(taken));
        }
    }

    /// Rewrites an optional chain once its children have been visited.
    pub fn exit_expr(&mut self, expr: &mut Expr)
        requires
            old(self).uid_counter + temps_needed(expr_v(*old(expr))) <= usize::MAX,
        ensures
            ({
                let t = opt_chain_rewrite(
                    expr_v(*old(expr)),
                    old(self).no_document_all,
                    old(self).uid_counter as nat,
                    old(self).var_declarations.frames(),
                );
                &&& expr_v(*final(expr)) == t.0
                &&& final(self).uid_counter == t.1
                &&& final(self).var_declarations.frames() == t.2
            }),
    {
        self.transform_optional_member(expr);
    }

    pub fn enter_param(&mut self)
        ensures
            final(self).is_inside_function_parameter,
            final(self).uid_counter == old(self).uid_counter,
            final(self).var_declarations == old(self).var_declarations,
    {
        self.is_inside_function_parameter = true;
    }

    pub fn exit_param(&mut self)
        ensures
            !final(self).is_inside_function_parameter,
            final(self).uid_counter == old(self).uid_counter,
            final(self).var_declarations == old(self).var_declarations,
    {
        self.is_inside_function_parameter = false;
    }

    /// Opens the frame of the module body.
    pub fn enter_module(&mut self)
        ensures
            final(self).var_declarations.frames() == old(self).var_declarations.frames().push(None),
            final(self).uid_counter == old(self).uid_counter,
    {
        self.var_declarations.record_entering_statements();
    }

    /// Puts the pending declarations in front of the first block statement
    /// of the module body and closes the module's frame, as
    /// `declarations_into_first_block` says; without a block statement
    /// they go in front of the body.
    pub fn exit_module(&mut self, body: &mut Vec<ModuleItem>)
        ensures
            final(self).uid_counter == old(self).uid_counter,
            (module_items_v(final(body)@), final(self).var_declarations.frames()) == declarations_into_first_block(
                module_items_v(old(body)@),
                old(self).var_declarations.frames(),
            ),
    {
        self.var_declarations.insert_into_first_block(body);
    }

    /// Opens the frame of a block.
    pub fn enter_block_stmt(&mut self)
        ensures
            final(self).var_declarations.frames() == old(self).var_declarations.frames().push(None),
            final(self).uid_counter == old(self).uid_counter,
    {
        self.var_declarations.record_entering_statements();
    }

    /// Puts the pending declarations of the block's frame in front of its
    /// statements.
    pub fn exit_block_stmt(&mut self, stmts: &mut Vec<Stmt>)
        ensures
            final(self).uid_counter == old(self).uid_counter,
            final(self).var_declarations.frames() == popped(old(self).var_declarations.frames()),
            stmts_v(final(stmts)@) == with_declarations(old(self).var_declarations.frames(), stmts_v(old(stmts)@)),
    {
        let ghost s0 = stmts@;
        self.var_declarations.insert_into_statements(stmts);
        proof {
            lemma_svs_stmts_v(s0);
            lemma_svs_stmts_v(stmts@);
        }
    }
}

} // verus!
