//! ES2016: the exponentiation operator. `a ** b` becomes `Math.pow(a, b)`
//! and `x **= y` becomes `x = Math.pow(x, y)`; operands that are BigInt
//! literals are left alone, since `Math.pow` rejects them.

use vstd::prelude::*;

use crate::ast::{AssignOp, AssignTarget, BinaryOp, Expr, Ident, Lit, MemberExpr, MemberProp};
use crate::ast_build::{call2, gen_ident, ident_expr, call_v, plain_args, static_member, static_member_expr, str_v};
use crate::ast_clone::{clone_expr, clone_member, clone_ident, take_expr, clone_string};
use crate::ast_view::{assign_target_v, expr_v, ident_v, member_prop_v, member_v, ArgV, AssignTargetV, ExprV, LitV, MemberExprV, MemberPropV};
use crate::context::TransformCtx;

verus! {

/// Which ES2016 features are transformed.
#[derive(Clone, Copy, Debug)]
pub struct ES2016Options {
    /// `**` and `**=` become `Math.pow`.
    pub exponentiation_operator: bool,
}

impl Default for ES2016Options {
    fn default() -> (o: Self)
        ensures
            !o.exponentiation_operator,
    {
        ES2016Options { exponentiation_operator: false }
    }
}

/// Whether `e` is a BigInt literal.
pub open spec fn is_big_int_v(e: ExprV) -> bool {
    e matches ExprV::Lit(LitV::BigInt(_))
}

/// `Math.pow(l, r)`.
pub open spec fn math_pow_v(l: ExprV, r: ExprV) -> ExprV {
    call_v(static_member(ExprV::Ident(gen_ident("Math"@)), "pow"@), seq![l, r])
}

/// What the transform makes of one expression, its children untouched.
pub open spec fn exponentiation_v(e: ExprV) -> ExprV {
    match e {
        ExprV::Bin(op, l, r) => if op == BinaryOp::Exp && !is_big_int_v(*l) && !is_big_int_v(*r) {
            math_pow_v(*l, *r)
        } else {
            e
        },
        ExprV::Assign(op, t, r) => if op == AssignOp::ExpAssign && !is_big_int_v(*r) {
            match t {
                AssignTargetV::Ident(i) => ExprV::Assign(
                    AssignOp::Assign,
                    t,
                    Box::new(math_pow_v(ExprV::Ident(i), *r)),
                ),
                AssignTargetV::Member(m) => match m.prop {
                    MemberPropV::Ident(p) => {
                        let lm = MemberExprV { obj: m.obj, prop: MemberPropV::Computed(Box::new(str_v(p.sym))) };
                        ExprV::Assign(
                            AssignOp::Assign,
                            AssignTargetV::Member(lm),
                            Box::new(math_pow_v(ExprV::Member(lm), *r)),
                        )
                    },
                    _ => ExprV::Assign(AssignOp::Assign, t, Box::new(math_pow_v(ExprV::Member(m), *r))),
                },
                _ => e,
            }
        } else {
            e
        },
        _ => e,
    }
}

/// `a ** b` becomes `Math.pow(a, b)`, its operands as the call's two
/// arguments in order, unless either operand is a BigInt literal, which
/// `Math.pow` rejects: then the expression is left as it is. Likewise
/// `x **= n` with a BigInt literal `n` is left as it is. So no call that
/// the rewrite makes gets a BigInt literal argument.
pub proof fn lemma_exponentiation_bigint(l: ExprV, r: ExprV, t: AssignTargetV)
    ensures
        ({
            let e = ExprV::Bin(BinaryOp::Exp, Box::new(l), Box::new(r));
            if (l matches ExprV::Lit(LitV::BigInt(_))) || (r matches ExprV::Lit(LitV::BigInt(_))) {
                exponentiation_v(e) == e
            } else {
                exponentiation_v(e) matches ExprV::Call(callee, args)
                    && *callee == static_member(ExprV::Ident(gen_ident("Math"@)), "pow"@)
                    && args.len() == 2
                    && args[0] == (ArgV { spread: false, expr: l })
                    && args[1] == (ArgV { spread: false, expr: r })
            }
        }),
        ({
            let e = ExprV::Assign(AssignOp::ExpAssign, t, Box::new(r));
            (r matches ExprV::Lit(LitV::BigInt(_))) ==> exponentiation_v(e) == e
        }),
        ({
            let e = ExprV::Assign(AssignOp::ExpAssign, t, Box::new(r));
            !(r matches ExprV::Lit(LitV::BigInt(_))) && (t is Ident) ==> exponentiation_v(e) == ExprV::Assign(
                AssignOp::Assign,
                t,
                Box::new(ExprV::Call(
                    Box::new(static_member(ExprV::Ident(gen_ident("Math"@)), "pow"@)),
                    seq![ArgV { spread: false, expr: ExprV::Ident(t->Ident_0) }, ArgV { spread: false, expr: r }],
                )),
            )
        }),
{
    if !(r matches ExprV::Lit(LitV::BigInt(_))) && (t is Ident) {
        let x = t->Ident_0;
        assert(plain_args(seq![ExprV::Ident(x), r]) =~= seq![ArgV { spread: false, expr: ExprV::Ident(x) }, ArgV { spread: false, expr: r }]);
    }
    let e = ExprV::Bin(BinaryOp::Exp, Box::new(l), Box::new(r));
    if !((l matches ExprV::Lit(LitV::BigInt(_))) || (r matches ExprV::Lit(LitV::BigInt(_)))) {
        let args = plain_args(seq![l, r]);
        assert(args[0] == (ArgV { spread: false, expr: l }));
        assert(args[1] == (ArgV { spread: false, expr: r }));
    }
}

/// The rewrite of `**` and `**=`.
pub struct ExponentiationOperator {}

impl ExponentiationOperator {
    pub fn new(_ctx: &TransformCtx) -> (s: Self) {
        ExponentiationOperator {}
    }

    fn is_big_int_literal(&self, expr: &Expr) -> (b: bool)
        ensures
            b == is_big_int_v(expr_v(*expr)),
    {
        match expr {
            Expr::Lit(Lit::BigInt(_)) => true,
            _ => false,
        }
    }

    /// `Math.pow(left, right)`.
    fn math_pow(left: Expr, right: Expr) -> (e: Expr)
        ensures
            expr_v(e) == math_pow_v(expr_v(left), expr_v(right)),
    {
        let callee = static_member_expr(ident_expr("Math"), "pow");
        call2(callee, left, right)
    }

    /// `left ** right` becomes `Math.pow(left, right)`.
    fn convert_binary_expression(left: Expr, right: Expr) -> (e: Expr)
        ensures
            expr_v(e) == math_pow_v(expr_v(left), expr_v(right)),
    {
        Self::math_pow(left, right)
    }

    /// `target = Math.pow(pow_left, right)`.
    fn convert_assignment(target: AssignTarget, pow_left: Expr, right: Expr) -> (e: Expr)
        ensures
            expr_v(e) == ExprV::Assign(
                AssignOp::Assign,
                assign_target_v(target),
                Box::new(math_pow_v(expr_v(pow_left), expr_v(right))),
            ),
    {
        Expr::Assign(AssignOp::Assign, target, Box::new(Self::math_pow(pow_left, right)))
    }

    /// `x **= right` becomes `x = Math.pow(x, right)`.
    fn convert_identifier_assignment(ident: Ident, right: Expr) -> (e: Expr)
        ensures
            expr_v(e) == ExprV::Assign(
                AssignOp::Assign,
                AssignTargetV::Ident(ident_v(ident)),
                Box::new(math_pow_v(ExprV::Ident(ident_v(ident)), expr_v(right))),
            ),
    {
        let pow_left = Expr::Ident(clone_ident(&ident));
        Self::convert_assignment(AssignTarget::Ident(ident), pow_left, right)
    }

    /// `obj.prop **= right` becomes `obj["prop"] = Math.pow(obj["prop"],
    /// right)`.
    fn convert_static_member_expression_assignment(obj: Box<Expr>, prop: Ident, right: Expr) -> (e: Expr)
        ensures
            ({
                let lm = MemberExprV {
                    obj: Box::new(expr_v(*obj)),
                    prop: MemberPropV::Computed(Box::new(str_v(prop.sym@))),
                };
                expr_v(e) == ExprV::Assign(
                    AssignOp::Assign,
                    AssignTargetV::Member(lm),
                    Box::new(math_pow_v(ExprV::Member(lm), expr_v(right))),
                )
            }),
    {
        let ghost objv = expr_v(*obj);
        let s1 = clone_string(&prop.sym);
        let obj2 = clone_expr(&*obj);
        let left_member = MemberExpr { obj, prop: MemberProp::Computed(Box::new(Expr::Lit(Lit::Str(s1)))) };
        let pow_left_member = MemberExpr {
            obj: Box::new(obj2),
            prop: MemberProp::Computed(Box::new(Expr::Lit(Lit::Str(prop.sym)))),
        };
        let ghost lv = MemberExprV { obj: Box::new(objv), prop: MemberPropV::Computed(Box::new(str_v(s1@))) };
        assert(member_prop_v(left_member.prop) == MemberPropV::Computed(Box::new(str_v(s1@))));
        assert(member_prop_v(pow_left_member.prop) == MemberPropV::Computed(Box::new(str_v(s1@))));
        assert(member_v(left_member) == lv);
        assert(member_v(pow_left_member) == lv);
        Self::convert_assignment(AssignTarget::Member(left_member), Expr::Member(pow_left_member), right)
    }

    /// `obj[prop] **= right` and `obj.#prop **= right` become
    /// `obj[prop] = Math.pow(obj[prop], right)` and
    /// `obj.#prop = Math.pow(obj.#prop, right)`.
    fn convert_member_expression_assignment(member: MemberExpr, right: Expr) -> (e: Expr)
        ensures
            expr_v(e) == ExprV::Assign(
                AssignOp::Assign,
                AssignTargetV::Member(member_v(member)),
                Box::new(math_pow_v(ExprV::Member(member_v(member)), expr_v(right))),
            ),
    {
        let pow_left = Expr::Member(clone_member(&member));
        Self::convert_assignment(AssignTarget::Member(member), pow_left, right)
    }

    /// Rewrites `expr` when it is `a ** b` or `x **= y` with a supported
    /// target; its children are not visited.
    pub fn enter_expr(&mut self, expr: &mut Expr)
        ensures
            expr_v(*final(expr)) == exponentiation_v(expr_v(*old(expr))),
    {
        let ghost ev = expr_v(*expr);
        let e = take_expr(expr);
        match e {
            Expr::Bin(op, l, r) => {
                if op == BinaryOp::Exp && !self.is_big_int_literal(&*l) && !self.is_big_int_literal(&*r) {
                    *expr = Self::convert_binary_expression(*l, *r);
                } else {
                    *expr = Expr::Bin(op, l, r);
                }
            },
            Expr::Assign(op, t, r) => {
                assert(ev == ExprV::Assign(op, assign_target_v(t), Box::new(expr_v(*r))));
                if op == AssignOp::ExpAssign && !self.is_big_int_literal(&*r) {
                    match t {
                        AssignTarget::Ident(i) => {
                            *expr = Self::convert_identifier_assignment(i, *r);
                        },
                        AssignTarget::Member(m) => {
                            let MemberExpr { obj, prop } = m;
                            match prop {
                                MemberProp::Ident(p) => {
                                    assert(ev == ExprV::Assign(op, AssignTargetV::Member(MemberExprV { obj: Box::new(expr_v(*obj)), prop: MemberPropV::Ident(ident_v(p)) }), Box::new(expr_v(*r))));
                                    *expr = Self::convert_static_member_expression_assignment(obj, p, *r);
                                },
                                prop => {
                                    let m = MemberExpr { obj, prop };
                                    assert(ev == ExprV::Assign(op, AssignTargetV::Member(member_v(m)), Box::new(expr_v(*r))));
                                    *expr = Self::convert_member_expression_assignment(m, *r);
                                },
                            }
                        },
                        t => {
                            *expr = Expr::Assign(op, t, r);
                        },
                    }
                } else {
                    *expr = Expr::Assign(op, t, r);
                }
            },
            e => {
                *expr = e;
            },
        }
    }
}

/// The ES2016 pass.
pub struct ES2016 {
    pub options: ES2016Options,
    pub exponentiation_operator: ExponentiationOperator,
}

impl ES2016 {
    pub fn new(options: ES2016Options, ctx: &TransformCtx) -> (s: Self)
        ensures
            s.options == options,
    {
        ES2016 { options, exponentiation_operator: ExponentiationOperator::new(ctx) }
    }

    /// Rewrites `expr` when exponentiation is transformed.
    pub fn enter_expr(&mut self, expr: &mut Expr)
        ensures
            expr_v(*final(expr)) == if old(self).options.exponentiation_operator {
                exponentiation_v(expr_v(*old(expr)))
            } else {
                expr_v(*old(expr))
            },
    {
        if self.options.exponentiation_operator {
            self.exponentiation_operator.enter_expr(expr);
        }
    }
}

} // verus!
