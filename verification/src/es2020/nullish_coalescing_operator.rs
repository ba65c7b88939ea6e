//! `a ?? b` becomes `a !== null && a !== void 0 ? a : b`, with `a`
//! assigned to a temporary first unless it is `this` or an identifier.

use vstd::prelude::*;

use crate::ast::{dummy_sp, AssignOp, AssignTarget, BinaryOp, Expr, Ident, Lit, ModuleItem, Stmt, UnaryOp};
use crate::ast_build::gen_ident;
use crate::ast_clone::{clone_ident, take_expr};
use crate::ast_view::{module_items_v, stmts_v, assign_target_v, expr_v, ident_v, AssignTargetV, ExprV, LitV, PatV, VarDeclaratorV};
use crate::context::TransformCtx;
use crate::duplicate::assign_temp_v;
use crate::text::{make_uid, uid_v};
use crate::var_declarations::{declarations_into_first_block, lemma_svs_stmts_v, popped, with_declarations, DeclaratorsV, VarDeclarationsStore};

verus! {

/// `void 0`.
pub open spec fn void0_v() -> ExprV {
    ExprV::Unary(UnaryOp::Void, Box::new(ExprV::Lit(LitV::Num("0"@))))
}

/// `void 0`.
pub fn void_0() -> (e: Expr)
    ensures
        expr_v(e) == void0_v(),
{
    let zero = Expr::Lit(Lit::Num(crate::text::string_of("0")));
    assert(expr_v(zero) == ExprV::Lit(LitV::Num("0"@)));
    Expr::Unary(UnaryOp::Void, Box::new(zero))
}

/// `first !== null && second !== void 0 ? value : default`.
pub open spec fn nullish_cond_v(first: ExprV, second: ExprV, value: ExprV, default: ExprV) -> ExprV {
    ExprV::Cond(
        Box::new(
            ExprV::Bin(
                BinaryOp::LogicalAnd,
                Box::new(ExprV::Bin(BinaryOp::NotEqEq, Box::new(first), Box::new(ExprV::Lit(LitV::Null)))),
                Box::new(ExprV::Bin(BinaryOp::NotEqEq, Box::new(second), Box::new(void0_v()))),
            ),
        ),
        Box::new(value),
        Box::new(default),
    )
}

/// A `var` declarator of a temporary.
pub open spec fn temp_declarator(name: Seq<char>) -> VarDeclaratorV {
    VarDeclaratorV { name: PatV::Ident(gen_ident(name)), init: None }
}

/// The rewrite of `??`.
pub struct NullishCoalescingOperator {
    pub var_declarations: VarDeclarationsStore,
    pub uid_counter: usize,
}

impl NullishCoalescingOperator {
    pub fn new(_ctx: &TransformCtx) -> (s: Self)
        ensures
            s.uid_counter == 0,
            s.var_declarations.frames().len() == 0,
    {
        NullishCoalescingOperator { var_declarations: VarDeclarationsStore::new(), uid_counter: 0 }
    }

    /// The next name generated from `base_name`.
    fn generate_uid(&mut self, base_name: &str) -> (b: Ident)
        requires
            old(self).uid_counter < usize::MAX,
        ensures
            final(self).uid_counter == old(self).uid_counter + 1,
            final(self).var_declarations == old(self).var_declarations,
            ident_v(b) == gen_ident(uid_v(base_name@, final(self).uid_counter as nat)),
    {
        self.uid_counter = self.uid_counter + 1;
        Ident { sym: make_uid(base_name, self.uid_counter), ctxt: 0, span: dummy_sp() }
    }

    /// `first !== null && second !== void 0 ? value : default`.
    pub fn create_conditional_expression(&self, first: Expr, second: Expr, value: Expr, default: Expr) -> (e: Expr)
        ensures
            expr_v(e) == nullish_cond_v(expr_v(first), expr_v(second), expr_v(value), expr_v(default)),
    {
        let ghost (fv, sv, vv, dv) = (expr_v(first), expr_v(second), expr_v(value), expr_v(default));
        let null = Expr::Lit(Lit::Null);
        assert(expr_v(null) == ExprV::Lit(LitV::Null));
        let left = Expr::Bin(BinaryOp::NotEqEq, Box::new(first), Box::new(null));
        assert(expr_v(left) == ExprV::Bin(BinaryOp::NotEqEq, Box::new(fv), Box::new(ExprV::Lit(LitV::Null))));
        let right = Expr::Bin(BinaryOp::NotEqEq, Box::new(second), Box::new(void_0()));
        assert(expr_v(right) == ExprV::Bin(BinaryOp::NotEqEq, Box::new(sv), Box::new(void0_v())));
        let ghost lv = expr_v(left);
        let ghost rv = expr_v(right);
        let test = Expr::Bin(BinaryOp::LogicalAnd, Box::new(left), Box::new(right));
        assert(expr_v(test) == ExprV::Bin(BinaryOp::LogicalAnd, Box::new(lv), Box::new(rv)));
        let ghost tv = expr_v(test);
        let e = Expr::Cond(Box::new(test), Box::new(value), Box::new(default));
        assert(expr_v(e) == nullish_cond_v(fv, sv, vv, dv));
        e
    }

    /// What `left ?? right` becomes, and the `var` it needs.
    pub open spec fn spec_transform(self, left: ExprV, right: ExprV) -> (ExprV, usize, Seq<Option<DeclaratorsV>>) {
        match left {
            ExprV::This => (nullish_cond_v(left, left, left, right), self.uid_counter, self.var_declarations.frames()),
            ExprV::Ident(_) => (nullish_cond_v(left, left, left, right), self.uid_counter, self.var_declarations.frames()),
            _ => {
                let n = (self.uid_counter + 1) as usize;
                let name = uid_v("temp"@, n as nat);
                (
                    nullish_cond_v(assign_temp_v(name, left), ExprV::Ident(gen_ident(name)), ExprV::Ident(gen_ident(name)), right),
                    n,
                    VarDeclarationsStore::spec_add(self.var_declarations.frames(), temp_declarator(name), true),
                )
            },
        }
    }

    /// What the rewrite makes of `e`: the new expression, counter and
    /// frames; anything but `a ?? b` is left alone.
    pub open spec fn spec_rewrite(self, e: ExprV) -> (ExprV, usize, Seq<Option<DeclaratorsV>>) {
        match e {
            ExprV::Bin(op, l, r) => if op == BinaryOp::NullishCoalescing {
                self.spec_transform(*l, *r)
            } else {
                (e, self.uid_counter, self.var_declarations.frames())
            },
            _ => (e, self.uid_counter, self.var_declarations.frames()),
        }
    }

    pub fn transform_logical_expression(&mut self, left: Box<Expr>, right: Expr) -> (e: Expr)
        requires
            old(self).uid_counter < usize::MAX,
        ensures
            ({
                let t = old(self).spec_transform(expr_v(*left), expr_v(right));
                &&& expr_v(e) == t.0
                &&& final(self).uid_counter == t.1
                &&& final(self).var_declarations.frames() == t.2
            }),
    {
        match *left {
            Expr::This => {
                return self.create_conditional_expression(Expr::This, Expr::This, Expr::This, right);
            },
            Expr::Ident(ident) => {
                let a = Expr::Ident(clone_ident(&ident));
                let b = Expr::Ident(clone_ident(&ident));
                return self.create_conditional_expression(a, b, Expr::Ident(ident), right);
            },
            l => {
                let binding = self.generate_uid("temp");
                self.var_declarations.insert_var(&binding, None);
                let ghost lv = expr_v(l);
                let target = AssignTarget::Ident(clone_ident(&binding));
                assert(assign_target_v(target) == AssignTargetV::Ident(ident_v(binding)));
                let assignment = Expr::Assign(AssignOp::Assign, target, Box::new(l));
                assert(expr_v(assignment) == assign_temp_v(ident_v(binding).sym, lv));
                let r1 = Expr::Ident(clone_ident(&binding));
                let r2 = Expr::Ident(binding);
                self.create_conditional_expression(assignment, r1, r2, right)
            },
        }
    }

    /// Rewrites `expr` when it is `a ?? b`; its children are not visited.
    pub fn exit_expr(&mut self, expr: &mut Expr)
        requires
            old(self).uid_counter < usize::MAX,
        ensures
            ({
                let t = old(self).spec_rewrite(expr_v(*old(expr)));
                &&& expr_v(*final(expr)) == t.0
                &&& final(self).uid_counter == t.1
                &&& final(self).var_declarations.frames() == t.2
            }),
    {
        let is_nullish = match expr {
            Expr::Bin(op, _, _) => *op == BinaryOp::NullishCoalescing,
            _ => false,
        };
        if is_nullish {
            let e = take_expr(expr);
            match e {
                Expr::Bin(_, l, r) => {
                    *expr = self.transform_logical_expression(l, *r);
                },
                e => {
                    *expr = e;
                },
            }
        }
    }

    /// Opens the frame of the module body.
    pub fn enter_module(&mut self)
        ensures
            final(self).var_declarations.frames() == old(self).var_declarations.frames().push(None),
            final(self).uid_counter == old(self).uid_counter,
    {
        self.var_declarations.record_entering_statements();
    }

    /// Puts the pending declarations in front of the first block statement
    /// of the module body and closes the module's frame, as
    /// `declarations_into_first_block` says; without a block statement
    /// they go in front of the body.
    pub fn exit_module(&mut self, body: &mut Vec<ModuleItem>)
        ensures
            final(self).uid_counter == old(self).uid_counter,
            (module_items_v(final(body)@), final(self).var_declarations.frames()) == declarations_into_first_block(
                module_items_v(old(body)@),
                old(self).var_declarations.frames(),
            ),
    {
        self.var_declarations.insert_into_first_block(body);
    }

    /// Opens the frame of a block.
    pub fn enter_block_stmt(&mut self)
        ensures
            final(self).var_declarations.frames() == old(self).var_declarations.frames().push(None),
            final(self).uid_counter == old(self).uid_counter,
    {
        self.var_declarations.record_entering_statements();
    }

    /// Puts the pending declarations of the block's frame in front of its
    /// statements.
    pub fn exit_block_stmt(&mut self, stmts: &mut Vec<Stmt>)
        ensures
            final(self).uid_counter == old(self).uid_counter,
            final(self).var_declarations.frames() == popped(old(self).var_declarations.frames()),
            stmts_v(final(stmts)@) == with_declarations(old(self).var_declarations.frames(), stmts_v(old(stmts)@)),
    {
        let ghost s0 = stmts@;
        self.var_declarations.insert_into_statements(stmts);
        proof {
            lemma_svs_stmts_v(s0);
            lemma_svs_stmts_v(stmts@);
        }
    }
}

/// `first !== null && second !== void 0 ? value : default`, spelled out.
pub open spec fn guarded_choice(first: ExprV, second: ExprV, value: ExprV, default: ExprV) -> ExprV {
    ExprV::Cond(
        Box::new(ExprV::Bin(
            BinaryOp::LogicalAnd,
            Box::new(ExprV::Bin(BinaryOp::NotEqEq, Box::new(first), Box::new(ExprV::Lit(LitV::Null)))),
            Box::new(ExprV::Bin(
                BinaryOp::NotEqEq,
                Box::new(second),
                Box::new(ExprV::Unary(UnaryOp::Void, Box::new(ExprV::Lit(LitV::Num("0"@))))),
            )),
        )),
        Box::new(value),
        Box::new(default),
    )
}

/// `l ?? r` becomes `test ? value : r`: the alternate is `r`, and both the
/// consequent and the test read `l`'s value: `l` itself when it is a name
/// or `this`; otherwise the test stores `l` in a fresh temporary, so that
/// `l` is evaluated once, and the consequent and the second half of the
/// test read that temporary.
pub proof fn lemma_nullish_value(t: NullishCoalescingOperator, l: ExprV, r: ExprV)
    ensures
        (l is Ident) || (l is This) ==> t.spec_transform(l, r).0 == guarded_choice(l, l, l, r),
        !((l is Ident) || (l is This)) ==> exists|name: Seq<char>| t.spec_transform(l, r).0 == #[trigger] guarded_choice(
            ExprV::Assign(AssignOp::Assign, AssignTargetV::Ident(gen_ident(name)), Box::new(l)),
            ExprV::Ident(gen_ident(name)),
            ExprV::Ident(gen_ident(name)),
            r,
        ),
{
    if !((l is Ident) || (l is This)) {
        let name = uid_v("temp"@, ((t.uid_counter + 1) as usize) as nat);
        assert(t.spec_transform(l, r).0 == guarded_choice(
            ExprV::Assign(AssignOp::Assign, AssignTargetV::Ident(gen_ident(name)), Box::new(l)),
            ExprV::Ident(gen_ident(name)),
            ExprV::Ident(gen_ident(name)),
            r,
        ));
    }
}

} // verus!
