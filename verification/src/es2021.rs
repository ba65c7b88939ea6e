//! ES2021: logical assignment operators. `a &&= b` becomes
//! `a && (a = b)`, and likewise `||=` and `??=`; the object and computed key
//! of a member target are read once.

use vstd::prelude::*;

use crate::ast::{dummy_sp, AssignOp, AssignTarget, BinaryOp, Expr, Ident, MemberExpr, MemberProp, ModuleItem, Stmt};
use crate::ast_clone::{clone_ident, clone_string, take_expr};
use crate::ast_view::{assign_target_v, expr_v, ident_v, member_prop_v, member_v, module_items_v, stmts_v, AssignTargetV, ExprV, IdentV, MemberExprV, MemberPropV};
use crate::context::TransformCtx;
use crate::duplicate::{assign_temp_v, boxed_v, duplicable_v, duplicate_expression, is_duplicable};
use crate::ast_build::gen_ident;
use crate::es2020::nullish_coalescing_operator::temp_declarator;
use crate::text::{make_uid, string_of, uid_v};
use crate::var_declarations::{declarations_into_first_block, lemma_svs_stmts_v, popped, with_declarations, DeclaratorsV, VarDeclarationsStore};

verus! {

/// Which ES2021 features are transformed.
#[derive(Clone, Copy, Debug)]
pub struct ES2021Options {
    /// `&&=`, `||=` and `??=` are rewritten.
    pub logical_assignment_operators: bool,
}

impl Default for ES2021Options {
    fn default() -> (o: Self)
        ensures
            !o.logical_assignment_operators,
    {
        ES2021Options { logical_assignment_operators: false }
    }
}

/// The binary operator of a logical assignment operator.
pub open spec fn logical_op(op: AssignOp) -> Option<BinaryOp> {
    match op {
        AssignOp::AndAssign => Some(BinaryOp::LogicalAnd),
        AssignOp::OrAssign => Some(BinaryOp::LogicalOr),
        AssignOp::NullishAssign => Some(BinaryOp::NullishCoalescing),
        _ => None,
    }
}

/// The binary operator of `&&=`, `||=` or `??=`.
pub fn assign_op_to_binary_op(op: AssignOp) -> (r: Option<BinaryOp>)
    ensures
        r == logical_op(op),
{
    match op {
        AssignOp::AndAssign => Some(BinaryOp::LogicalAnd),
        AssignOp::OrAssign => Some(BinaryOp::LogicalOr),
        AssignOp::NullishAssign => Some(BinaryOp::NullishCoalescing),
        _ => None,
    }
}

/// What reading `e` once makes, with `n` names made so far and the
/// frames `frames`: the expression to evaluate first, the expression that
/// reads the value again, and the new count and frames. A value that can
/// be read twice is read twice; any other is stored in a fresh temporary
/// `_base<n+1>`, declared by a `var` in the innermost frame.
pub open spec fn dup_v(
    e: ExprV,
    base: Seq<char>,
    n: nat,
    frames: Seq<Option<DeclaratorsV>>,
) -> (ExprV, ExprV, nat, Seq<Option<DeclaratorsV>>) {
    if duplicable_v(e) {
        (e, e, n, frames)
    } else {
        let name = uid_v(base, n + 1);
        (
            assign_temp_v(name, e),
            ExprV::Ident(gen_ident(name)),
            n + 1,
            VarDeclarationsStore::spec_add(frames, temp_declarator(name), true),
        )
    }
}

/// The read and the target of a member assignment target, with the count
/// and frames after the temporaries they need: the object is read once,
/// and so is a computed key.
pub open spec fn member_parts(
    m: MemberExprV,
    n: nat,
    frames: Seq<Option<DeclaratorsV>>,
) -> (ExprV, AssignTargetV, nat, Seq<Option<DeclaratorsV>>) {
    match m.prop {
        MemberPropV::Ident(p) => {
            let o = dup_v(*m.obj, "obj"@, n, frames);
            (
                ExprV::Member(MemberExprV { obj: Box::new(o.0), prop: MemberPropV::Ident(p) }),
                AssignTargetV::Member(MemberExprV { obj: Box::new(o.1), prop: MemberPropV::Ident(p) }),
                o.2,
                o.3,
            )
        },
        MemberPropV::Computed(k) => {
            let o = dup_v(*m.obj, "obj"@, n, frames);
            let kd = dup_v(*k, "key"@, o.2, o.3);
            (
                ExprV::Member(MemberExprV { obj: Box::new(o.0), prop: MemberPropV::Computed(Box::new(kd.0)) }),
                AssignTargetV::Member(MemberExprV { obj: Box::new(o.1), prop: MemberPropV::Computed(Box::new(kd.1)) }),
                kd.2,
                kd.3,
            )
        },
        MemberPropV::PrivateName(_) => (ExprV::Invalid, AssignTargetV::Invalid, n, frames),
    }
}

/// What the rewrite makes of one expression, its children untouched, with
/// `n` names made so far and the frames `frames`: `t op= r` becomes
/// `read op (t = r)` for an identifier or member target; the result holds
/// the new count and frames.
pub open spec fn logical_assignment_v(
    e: ExprV,
    n: nat,
    frames: Seq<Option<DeclaratorsV>>,
) -> (ExprV, nat, Seq<Option<DeclaratorsV>>) {
    match e {
        ExprV::Assign(op, t, r) => match logical_op(op) {
            Some(bop) => match t {
                AssignTargetV::Ident(i) => (
                    ExprV::Bin(bop, Box::new(ExprV::Ident(i)), Box::new(ExprV::Assign(AssignOp::Assign, t, r))),
                    n,
                    frames,
                ),
                AssignTargetV::Member(m) => {
                    let parts = member_parts(m, n, frames);
                    (
                        ExprV::Bin(bop, Box::new(parts.0), Box::new(ExprV::Assign(AssignOp::Assign, parts.1, r))),
                        parts.2,
                        parts.3,
                    )
                },
                _ => (e, n, frames),
            },
            None => (e, n, frames),
        },
        _ => (e, n, frames),
    }
}

/// The two uses of a value that must be read once: either the value is
/// one that can be read twice and both uses are the value itself, or the
/// first use stores it in a fresh temporary `name` (`name = v`), the
/// second reads that temporary.
pub open spec fn read_once(v: ExprV, first: ExprV, second: ExprV) -> bool {
    ||| duplicable_v(v) && first == v && second == v
    ||| !duplicable_v(v) && exists|name: Seq<char>|
        first == ExprV::Assign(AssignOp::Assign, AssignTargetV::Ident(gen_ident(name)), Box::new(v))
            && second == ExprV::Ident(gen_ident(name))
}

/// `&&=`, `||=` and `??=` stand for `&&`, `||` and `??`, and `t op= r`
/// on a name `t` becomes `t bop (t = r)`: the name is read, and only when
/// that does not decide the result is `r` evaluated and stored in it.
/// Other assignments are left alone.
pub proof fn lemma_name_target(op: AssignOp, i: IdentV, r: ExprV, n: nat, frames: Seq<Option<DeclaratorsV>>)
    ensures
        logical_op(AssignOp::AndAssign) == Some(BinaryOp::LogicalAnd),
        logical_op(AssignOp::OrAssign) == Some(BinaryOp::LogicalOr),
        logical_op(AssignOp::NullishAssign) == Some(BinaryOp::NullishCoalescing),
        op != AssignOp::AndAssign && op != AssignOp::OrAssign && op != AssignOp::NullishAssign ==> logical_op(op) is None,
        ({
            let e = ExprV::Assign(op, AssignTargetV::Ident(i), Box::new(r));
            let res = logical_assignment_v(e, n, frames);
            match logical_op(op) {
                Some(bop) => res == (
                    ExprV::Bin(bop, Box::new(ExprV::Ident(i)), Box::new(ExprV::Assign(AssignOp::Assign, AssignTargetV::Ident(i), Box::new(r)))),
                    n,
                    frames,
                ),
                None => res == (e, n, frames),
            }
        }),
{
}

/// `res` is `read bop (target = r)` where `read` and `target` read the
/// object of `m` once, and its computed key once.
pub open spec fn member_rewritten_as(res: ExprV, bop: BinaryOp, m: MemberExprV, r: ExprV, read: MemberExprV, target: MemberExprV) -> bool {
    &&& res == ExprV::Bin(
        bop,
        Box::new(ExprV::Member(read)),
        Box::new(ExprV::Assign(AssignOp::Assign, AssignTargetV::Member(target), Box::new(r))),
    )
    &&& read_once(*m.obj, *read.obj, *target.obj)
    &&& match m.prop {
        MemberPropV::Computed(k) => read.prop is Computed && target.prop is Computed
            && read_once(*k, *read.prop->Computed_0, *target.prop->Computed_0),
        p => read.prop == p && target.prop == p,
    }
}

/// `o[k] op= r` (and `o.p op= r`) becomes `read op (target = r)`: the
/// object, and a computed key, are each evaluated once, in the read, and
/// the target uses a copy without side effects; `r` is evaluated only in
/// the assignment, after the read.
pub proof fn lemma_member_read_once(
    op: AssignOp,
    m: MemberExprV,
    r: ExprV,
    n: nat,
    frames: Seq<Option<DeclaratorsV>>,
)
    requires
        logical_op(op) is Some,
        !(m.prop is PrivateName),
    ensures
        exists|read: MemberExprV, target: MemberExprV| #[trigger] member_rewritten_as(
            logical_assignment_v(ExprV::Assign(op, AssignTargetV::Member(m), Box::new(r)), n, frames).0,
            logical_op(op)->Some_0,
            m,
            r,
            read,
            target,
        ),
{
    let parts = member_parts(m, n, frames);
    let o = dup_v(*m.obj, "obj"@, n, frames);
    if !duplicable_v(*m.obj) {
        let name = uid_v("obj"@, n + 1);
        assert(o.0 == ExprV::Assign(AssignOp::Assign, AssignTargetV::Ident(gen_ident(name)), Box::new(*m.obj)));
        assert(o.1 == ExprV::Ident(gen_ident(name)));
    }
    assert(read_once(*m.obj, o.0, o.1));
    let res = logical_assignment_v(ExprV::Assign(op, AssignTargetV::Member(m), Box::new(r)), n, frames).0;
    match m.prop {
        MemberPropV::Computed(k) => {
            let kd = dup_v(*k, "key"@, o.2, o.3);
            if !duplicable_v(*k) {
                let name = uid_v("key"@, o.2 + 1);
                assert(kd.0 == ExprV::Assign(AssignOp::Assign, AssignTargetV::Ident(gen_ident(name)), Box::new(*k)));
                assert(kd.1 == ExprV::Ident(gen_ident(name)));
            }
            assert(read_once(*k, kd.0, kd.1));
            let read = MemberExprV { obj: Box::new(o.0), prop: MemberPropV::Computed(Box::new(kd.0)) };
            let target = MemberExprV { obj: Box::new(o.1), prop: MemberPropV::Computed(Box::new(kd.1)) };
            assert(parts.0 == ExprV::Member(read) && parts.1 == AssignTargetV::Member(target));
            assert(res == ExprV::Bin(
                logical_op(op)->Some_0,
                Box::new(ExprV::Member(read)),
                Box::new(ExprV::Assign(AssignOp::Assign, AssignTargetV::Member(target), Box::new(r))),
            ));
            assert(read_once(*k, *read.prop->Computed_0, *target.prop->Computed_0));
            assert(member_rewritten_as(res, logical_op(op)->Some_0, m, r, read, target));
        },
        p => {
            let read = MemberExprV { obj: Box::new(o.0), prop: p };
            let target = MemberExprV { obj: Box::new(o.1), prop: p };
            assert(parts.0 == ExprV::Member(read) && parts.1 == AssignTargetV::Member(target));
            assert(res == ExprV::Bin(
                logical_op(op)->Some_0,
                Box::new(ExprV::Member(read)),
                Box::new(ExprV::Assign(AssignOp::Assign, AssignTargetV::Member(target), Box::new(r))),
            ));
            assert(member_rewritten_as(res, logical_op(op)->Some_0, m, r, read, target));
        },
    }
}

/// The rewrite of logical assignment operators, with the temporaries it
/// declares.
pub struct LogicalAssignmentOperators {
    pub var_declarations: VarDeclarationsStore,
    pub uid_counter: usize,
}

impl LogicalAssignmentOperators {
    pub fn new(_ctx: &TransformCtx) -> (s: Self)
        ensures
            s.uid_counter == 0,
            s.var_declarations.frames().len() == 0,
    {
        LogicalAssignmentOperators { var_declarations: VarDeclarationsStore::new(), uid_counter: 0 }
    }

    /// The value of `e` read once, as `dup_v` says.
    fn dup_once(&mut self, e: Box<Expr>, base: &str) -> (r: (Box<Expr>, Box<Expr>))
        requires
            old(self).uid_counter < usize::MAX,
        ensures
            ({
                let d = dup_v(expr_v(*e), base@, old(self).uid_counter as nat, old(self).var_declarations.frames());
                &&& (expr_v(*r.0), expr_v(*r.1)) == (d.0, d.1)
                &&& final(self).uid_counter == d.2
                &&& final(self).var_declarations.frames() == d.3
            }),
    {
        let ghost ev = expr_v(*e);
        if is_duplicable(&*e) {
            let result = duplicate_expression(e, 1, string_of(base));
            let mut dups = result.duplicates;
            assert(boxed_v(dups@)[0] == expr_v(*dups@[0]));
            let second = match dups.pop() {
                Some(x) => x,
                None => Box::new(Expr::Invalid),
            };
            (result.original, second)
        } else {
            self.uid_counter = self.uid_counter + 1;
            let name = make_uid(base, self.uid_counter);
            let temp = Ident { sym: clone_string(&name), ctxt: 0, span: dummy_sp() };
            let result = duplicate_expression(e, 1, name);
            self.var_declarations.insert_var(&temp, None);
            let mut dups = result.duplicates;
            assert(boxed_v(dups@)[0] == expr_v(*dups@[0]));
            let second = match dups.pop() {
                Some(x) => x,
                None => Box::new(Expr::Invalid),
            };
            (result.original, second)
        }
    }

    fn convert_member_expression(&mut self, member: MemberExpr) -> (r: (Box<Expr>, AssignTarget))
        requires
            old(self).uid_counter + 2 <= usize::MAX,
        ensures
            ({
                let p = member_parts(member_v(member), old(self).uid_counter as nat, old(self).var_declarations.frames());
                &&& (expr_v(*r.0), assign_target_v(r.1)) == (p.0, p.1)
                &&& final(self).uid_counter == p.2
                &&& final(self).var_declarations.frames() == p.3
            }),
    {
        let ghost mv = member_v(member);
        assert(mv == MemberExprV { obj: Box::new(expr_v(*member.obj)), prop: member_prop_v(member.prop) });
        let ghost n0 = self.uid_counter as nat;
        let ghost f0 = self.var_declarations.frames();
        let ghost parts = member_parts(mv, n0, f0);
        let MemberExpr { obj, prop } = member;
        match prop {
            MemberProp::Ident(name) => {
                let (object, object_ref) = self.dup_once(obj, "obj");
                let ghost ov = expr_v(*object);
                let ghost orv = expr_v(*object_ref);
                let name2 = clone_ident(&name);
                let ghost nv = ident_v(name);
                let left = MemberExpr { obj: object, prop: MemberProp::Ident(name2) };
                assert(member_v(left) == MemberExprV { obj: Box::new(ov), prop: MemberPropV::Ident(nv) });
                let target = MemberExpr { obj: object_ref, prop: MemberProp::Ident(name) };
                assert(member_v(target) == MemberExprV { obj: Box::new(orv), prop: MemberPropV::Ident(nv) });
                let l = Box::new(Expr::Member(left));
                let t = AssignTarget::Member(target);
                assert(assign_target_v(t) == AssignTargetV::Member(member_v(target)));
                assert((expr_v(*l), assign_target_v(t)) == (parts.0, parts.1));
                (l, t)
            },
            MemberProp::Computed(key) => {
                let (object, object_ref) = self.dup_once(obj, "obj");
                let ghost ov = expr_v(*object);
                let ghost orv = expr_v(*object_ref);
                let (k, k_ref) = self.dup_once(key, "key");
                let ghost kv = expr_v(*k);
                let ghost krv = expr_v(*k_ref);
                let left = MemberExpr { obj: object, prop: MemberProp::Computed(k) };
                assert(member_v(left) == MemberExprV { obj: Box::new(ov), prop: MemberPropV::Computed(Box::new(kv)) });
                let target = MemberExpr { obj: object_ref, prop: MemberProp::Computed(k_ref) };
                assert(member_v(target) == MemberExprV { obj: Box::new(orv), prop: MemberPropV::Computed(Box::new(krv)) });
                let l = Box::new(Expr::Member(left));
                let t = AssignTarget::Member(target);
                assert(assign_target_v(t) == AssignTargetV::Member(member_v(target)));
                assert((expr_v(*l), assign_target_v(t)) == (parts.0, parts.1));
                (l, t)
            },
            MemberProp::PrivateName(_) => {
                (Box::new(Expr::Invalid), AssignTarget::Invalid)
            },
        }
    }

    /// The read and the target of an identifier target: the identifier
    /// itself, both times.
    fn convert_identifier(ident: Ident) -> (r: (Box<Expr>, AssignTarget))
        ensures
            expr_v(*r.0) == ExprV::Ident(ident_v(ident)),
            assign_target_v(r.1) == AssignTargetV::Ident(ident_v(ident)),
    {
        (Box::new(Expr::Ident(clone_ident(&ident))), AssignTarget::Ident(ident))
    }

    /// Rewrites the logical assignment `expr`, whose operator stands for
    /// `operator`, as `logical_assignment_v` says.
    fn transform_logical_assignment(&mut self, expr: &mut Expr, operator: BinaryOp)
        requires
            old(self).uid_counter + 2 <= usize::MAX,
            match *old(expr) {
                Expr::Assign(op, _, _) => logical_op(op) == Some(operator),
                _ => false,
            },
        ensures
            (expr_v(*final(expr)), final(self).uid_counter as nat, final(self).var_declarations.frames())
                == logical_assignment_v(expr_v(*old(expr)), old(self).uid_counter as nat, old(self).var_declarations.frames()),
    {
        let ghost ev = expr_v(*expr);
        let e = take_expr(expr);
        match e {
            Expr::Assign(op, target, right) => {
                let ghost tv = assign_target_v(target);
                let ghost rv = expr_v(*right);
                assert(ev == ExprV::Assign(op, tv, Box::new(rv)));
                let (left, t, is_simple) = match target {
                    AssignTarget::Ident(ident) => {
                        let (left, t) = Self::convert_identifier(ident);
                        (left, t, true)
                    },
                    AssignTarget::Member(m) => {
                        assert(tv == AssignTargetV::Member(member_v(m)));
                        let (left, t) = self.convert_member_expression(m);
                        (left, t, true)
                    },
                    t => {
                        assert(!(tv is Ident) && !(tv is Member));
                        (Box::new(Expr::Invalid), t, false)
                    },
                };
                if is_simple {
                    let ghost lv = expr_v(*left);
                    let ghost ttv = assign_target_v(t);
                    let assign = Expr::Assign(AssignOp::Assign, t, right);
                    assert(expr_v(assign) == ExprV::Assign(AssignOp::Assign, ttv, Box::new(rv)));
                    *expr = Expr::Bin(operator, left, Box::new(assign));
                    assert(expr_v(*expr) == ExprV::Bin(operator, Box::new(lv), Box::new(ExprV::Assign(AssignOp::Assign, ttv, Box::new(rv)))));
                } else {
                    *expr = Expr::Assign(op, t, right);
                }
            },
            e => {
                *expr = e;
            },
        }
    }

    /// Rewrites `expr` when it is a logical assignment to an identifier or
    /// member, as `logical_assignment_v` says; its children are not visited.
    pub fn enter_expr(&mut self, expr: &mut Expr)
        requires
            old(self).uid_counter + 2 <= usize::MAX,
        ensures
            (expr_v(*final(expr)), final(self).uid_counter as nat, final(self).var_declarations.frames())
                == logical_assignment_v(expr_v(*old(expr)), old(self).uid_counter as nat, old(self).var_declarations.frames()),
    {
        let operator = match expr {
            Expr::Assign(op, _, _) => assign_op_to_binary_op(*op),
            _ => None,
        };
        match operator {
            Some(bop) => self.transform_logical_assignment(expr, bop),
            None => {},
        }
    }

    /// Opens the frame of the module body.
    pub fn enter_module(&mut self)
        ensures
            final(self).var_declarations.frames() == old(self).var_declarations.frames().push(None),
            final(self).uid_counter == old(self).uid_counter,
    {
        self.var_declarations.record_entering_statements();
    }

    /// Puts the pending declarations in front of the first block statement
    /// of the module body and closes the module's frame, as
    /// `declarations_into_first_block` says.
    pub fn exit_module(&mut self, body: &mut Vec<ModuleItem>)
        ensures
            final(self).uid_counter == old(self).uid_counter,
            (module_items_v(final(body)@), final(self).var_declarations.frames()) == declarations_into_first_block(
                module_items_v(old(body)@),
                old(self).var_declarations.frames(),
            ),
    {
        self.var_declarations.insert_into_first_block(body);
    }

    /// Opens the frame of a block.
    pub fn enter_block_stmt(&mut self)
        ensures
            final(self).var_declarations.frames() == old(self).var_declarations.frames().push(None),
            final(self).uid_counter == old(self).uid_counter,
    {
        self.var_declarations.record_entering_statements();
    }

    /// Puts the pending declarations of the block's frame in front of its
    /// statements and closes the frame.
    pub fn exit_block_stmt(&mut self, stmts: &mut Vec<Stmt>)
        ensures
            final(self).uid_counter == old(self).uid_counter,
            final(self).var_declarations.frames() == popped(old(self).var_declarations.frames()),
            stmts_v(final(stmts)@) == with_declarations(old(self).var_declarations.frames(), stmts_v(old(stmts)@)),
    {
        let ghost s0 = stmts@;
        self.var_declarations.insert_into_statements(stmts);
        proof {
            lemma_svs_stmts_v(s0);
            lemma_svs_stmts_v(stmts@);
        }
    }
}

/// The ES2021 pass.
pub struct ES2021 {
    pub options: ES2021Options,
    pub logical_assignment_operators: LogicalAssignmentOperators,
}

impl ES2021 {
    pub fn new(options: ES2021Options, ctx: &TransformCtx) -> (s: Self)
        ensures
            s.options == options,
            s.logical_assignment_operators.uid_counter == 0,
            s.logical_assignment_operators.var_declarations.frames().len() == 0,
    {
        ES2021 { options, logical_assignment_operators: LogicalAssignmentOperators::new(ctx) }
    }

    /// Rewrites a logical assignment, when enabled.
    pub fn enter_expr(&mut self, expr: &mut Expr)
        requires
            old(self).logical_assignment_operators.uid_counter + 2 <= usize::MAX,
        ensures
            final(self).options == old(self).options,
            !old(self).options.logical_assignment_operators ==> *final(expr) == *old(expr)
                && final(self).logical_assignment_operators == old(self).logical_assignment_operators,
            old(self).options.logical_assignment_operators ==> (
                expr_v(*final(expr)),
                final(self).logical_assignment_operators.uid_counter as nat,
                final(self).logical_assignment_operators.var_declarations.frames(),
            ) == logical_assignment_v(
                expr_v(*old(expr)),
                old(self).logical_assignment_operators.uid_counter as nat,
                old(self).logical_assignment_operators.var_declarations.frames(),
            ),
    {
        if self.options.logical_assignment_operators {
            self.logical_assignment_operators.enter_expr(expr);
        }
    }
}

} // verus!
