//! Using an expression's value more than once: either the expression is
//! copied, when reading it cannot have effects, or it is assigned to a
//! temporary variable once and the variable is read after.

use vstd::prelude::*;

use crate::ast::{dummy_sp, AssignOp, AssignTarget, Expr, Ident, Lit, Pat, VarDecl, VarDeclKind, VarDeclarator};
use crate::ast_build::gen_ident;
use crate::ast_clone::{clone_expr, clone_string};
use crate::ast_view::{assign_target_v, declarators_v, expr_v, AssignTargetV, ExprV, PatV, VarDeclaratorV};
use crate::var_declarations::declaration_v;

verus! {

/// Whether reading `e` twice is the same as reading it once: `this`, a
/// `super` property, a literal, or a template literal without
/// interpolations.
pub open spec fn duplicable_v(e: ExprV) -> bool {
    match e {
        ExprV::This => true,
        ExprV::SuperProp(_) => true,
        ExprV::Lit(_) => true,
        ExprV::Tpl(t) => t.exprs.len() == 0,
        _ => false,
    }
}

/// `name = e`.
pub open spec fn assign_temp_v(name: Seq<char>, e: ExprV) -> ExprV {
    ExprV::Assign(AssignOp::Assign, AssignTargetV::Ident(gen_ident(name)), Box::new(e))
}

/// An expression to evaluate first, and further expressions that stand
/// for its value.
pub struct DuplicateExprResult {
    pub original: Box<Expr>,
    pub duplicates: Vec<Box<Expr>>,
}

/// The views of boxed expressions.
pub open spec fn boxed_v(s: Seq<Box<Expr>>) -> Seq<ExprV> {
    s.map_values(|b: Box<Expr>| expr_v(*b))
}

pub fn is_duplicable(expr: &Expr) -> (b: bool)
    ensures
        b == duplicable_v(expr_v(*expr)),
{
    match expr {
        Expr::This => true,
        Expr::SuperProp(_) => true,
        Expr::Lit(_) => true,
        Expr::Tpl(t) => {
            proof {
                crate::ast_view::lemma_exprs_v(t.exprs@);
                assert(expr_v(*expr) == ExprV::Tpl(crate::ast_view::tpl_v(*t)));
                assert(crate::ast_view::tpl_v(*t).exprs == crate::ast_view::exprs_v(t.exprs@));
            }
            t.exprs.len() == 0
        },
        _ => false,
    }
}

/// `expr` and `count` expressions with its value: copies of `expr` when
/// reading it has no effect, else `temp_var_name = expr` and `count`
/// references to `temp_var_name`.
pub fn duplicate_expression(expr: Box<Expr>, count: usize, temp_var_name: String) -> (r: DuplicateExprResult)
    ensures
        r.duplicates.len() == count,
        duplicable_v(expr_v(*expr)) ==> {
            &&& expr_v(*r.original) == expr_v(*expr)
            &&& forall|i: int| 0 <= i < count ==> #[trigger] boxed_v(r.duplicates@)[i] == expr_v(*expr)
        },
        !duplicable_v(expr_v(*expr)) ==> {
            &&& expr_v(*r.original) == assign_temp_v(temp_var_name@, expr_v(*expr))
            &&& forall|i: int| 0 <= i < count ==> #[trigger] boxed_v(r.duplicates@)[i] == ExprV::Ident(gen_ident(temp_var_name@))
        },
{
    if is_duplicable(&*expr) {
        let mut duplicates: Vec<Box<Expr>> = Vec::new();
        let mut i: usize = 0;
        while i < count
            invariant
                i <= count,
                duplicates.len() == i,
                forall|k: int| 0 <= k < i ==> #[trigger] boxed_v(duplicates@)[k] == expr_v(*expr),
            decreases count - i,
        {
            let ghost prev = duplicates@;
            duplicates.push(Box::new(clone_expr(&*expr)));
            proof {
                assert forall|k: int| 0 <= k < i + 1 implies #[trigger] boxed_v(duplicates@)[k] == expr_v(*expr) by {
                    if k < i {
                        assert(duplicates@[k] == prev[k]);
                        assert(boxed_v(prev)[k] == expr_v(*expr));
                    }
                }
            }
            i += 1;
        }
        DuplicateExprResult { original: expr, duplicates }
    } else {
        create_temp_var_for_expr(expr, count, temp_var_name)
    }
}

/// `temp_var_name = expr` and `count` references to `temp_var_name`.
fn create_temp_var_for_expr(expr: Box<Expr>, count: usize, temp_var_name: String) -> (r: DuplicateExprResult)
    ensures
        r.duplicates.len() == count,
        expr_v(*r.original) == assign_temp_v(temp_var_name@, expr_v(*expr)),
        forall|i: int| 0 <= i < count ==> #[trigger] boxed_v(r.duplicates@)[i] == ExprV::Ident(gen_ident(temp_var_name@)),
{
    let mut duplicates: Vec<Box<Expr>> = Vec::new();
    let mut i: usize = 0;
    while i < count
        invariant
            i <= count,
            duplicates.len() == i,
            forall|k: int| 0 <= k < i ==> #[trigger] boxed_v(duplicates@)[k] == ExprV::Ident(gen_ident(temp_var_name@)),
        decreases count - i,
    {
        let sym = clone_string(&temp_var_name);
        let ghost prev = duplicates@;
        duplicates.push(Box::new(Expr::Ident(Ident { sym, ctxt: 0, span: dummy_sp() })));
        proof {
            assert forall|k: int| 0 <= k < i + 1 implies #[trigger] boxed_v(duplicates@)[k] == ExprV::Ident(gen_ident(temp_var_name@)) by {
                if k < i {
                    assert(duplicates@[k] == prev[k]);
                    assert(boxed_v(prev)[k] == ExprV::Ident(gen_ident(temp_var_name@)));
                }
            }
        }
        i += 1;
    }
    let target = AssignTarget::Ident(Ident { sym: temp_var_name, ctxt: 0, span: dummy_sp() });
    let ghost ev = expr_v(*expr);
    assert(assign_target_v(target) == AssignTargetV::Ident(gen_ident(temp_var_name@)));
    let assignment = Expr::Assign(AssignOp::Assign, target, expr);
    assert(expr_v(assignment) == assign_temp_v(temp_var_name@, ev));
    DuplicateExprResult { original: Box::new(assignment), duplicates }
}

/// `var name = init`.
pub fn create_temp_var_declaration(temp_var_name: String, init: Option<Box<Expr>>) -> (d: VarDecl)
    ensures
        declaration_v(d.kind, declarators_v(d.decls@)) == declaration_v(
            VarDeclKind::Var,
            seq![VarDeclaratorV {
                name: PatV::Ident(gen_ident(temp_var_name@)),
                init: match init { Some(e) => Some(Box::new(expr_v(*e))), None => None },
            }],
        ),
        d.span == crate::ast::dummy_span(),
{
    let decl = VarDeclarator { name: Pat::Ident(Ident { sym: temp_var_name, ctxt: 0, span: dummy_sp() }), init };
    let decls = vec![decl];
    proof {
        let s = decls@;
        assert(s.subrange(0, 0) =~= Seq::<VarDeclarator>::empty());
        assert(declarators_v(Seq::<VarDeclarator>::empty()) =~= Seq::<VarDeclaratorV>::empty());
        assert(declarators_v(s) =~= seq![crate::ast_view::declarator_v(s[0])]);
    }
    VarDecl { span: dummy_sp(), kind: VarDeclKind::Var, decls }
}

/// Whether `expr` is `this`, a literal, or a template literal without
/// interpolations.
pub fn can_duplicate_without_side_effects(expr: &Expr) -> (b: bool)
    ensures
        b == match expr_v(*expr) {
            ExprV::This => true,
            ExprV::Lit(_) => true,
            ExprV::Tpl(t) => t.exprs.len() == 0,
            _ => false,
        },
{
    match expr {
        Expr::This => true,
        Expr::Lit(_) => true,
        Expr::Tpl(t) => {
            proof {
                crate::ast_view::lemma_exprs_v(t.exprs@);
                assert(expr_v(*expr) == ExprV::Tpl(crate::ast_view::tpl_v(*t)));
                assert(crate::ast_view::tpl_v(*t).exprs == crate::ast_view::exprs_v(t.exprs@));
            }
            t.exprs.len() == 0
        },
        _ => false,
    }
}

} // verus!
