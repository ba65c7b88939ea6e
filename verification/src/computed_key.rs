//! Computed class keys that must be evaluated once, ahead of the class, into
//! a temporary variable.

use vstd::prelude::*;

use crate::ast::{dummy_sp, AssignOp, AssignTarget, Expr, Ident, Pat, VarDecl, VarDeclKind, VarDeclarator};
use crate::ast_build::gen_ident;
use crate::ast_clone::clone_string;
use crate::ast_view::{declarators_v, expr_v, ExprV, PatV, VarDeclaratorV};
use crate::duplicate::assign_temp_v;
use crate::var_declarations::declaration_v;

verus! {

/// Whether a computed key needs a temporary: every key except a literal
/// or a template literal without interpolations.
pub open spec fn key_needs_temp_var_v(key: ExprV) -> bool {
    match key {
        ExprV::Lit(_) => false,
        ExprV::Tpl(t) => t.exprs.len() != 0,
        _ => true,
    }
}

/// Whether the computed key `key` needs a temporary variable.
pub fn key_needs_temp_var(key: &Expr) -> (b: bool)
    ensures
        b == key_needs_temp_var_v(expr_v(*key)),
{
    match key {
        Expr::Lit(_) => false,
        Expr::Tpl(t) => {
            proof {
                crate::ast_view::lemma_exprs_v(t.exprs@);
                assert(expr_v(*key) == ExprV::Tpl(crate::ast_view::tpl_v(*t)));
                assert(crate::ast_view::tpl_v(*t).exprs == crate::ast_view::exprs_v(t.exprs@));
            }
            t.exprs.len() != 0
        },
        _ => true,
    }
}

/// `ident_name = key` and a reference to `ident_name`.
pub fn create_computed_key_temp_var(key: Box<Expr>, ident_name: String) -> (r: (Box<Expr>, Box<Expr>))
    ensures
        expr_v(*r.0) == assign_temp_v(ident_name@, expr_v(*key)),
        expr_v(*r.1) == ExprV::Ident(gen_ident(ident_name@)),
{
    let sym = clone_string(&ident_name);
    let target = AssignTarget::Ident(Ident { sym, ctxt: 0, span: dummy_sp() });
    let ghost kv = expr_v(*key);
    assert(crate::ast_view::assign_target_v(target) == crate::ast_view::AssignTargetV::Ident(gen_ident(ident_name@)));
    let assignment = Box::new(Expr::Assign(AssignOp::Assign, target, key));
    assert(expr_v(*assignment) == assign_temp_v(ident_name@, kv));
    let reference = Box::new(Expr::Ident(Ident { sym: ident_name, ctxt: 0, span: dummy_sp() }));
    (assignment, reference)
}

/// `let ident_name`.
pub fn create_computed_key_temp_var_declaration(ident_name: String) -> (d: VarDecl)
    ensures
        declaration_v(d.kind, declarators_v(d.decls@)) == declaration_v(
            VarDeclKind::Let,
            seq![VarDeclaratorV { name: PatV::Ident(gen_ident(ident_name@)), init: None }],
        ),
        d.span == crate::ast::dummy_span(),
{
    let decl = VarDeclarator { name: Pat::Ident(Ident { sym: ident_name, ctxt: 0, span: dummy_sp() }), init: None };
    let decls = vec![decl];
    proof {
        let s = decls@;
        assert(s.subrange(0, 0) =~= Seq::<VarDeclarator>::empty());
        assert(declarators_v(Seq::<VarDeclarator>::empty()) =~= Seq::<VarDeclaratorV>::empty());
        assert(declarators_v(s) =~= seq![crate::ast_view::declarator_v(s[0])]);
    }
    VarDecl { span: dummy_sp(), kind: VarDeclKind::Let, decls }
}

} // verus!
