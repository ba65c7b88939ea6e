//! The class properties transform: its options and how it is set up.

use vstd::prelude::*;

use crate::ast::{dummy_sp, Decl, Expr, Ident, Pat, Stmt, VarDecl, VarDeclKind, VarDeclarator};
use crate::ast_clone::clone_ident;
use crate::ast_view::{declarator_v, declarators_v, expr_v, ident_v, lemma_declarators_v_push, stmt_v, stmts_v, DeclV, ExprV, IdentV, PatV, StmtV, VarDeclV, VarDeclaratorV};
use crate::context::TransformCtx;

verus! {

/// Options of the class properties transform.
#[derive(Clone, Copy, Debug)]
pub struct ClassPropertiesOptions {
    /// Set fields with `=` and keep private fields as ordinary properties.
    pub loose: bool,
}

impl Default for ClassPropertiesOptions {
    fn default() -> (o: Self)
        ensures
            !o.loose,
    {
        ClassPropertiesOptions { loose: false }
    }
}

/// The class properties transform.
pub struct ClassProperties {
    /// Fields are set with `=` rather than a `defineProperty` helper.
    pub set_public_class_fields: bool,
    /// Private fields are stored as properties with string keys.
    pub private_fields_as_properties: bool,
    /// Static blocks are transformed.
    pub transform_static_blocks: bool,
    /// Fields without an initializer are removed.
    pub remove_class_fields_without_initializer: bool,
}

impl ClassProperties {
    pub fn new(
        options: ClassPropertiesOptions,
        transform_static_blocks: bool,
        remove_class_fields_without_initializer: bool,
        ctx: &TransformCtx,
    ) -> (c: Self)
        ensures
            c.set_public_class_fields == (options.loose || ctx.assumptions.set_public_class_fields),
            c.private_fields_as_properties == (options.loose || ctx.assumptions.private_fields_as_properties),
            c.transform_static_blocks == transform_static_blocks,
            c.remove_class_fields_without_initializer == remove_class_fields_without_initializer,
    {
        ClassProperties {
            set_public_class_fields: options.loose || ctx.assumptions.set_public_class_fields,
            private_fields_as_properties: options.loose || ctx.assumptions.private_fields_as_properties,
            transform_static_blocks,
            remove_class_fields_without_initializer,
        }
    }
}

/// `var ident = init;`
pub open spec fn variable_declaration_v(ident: IdentV, init: ExprV) -> StmtV {
    StmtV::Decl(
        DeclV::Var(
            VarDeclV {
                span: crate::ast::dummy_span(),
                kind: VarDeclKind::Var,
                decls: seq![VarDeclaratorV { name: PatV::Ident(ident), init: Some(Box::new(init)) }],
            },
        ),
    )
}

/// `var ident = init;`
pub fn create_variable_declaration(ident: &Ident, init: Box<Expr>) -> (s: Stmt)
    ensures
        stmt_v(s) == variable_declaration_v(ident_v(*ident), expr_v(*init)),
{
    let declarator = VarDeclarator { name: Pat::Ident(clone_ident(ident)), init: Some(init) };
    let mut decls: Vec<VarDeclarator> = Vec::new();
    proof {
        lemma_declarators_v_push(decls@, declarator);
    }
    decls.push(declarator);
    assert(declarators_v(decls@) =~= seq![declarator_v(declarator)]);
    Stmt::Decl(Decl::Var(VarDecl { span: dummy_sp(), kind: VarDeclKind::Var, decls }))
}

/// Each expression as an expression statement, in order.
pub fn exprs_into_stmts(exprs: Vec<Box<Expr>>) -> (stmts: Vec<Stmt>)
    ensures
        stmts_v(stmts@).len() == exprs.len(),
        forall|i: int| 0 <= i < exprs.len() ==> #[trigger] stmts_v(stmts@)[i] == StmtV::Expr(
            crate::ast::dummy_span(),
            Box::new(expr_v(*exprs[i])),
        ),
{
    let ghost orig = exprs@;
    let mut stmts: Vec<Stmt> = Vec::new();
    let mut rest = exprs;
    proof {
        crate::ast_view::lemma_stmts_v(stmts@);
    }
    while rest.len() > 0
        invariant
            rest@ == orig.subrange(0, rest.len() as int),
            rest.len() + stmts.len() == orig.len(),
            stmts_v(stmts@).len() == stmts.len(),
            forall|i: int| 0 <= i < stmts.len() ==> #[trigger] stmts_v(stmts@)[i] == StmtV::Expr(
                crate::ast::dummy_span(),
                Box::new(expr_v(*orig[rest.len() + i])),
            ),
        decreases rest.len(),
    {
        let e = rest.pop().unwrap();
        let s = Stmt::Expr(dummy_sp(), e);
        let ghost old_stmts = stmts@;
        stmts.insert(0, s);
        proof {
            crate::ast_view::lemma_stmts_v(old_stmts);
            crate::ast_view::lemma_stmts_v(stmts@);
            assert forall|i: int| 0 <= i < stmts.len() implies #[trigger] stmts_v(stmts@)[i] == StmtV::Expr(
                crate::ast::dummy_span(),
                Box::new(expr_v(*orig[rest.len() + i])),
            ) by {
                if i > 0 {
                    assert(stmts@[i] == old_stmts[i - 1]);
                    assert(stmts_v(old_stmts)[i - 1] == stmt_v(old_stmts[i - 1]));
                }
            }
        }
    }
    stmts
}

} // verus!
