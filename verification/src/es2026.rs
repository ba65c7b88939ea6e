//! ES2026: explicit resource management. `using` and `await using`
//! declarations become `const` declarations registered with a
//! `babelHelpers.usingCtx()` context, and the scope that holds them is
//! wrapped in `try { .. } catch (_) { ctx.e = _ } finally { ctx.d() }`.

use vstd::prelude::*;

use crate::ast::{
    dummy_sp, dummy_span, Span, AssignOp, ModuleDecl, ModuleItem, AssignTarget, CatchClause, Decl, Expr, ForHead, ForOfStmt,
    Ident, MemberExpr, MemberProp, Pat, Stmt, SwitchCase, UsingDecl, VarDecl, VarDeclKind,
    VarDeclarator,
};
use crate::ast_build::{
    call_v, gen_ident, ident, ident_expr, make_numbered_name,
    make_private_ident, numbered_ident, private_ident, static_member, static_member_expr,
};
use crate::ast_clone::clone_ident;
use crate::ast_view::{
    cases_v, declarator_v, declarators_v, expr_v, for_of_v, ident_v, lemma_cases_v, switch_case_v,
    ForHeadV, ForOfStmtV, SwitchCaseV, module_item_v, module_items_v, ModuleDeclV,
    ModuleItemV, lemma_declarators_v, lemma_declarators_v_push,
    lemma_stmts_v, lemma_stmts_v_push, pat_v, stmt_v, stmts_v, AssignTargetV, CatchClauseV, DeclV,
    ExprV, IdentV, MemberExprV, MemberPropV, PatV, StmtV, UsingDeclV, VarDeclV, VarDeclaratorV,
};
use crate::context::TransformCtx;

verus! {

// ---------------------------------------------------------------------------
// Specification.

/// `babelHelpers.usingCtx()`.
pub open spec fn using_ctx_call() -> ExprV {
    call_v(static_member(ExprV::Ident(gen_ident("babelHelpers"@)), "usingCtx"@), Seq::empty())
}

/// `var ctx = babelHelpers.usingCtx();`
pub open spec fn using_ctx_decl(ctx: IdentV) -> StmtV {
    StmtV::Decl(
        DeclV::Var(
            VarDeclV {
                span: dummy_span(),
                kind: VarDeclKind::Var,
                decls: seq![VarDeclaratorV { name: PatV::Ident(ctx), init: Some(Box::new(using_ctx_call())) }],
            },
        ),
    )
}

/// `catch (err) { ctx.e = err; }`
pub open spec fn using_catch(ctx: IdentV, err: IdentV) -> CatchClauseV {
    CatchClauseV {
        param: Some(PatV::Ident(err)),
        body: seq![
            StmtV::Expr(
                dummy_span(),
                Box::new(
                    ExprV::Assign(
                        AssignOp::Assign,
                        AssignTargetV::Member(
                            MemberExprV {
                                obj: Box::new(ExprV::Ident(ctx)),
                                prop: MemberPropV::Ident(gen_ident("e"@)),
                            },
                        ),
                        Box::new(ExprV::Ident(err)),
                    ),
                ),
            )
        ],
    }
}

/// `finally { ctx.d(); }`, or `finally { await ctx.d(); }` when the
/// disposal is awaited.
pub open spec fn using_finally(ctx: IdentV, needs_await: bool) -> Seq<StmtV> {
    let call = call_v(static_member(ExprV::Ident(ctx), "d"@), Seq::empty());
    seq![StmtV::Expr(dummy_span(), Box::new(if needs_await { ExprV::Await(Box::new(call)) } else { call }))]
}

/// `try { body } catch (err) { ctx.e = err; } finally { ctx.d(); }`, where
/// `err` is a private binding named `_` with the context `err_ctxt`.
pub open spec fn using_try(body: Seq<StmtV>, ctx: IdentV, err_ctxt: u32, needs_await: bool) -> StmtV {
    StmtV::Try(
        dummy_span(),
        body,
        Some(using_catch(ctx, private_ident("_"@, err_ctxt))),
        Some(using_finally(ctx, needs_await)),
    )
}

/// One declarator of `using` made a `const` one: its initializer `init`
/// becomes `ctx.u(init)`, or `ctx.a(init)` for `await using`.
#[verifier::opaque]
pub open spec fn registered(d: VarDeclaratorV, ctx: IdentV, is_await: bool) -> VarDeclaratorV {
    VarDeclaratorV {
        name: d.name,
        init: match d.init {
            Some(e) => Some(
                Box::new(
                    call_v(
                        static_member(ExprV::Ident(ctx), if is_await { "a"@ } else { "u"@ }),
                        seq![*e],
                    ),
                ),
            ),
            None => None,
        },
    }
}

/// Each of `ds` registered with `ctx`.
#[verifier::opaque]
pub open spec fn registered_all(ds: Seq<VarDeclaratorV>, ctx: IdentV, is_await: bool) -> Seq<VarDeclaratorV>
    decreases ds.len(),
{
    if ds.len() == 0 {
        Seq::empty()
    } else {
        registered_all(ds.drop_last(), ctx, is_await).push(registered(ds.last(), ctx, is_await))
    }
}

/// A `using` declaration made a `const` one registered with `ctx`.
pub open spec fn const_of_using(u: UsingDeclV, ctx: IdentV) -> VarDeclV {
    VarDeclV { span: u.span, kind: VarDeclKind::Const, decls: registered_all(u.decls, ctx, u.is_await) }
}

/// Whether a statement is a `using` declaration.
pub open spec fn is_using(s: StmtV) -> bool {
    s is Decl && s->Decl_0 is Using
}

/// Whether a statement is an `await using` declaration.
pub open spec fn is_await_using(s: StmtV) -> bool {
    is_using(s) && s->Decl_0->Using_0.is_await
}

/// A statement with its `using` declaration, if it is one, registered with
/// `ctx`.
pub open spec fn rewrite_using(s: StmtV, ctx: IdentV) -> StmtV {
    if is_using(s) {
        StmtV::Decl(DeclV::Var(const_of_using(s->Decl_0->Using_0, ctx)))
    } else {
        s
    }
}

pub open spec fn has_using(stmts: Seq<StmtV>) -> bool {
    exists|i: int| 0 <= i < stmts.len() && #[trigger] is_using(stmts[i])
}

pub open spec fn has_await_using(stmts: Seq<StmtV>) -> bool {
    exists|i: int| 0 <= i < stmts.len() && #[trigger] is_await_using(stmts[i])
}

pub open spec fn rewrite_usings(stmts: Seq<StmtV>, ctx: IdentV) -> Seq<StmtV> {
    stmts.map_values(|s: StmtV| rewrite_using(s, ctx))
}

/// The `n`-th generated binding of the pass: `_usingCtx` followed by `n`.
pub open spec fn using_ctx_ident(n: nat, c: u32) -> IdentV {
    numbered_ident("usingCtx"@, n, c)
}

/// The statements of a scope with `using` declarations, put under the
/// context `ctx`: its creation first, then the statements with each `using`
/// registered.
pub open spec fn using_body(stmts: Seq<StmtV>, ctx: IdentV) -> Seq<StmtV> {
    seq![using_ctx_decl(ctx)] + rewrite_usings(stmts, ctx)
}

/// A scope with `using` declarations wrapped in the `try` statement that
/// disposes of them.
pub open spec fn wrapped_scope(stmts: Seq<StmtV>, ctx: IdentV, err_ctxt: u32) -> StmtV {
    using_try(using_body(stmts, ctx), ctx, err_ctxt, has_await_using(stmts))
}

/// A `case` with its `using` declarations registered with `ctx`.
pub open spec fn rewrite_case(c: SwitchCaseV, ctx: IdentV) -> SwitchCaseV {
    SwitchCaseV { test: c.test, cons: rewrite_usings(c.cons, ctx) }
}

pub open spec fn rewrite_cases(cases: Seq<SwitchCaseV>, ctx: IdentV) -> Seq<SwitchCaseV> {
    cases.map_values(|c: SwitchCaseV| rewrite_case(c, ctx))
}

/// Whether some `case` holds a `using` declaration among its statements.
pub open spec fn cases_have_using(cases: Seq<SwitchCaseV>) -> bool {
    exists|k: int| 0 <= k < cases.len() && has_using(#[trigger] cases[k].cons)
}

pub open spec fn cases_have_await_using(cases: Seq<SwitchCaseV>) -> bool {
    exists|k: int| 0 <= k < cases.len() && has_await_using(#[trigger] cases[k].cons)
}

/// A `switch` with `using` declarations in its cases, wrapped: the context
/// is made before the `switch`, and the whole is disposed of by the `try`.
pub open spec fn wrapped_switch(sp: Span, d: ExprV, cases: Seq<SwitchCaseV>, ctx: IdentV, err_ctxt: u32) -> StmtV {
    using_try(
        seq![using_ctx_decl(ctx), StmtV::Switch(sp, Box::new(d), rewrite_cases(cases, ctx))],
        ctx,
        err_ctxt,
        cases_have_await_using(cases),
    )
}

/// `after` is the scope `before` wrapped under the `n`-th generated
/// context, marked `c`, with the caught error marked `e`.
pub open spec fn wrapped_as(before: Seq<StmtV>, n: nat, after: StmtV, c: u32, e: u32) -> bool {
    after == wrapped_scope(before, using_ctx_ident(n, c), e)
}

/// What the pass makes of the statements of a scope, with its counter of
/// generated names going from `n0` to `n1`: a scope with `using`
/// declarations becomes the one `try` statement that wraps it; another is
/// left as it is.
pub open spec fn scope_rewritten(n0: nat, before: Seq<StmtV>, n1: nat, after: Seq<StmtV>, c: u32, e: u32) -> bool {
    if has_using(before) {
        n1 == n0 + 1 && after.len() == 1 && wrapped_as(before, n1, after[0], c, e)
    } else {
        n1 == n0 && after == before
    }
}

/// Whether `enter_stmt` changes a statement: a block with `using`
/// declarations, or a `switch` with some in its cases.
pub open spec fn stmt_has_using(s: StmtV) -> bool {
    match s {
        StmtV::Block(_, b) => has_using(b),
        StmtV::Switch(_, _, cases) => cases_have_using(cases),
        _ => false,
    }
}

/// What `enter_stmt` makes of a statement it changes, the counter going
/// to `n`.
pub open spec fn stmt_wrapped(before: StmtV, n: nat, after: StmtV, c: u32, e: u32) -> bool {
    match before {
        StmtV::Block(_, b) => wrapped_as(b, n, after, c, e),
        StmtV::Switch(sp, d, cases) => after == wrapped_switch(sp, *d, cases, using_ctx_ident(n, c), e),
        _ => false,
    }
}

/// The binding a `for (using x of y)` loop gets in place of `x`: named
/// after `x` when it is an identifier, after `x` otherwise.
pub open spec fn for_of_temp(name: PatV, n: nat, c: u32) -> IdentV {
    if name is Ident {
        numbered_ident(name->Ident_0.sym, n, c)
    } else {
        numbered_ident("x"@, n, c)
    }
}

/// `using x = temp;`, or `await using x = temp;`.
pub open spec fn for_of_using_stmt(name: PatV, is_await: bool, temp: IdentV) -> StmtV {
    StmtV::Decl(
        DeclV::Using(
            UsingDeclV {
                span: dummy_span(),
                is_await,
                decls: seq![VarDeclaratorV { name, init: Some(Box::new(ExprV::Ident(temp))) }],
            },
        ),
    )
}

/// Whether `enter_for_of_stmt` changes a loop: its head is a `using`
/// declaration with a declarator.
pub open spec fn for_of_has_using(f: ForOfStmtV) -> bool {
    f.left is UsingDecl && f.left->UsingDecl_0.decls.len() > 0
}

/// `for (using x of y) body` becomes `for (const temp of y) { using x =
/// temp; body }`, where `temp` is the `n`-th generated binding, under the
/// private mark `c`; a block body gets the declaration in front.
pub open spec fn for_of_rewritten(f: ForOfStmtV, n: nat, c: u32) -> ForOfStmtV {
    let u = f.left->UsingDecl_0;
    let name = u.decls[0].name;
    let temp = for_of_temp(name, n, c);
    let first = for_of_using_stmt(name, u.is_await, temp);
    ForOfStmtV {
        span: f.span,
        is_await: f.is_await,
        left: ForHeadV::VarDecl(
            VarDeclV {
                span: dummy_span(),
                kind: VarDeclKind::Const,
                decls: seq![VarDeclaratorV { name: PatV::Ident(temp), init: None }],
            },
        ),
        right: f.right,
        body: Box::new(
            match *f.body {
                StmtV::Block(sp, b) => StmtV::Block(sp, seq![first] + b),
                other => StmtV::Block(dummy_span(), seq![first, other]),
            },
        ),
    }
}

/// Whether a module item is a `using` declaration, exported or not.
pub open spec fn item_has_using(item: ModuleItemV) -> bool {
    match item {
        ModuleItemV::Stmt(s) => is_using(s),
        ModuleItemV::ModuleDecl(ModuleDeclV::ExportDecl(d)) => d is Using,
        _ => false,
    }
}

pub open spec fn items_have_using(items: Seq<ModuleItemV>) -> bool {
    exists|k: int| 0 <= k < items.len() && #[trigger] item_has_using(items[k])
}

/// What of a module item stays at the top level when the module's
/// statements are moved into a block: imports, function declarations, and
/// every module declaration, exports included, but an exported `using`
/// declaration.
pub open spec fn kept_at_top(item: ModuleItemV) -> Seq<ModuleItemV> {
    match item {
        ModuleItemV::Stmt(s) => if s is Decl && s->Decl_0 is Fn { seq![item] } else { Seq::empty() },
        ModuleItemV::ModuleDecl(d) => match d {
            ModuleDeclV::ExportDecl(decl) => if decl is Using { Seq::empty() } else { seq![item] },
            _ => seq![item],
        },
    }
}

/// What of a module item goes into the block: statements other than
/// function declarations, and an exported `using` declaration without its
/// `export`, which cannot stay exported once its value is disposed of.
pub open spec fn moved_inside(item: ModuleItemV) -> Seq<StmtV> {
    match item {
        ModuleItemV::Stmt(s) => if s is Decl && s->Decl_0 is Fn { Seq::empty() } else { seq![s] },
        ModuleItemV::ModuleDecl(d) => match d {
            ModuleDeclV::ExportDecl(decl) => if decl is Using { seq![StmtV::Decl(decl)] } else { Seq::empty() },
            _ => Seq::empty(),
        },
    }
}

pub open spec fn kept_items(items: Seq<ModuleItemV>) -> Seq<ModuleItemV>
    decreases items.len(),
{
    if items.len() == 0 {
        Seq::empty()
    } else {
        kept_items(items.drop_last()) + kept_at_top(items.last())
    }
}

pub open spec fn moved_stmts(items: Seq<ModuleItemV>) -> Seq<StmtV>
    decreases items.len(),
{
    if items.len() == 0 {
        Seq::empty()
    } else {
        moved_stmts(items.drop_last()) + moved_inside(items.last())
    }
}

/// A module with top-level `using` declarations: what stays at the top
/// level, in order, then a block with the rest, when there is any. Another
/// module is left as it is.
pub open spec fn program_rewritten(items: Seq<ModuleItemV>) -> Seq<ModuleItemV> {
    if !items_have_using(items) {
        items
    } else if moved_stmts(items).len() == 0 {
        kept_items(items)
    } else {
        kept_items(items).push(ModuleItemV::Stmt(StmtV::Block(dummy_span(), moved_stmts(items))))
    }
}

/// The module declarations of a module body, in order: its imports and
/// exports.
pub open spec fn module_decls(items: Seq<ModuleItemV>) -> Seq<ModuleDeclV>
    decreases items.len(),
{
    if items.len() == 0 {
        Seq::empty()
    } else {
        module_decls(items.drop_last()) + match items.last() {
            ModuleItemV::ModuleDecl(d) => seq![d],
            _ => Seq::empty(),
        }
    }
}

/// Whether a module item is an exported `using` declaration.
pub open spec fn is_exported_using(item: ModuleItemV) -> bool {
    item matches ModuleItemV::ModuleDecl(ModuleDeclV::ExportDecl(d)) && d is Using
}

proof fn lemma_module_decls_append(a: Seq<ModuleItemV>, b: Seq<ModuleItemV>)
    ensures
        module_decls(a + b) == module_decls(a) + module_decls(b),
    decreases b.len(),
{
    if b.len() == 0 {
        assert(a + b =~= a);
        assert(module_decls(a) + module_decls(b) =~= module_decls(a));
    } else {
        lemma_module_decls_append(a, b.drop_last());
        assert((a + b).drop_last() =~= a + b.drop_last());
        assert((a + b).last() == b.last());
    }
}

proof fn lemma_module_decls_one(item: ModuleItemV)
    ensures
        module_decls(seq![item]) == match item {
            ModuleItemV::ModuleDecl(d) => seq![d],
            _ => Seq::<ModuleDeclV>::empty(),
        },
{
    assert(seq![item].drop_last() =~= Seq::<ModuleItemV>::empty());
    assert(seq![item].last() == item);
    assert(module_decls(Seq::<ModuleItemV>::empty()) == Seq::<ModuleDeclV>::empty());
    match item {
        ModuleItemV::ModuleDecl(d) => {
            assert(Seq::<ModuleDeclV>::empty() + seq![d] =~= seq![d]);
        },
        _ => {
            assert(Seq::<ModuleDeclV>::empty() + Seq::<ModuleDeclV>::empty() =~= Seq::<ModuleDeclV>::empty());
        },
    }
}

proof fn lemma_kept_items(items: Seq<ModuleItemV>)
    requires
        forall|k: int| 0 <= k < items.len() ==> !is_exported_using(#[trigger] items[k]),
    ensures
        module_decls(kept_items(items)) == module_decls(items),
        forall|k: int| 0 <= k < kept_items(items).len() ==> !item_has_using(#[trigger] kept_items(items)[k]),
    decreases items.len(),
{
    if items.len() > 0 {
        let rest = items.drop_last();
        let last = items.last();
        assert forall|k: int| 0 <= k < rest.len() implies !is_exported_using(#[trigger] rest[k]) by {
            assert(rest[k] == items[k]);
        }
        lemma_kept_items(rest);
        assert(!is_exported_using(items[items.len() - 1]));
        lemma_module_decls_append(kept_items(rest), kept_at_top(last));
        lemma_module_decls_one(last);
        if kept_at_top(last).len() == 0 {
            assert(module_decls(kept_at_top(last)) =~= Seq::<ModuleDeclV>::empty());
            assert(module_decls(kept_items(rest)) + module_decls(kept_at_top(last)) =~= module_decls(kept_items(rest)));
            assert(module_decls(rest) + module_decls(seq![last]) =~= module_decls(rest));
        }
        assert(module_decls(items) == module_decls(rest) + module_decls(seq![last]));
        let kept = kept_items(items);
        assert forall|k: int| 0 <= k < kept.len() implies !item_has_using(#[trigger] kept[k]) by {
            if k < kept_items(rest).len() {
                assert(kept[k] == kept_items(rest)[k]);
            } else {
                assert(kept[k] == kept_at_top(last)[k - kept_items(rest).len()]);
            }
        }
    }
}

/// Moving a module's statements into a block keeps its imports and
/// exports, in order, at the top level, so the names it exports stay
/// exported; and no `using` declaration is left at the top level.
/// (An exported `using` declaration, which the pass has to move into the
/// block without its `export`, is left out.)
pub proof fn lemma_program_keeps_exports(items: Seq<ModuleItemV>)
    requires
        forall|k: int| 0 <= k < items.len() ==> !is_exported_using(#[trigger] items[k]),
    ensures
        module_decls(program_rewritten(items)) == module_decls(items),
        items_have_using(items) ==> forall|k: int|
            0 <= k < program_rewritten(items).len() ==> !item_has_using(#[trigger] program_rewritten(items)[k]),
{
    lemma_kept_items(items);
    if items_have_using(items) && moved_stmts(items).len() > 0 {
        let block = ModuleItemV::Stmt(StmtV::Block(dummy_span(), moved_stmts(items)));
        lemma_module_decls_append(kept_items(items), seq![block]);
        lemma_module_decls_one(block);
        assert(module_decls(kept_items(items)) + Seq::<ModuleDeclV>::empty() =~= module_decls(kept_items(items)));
        assert(kept_items(items).push(block) =~= kept_items(items) + seq![block]);
        let r = program_rewritten(items);
        assert forall|k: int| 0 <= k < r.len() implies !item_has_using(#[trigger] r[k]) by {
            if k < kept_items(items).len() {
                assert(r[k] == kept_items(items)[k]);
            }
        }
    }
}

// ---------------------------------------------------------------------------
// Builders.

/// `babelHelpers.usingCtx()`.
fn create_using_ctx_helper_call() -> (e: Expr)
    ensures
        expr_v(e) == using_ctx_call(),
{
    let callee = static_member_expr(ident_expr("babelHelpers"), "usingCtx");
    crate::ast_build::call0(callee)
}

/// `var ctx = babelHelpers.usingCtx();`
fn create_using_ctx_decl(ctx: &Ident) -> (s: Stmt)
    ensures
        stmt_v(s) == using_ctx_decl(ident_v(*ctx)),
{
    let init = create_using_ctx_helper_call();
    let declarator = VarDeclarator { name: Pat::Ident(clone_ident(ctx)), init: Some(Box::new(init)) };
    let mut decls: Vec<VarDeclarator> = Vec::new();
    proof {
        lemma_declarators_v_push(decls@, declarator);
    }
    decls.push(declarator);
    assert(declarators_v(decls@) =~= seq![declarator_v(declarator)]);
    Stmt::Decl(Decl::Var(VarDecl { span: dummy_sp(), kind: VarDeclKind::Var, decls }))
}

/// `catch (_) { ctx.e = _; }` with `_` private under `err_ctxt`.
fn create_catch_clause(ctx: &Ident, err_ctxt: u32) -> (c: CatchClause)
    ensures
        c.param is Some,
        pat_v(c.param->Some_0) == PatV::Ident(private_ident("_"@, err_ctxt)),
        stmts_v(c.body@) == using_catch(ident_v(*ctx), private_ident("_"@, err_ctxt)).body,
{
    let err = make_private_ident(crate::text::string_of("_"), err_ctxt);
    let err2 = clone_ident(&err);
    let c1 = clone_ident(ctx);
    let e_name = ident("e");
    let obj = Expr::Ident(c1);
    assert(expr_v(obj) == ExprV::Ident(ident_v(*ctx)));
    let prop = MemberProp::Ident(e_name);
    assert(crate::ast_view::member_prop_v(prop) == MemberPropV::Ident(gen_ident("e"@)));
    let target = AssignTarget::Member(MemberExpr { obj: Box::new(obj), prop });
    let ghost ctxv = ident_v(*ctx);
    let ghost errv = private_ident("_"@, err_ctxt);
    let ghost tv = AssignTargetV::Member(
        MemberExprV { obj: Box::new(ExprV::Ident(ctxv)), prop: MemberPropV::Ident(gen_ident("e"@)) },
    );
    assert(crate::ast_view::assign_target_v(target) == tv);
    let rhs = Expr::Ident(err2);
    assert(ident_v(err2) == errv);
    assert(expr_v(rhs) == ExprV::Ident(errv));
    let assign = Expr::Assign(AssignOp::Assign, target, Box::new(rhs));
    assert(expr_v(assign) == ExprV::Assign(AssignOp::Assign, tv, Box::new(ExprV::Ident(errv))));
    let s = Stmt::Expr(dummy_sp(), Box::new(assign));
    let mut body: Vec<Stmt> = Vec::new();
    proof {
        lemma_stmts_v_push(body@, s);
    }
    body.push(s);
    assert(stmts_v(body@) =~= seq![stmt_v(s)]);
    CatchClause { param: Some(Pat::Ident(err)), body }
}

/// `{ ctx.d(); }` or `{ await ctx.d(); }`.
fn create_finally_block(ctx: &Ident, needs_await: bool) -> (b: Vec<Stmt>)
    ensures
        stmts_v(b@) == using_finally(ident_v(*ctx), needs_await),
{
    let callee = static_member_expr(Expr::Ident(clone_ident(ctx)), "d");
    let call = crate::ast_build::call0(callee);
    let e = if needs_await { Expr::Await(Box::new(call)) } else { call };
    let s = Stmt::Expr(dummy_sp(), Box::new(e));
    let mut b: Vec<Stmt> = Vec::new();
    proof {
        lemma_stmts_v_push(b@, s);
    }
    b.push(s);
    assert(stmts_v(b@) =~= seq![stmt_v(s)]);
    b
}

/// The `try` statement that disposes of the resources of `body`; the
/// binding of the caught error is private under `err_ctxt`.
fn create_try_stmt(body: Vec<Stmt>, ctx: &Ident, needs_await: bool, err_ctxt: u32) -> (s: Stmt)
    ensures
        stmt_v(s) == using_try(stmts_v(body@), ident_v(*ctx), err_ctxt, needs_await),
{
    let catch = create_catch_clause(ctx, err_ctxt);
    let finally = create_finally_block(ctx, needs_await);
    Stmt::Try(dummy_sp(), body, Some(catch), Some(finally))
}

/// `ctx.u` or, for `await using`, `ctx.a`.
fn create_register_callee(ctx: &Ident, is_await: bool) -> (e: Expr)
    ensures
        expr_v(e) == static_member(ExprV::Ident(ident_v(*ctx)), if is_await { "a"@ } else { "u"@ }),
{
    let obj = Expr::Ident(clone_ident(ctx));
    if is_await {
        static_member_expr(obj, "a")
    } else {
        static_member_expr(obj, "u")
    }
}

/// One declarator of a `using` declaration registered with `ctx`.
fn register_declarator(d: &VarDeclarator, ctx: &Ident, is_await: bool) -> (r: VarDeclarator)
    ensures
        declarator_v(r) == registered(declarator_v(*d), ident_v(*ctx), is_await),
{
    reveal(registered);
    let name = crate::ast_clone::clone_pat(&d.name);
    match &d.init {
        Some(e) => {
            let ghost ev = expr_v(**e);
            let m = create_register_callee(ctx, is_await);
            let c = crate::ast_build::call1(m, crate::ast_clone::clone_expr(&**e));
            let r = VarDeclarator { name, init: Some(Box::new(c)) };
            assert(declarator_v(r).init == Some(Box::new(expr_v(c))));
            r
        },
        None => VarDeclarator { name, init: None },
    }
}

proof fn lemma_registered_all(ds: Seq<VarDeclaratorV>, ctx: IdentV, is_await: bool)
    ensures
        registered_all(ds, ctx, is_await).len() == ds.len(),
        forall|k: int| 0 <= k < ds.len() ==> #[trigger] registered_all(ds, ctx, is_await)[k] == registered(ds[k], ctx, is_await),
    decreases ds.len(),
{
    reveal(registered_all);
    if ds.len() > 0 {
        lemma_registered_all(ds.drop_last(), ctx, is_await);
    }
}

/// A `using` declaration made a `const` one registered with `ctx`.
fn transform_using_decl(u: &UsingDecl, ctx: &Ident) -> (v: VarDecl)
    ensures
        v.span == u.span,
        v.kind == VarDeclKind::Const,
        declarators_v(v.decls@) == registered_all(declarators_v(u.decls@), ident_v(*ctx), u.is_await),
{
    let ghost ctxv = ident_v(*ctx);
    let n = u.decls.len();
    let mut out: Vec<VarDeclarator> = Vec::new();
    let mut i: usize = 0;
    while i < n
        invariant
            n == u.decls@.len(),
            i <= n,
            ctxv == ident_v(*ctx),
            out@.len() == i,
            forall|k: int| 0 <= k < i ==> #[trigger] declarator_v(out@[k]) == registered(declarator_v(u.decls@[k]), ctxv, u.is_await),
        decreases n - i,
    {
        let nd = register_declarator(&u.decls[i], ctx, u.is_await);
        out.push(nd);
        i += 1;
    }
    proof {
        lemma_registered_decls(u.decls@, out@, ctxv, u.is_await);
    }
    VarDecl { span: u.span, kind: VarDeclKind::Const, decls: out }
}

proof fn lemma_registered_decls(ds: Seq<VarDeclarator>, out: Seq<VarDeclarator>, ctx: IdentV, is_await: bool)
    requires
        out.len() == ds.len(),
        forall|k: int| 0 <= k < out.len() ==> #[trigger] declarator_v(out[k]) == registered(declarator_v(ds[k]), ctx, is_await),
    ensures
        declarators_v(out) == registered_all(declarators_v(ds), ctx, is_await),
{
    let dv = declarators_v(ds);
    lemma_declarators_v(ds);
    lemma_declarators_v(out);
    lemma_registered_all(dv, ctx, is_await);
    let want = registered_all(dv, ctx, is_await);
    assert forall|k: int| 0 <= k < out.len() implies declarators_v(out)[k] == want[k] by {
        assert(declarators_v(out)[k] == declarator_v(out[k]));
        assert(dv[k] == declarator_v(ds[k]));
    }
    assert(declarators_v(out) =~= want);
}

/// The explicit resource management pass.
pub struct ExplicitResourceManagement {
    /// Top-level `using` declarations of the program being visited, by
    /// position; emptied when a program is entered.
    pub top_level_using: Vec<(usize, bool)>,
    /// How many bindings the pass has generated.
    pub uid_counter: usize,
}

impl ExplicitResourceManagement {
    pub fn new(_ctx: &TransformCtx) -> (s: Self)
        ensures
            s.uid_counter == 0,
            s.top_level_using@.len() == 0,
    {
        ExplicitResourceManagement { top_level_using: Vec::new(), uid_counter: 0 }
    }

    /// A fresh private binding `_name` followed by the next count.
    fn generate_uid(&mut self, name: &str, c: u32) -> (i: Ident)
        requires
            old(self).uid_counter < usize::MAX,
        ensures
            final(self).uid_counter == old(self).uid_counter + 1,
            final(self).top_level_using == old(self).top_level_using,
            ident_v(i) == numbered_ident(name@, final(self).uid_counter as nat, c),
    {
        self.uid_counter = self.uid_counter + 1;
        make_private_ident(make_numbered_name(name, self.uid_counter as u64), c)
    }

    /// A fresh private binding named after `ident`: `_sym` followed by the
    /// next count.
    fn generate_uid_based_on(&mut self, ident: &Ident, c: u32) -> (i: Ident)
        requires
            old(self).uid_counter < usize::MAX,
        ensures
            final(self).uid_counter == old(self).uid_counter + 1,
            final(self).top_level_using == old(self).top_level_using,
            ident_v(i) == numbered_ident(ident.sym@, final(self).uid_counter as nat, c),
    {
        self.generate_uid(ident.sym.as_str(), c)
    }
}

proof fn lemma_rewritten(orig: Seq<Stmt>, cur: Seq<Stmt>, ctx: IdentV)
    requires
        cur.len() == orig.len(),
        forall|k: int| 0 <= k < cur.len() ==> #[trigger] stmt_v(cur[k]) == rewrite_using(stmt_v(orig[k]), ctx),
    ensures
        stmts_v(cur) == rewrite_usings(stmts_v(orig), ctx),
{
    lemma_stmts_v(orig);
    lemma_stmts_v(cur);
    let want = rewrite_usings(stmts_v(orig), ctx);
    assert forall|k: int| 0 <= k < cur.len() implies stmts_v(cur)[k] == want[k] by {
        assert(stmts_v(cur)[k] == stmt_v(cur[k]));
        assert(stmts_v(orig)[k] == stmt_v(orig[k]));
    }
    assert(stmts_v(cur) =~= want);
}

proof fn lemma_using_found(orig: Seq<Stmt>)
    ensures
        has_using(stmts_v(orig)) <==> exists|k: int| 0 <= k < orig.len() && #[trigger] is_using(stmt_v(orig[k])),
        has_await_using(stmts_v(orig)) <==> exists|k: int|
            0 <= k < orig.len() && #[trigger] is_await_using(stmt_v(orig[k])),
{
    lemma_stmts_v(orig);
    let v = stmts_v(orig);
    if has_using(v) {
        let k = choose|k: int| 0 <= k < v.len() && #[trigger] is_using(v[k]);
        assert(is_using(stmt_v(orig[k])));
    }
    if exists|k: int| 0 <= k < orig.len() && #[trigger] is_using(stmt_v(orig[k])) {
        let k = choose|k: int| 0 <= k < orig.len() && #[trigger] is_using(stmt_v(orig[k]));
        assert(is_using(v[k]));
    }
    if has_await_using(v) {
        let k = choose|k: int| 0 <= k < v.len() && #[trigger] is_await_using(v[k]);
        assert(is_await_using(stmt_v(orig[k])));
    }
    if exists|k: int| 0 <= k < orig.len() && #[trigger] is_await_using(stmt_v(orig[k])) {
        let k = choose|k: int| 0 <= k < orig.len() && #[trigger] is_await_using(stmt_v(orig[k]));
        assert(is_await_using(v[k]));
    }
}

proof fn lemma_stmts_v_prepend(s: Seq<Stmt>, x: Stmt)
    ensures
        stmts_v(s.insert(0, x)) == seq![stmt_v(x)] + stmts_v(s),
{
    lemma_stmts_v(s);
    lemma_stmts_v(s.insert(0, x));
    assert(stmts_v(s.insert(0, x)) =~= seq![stmt_v(x)] + stmts_v(s));
}

/// `using` declarations as statements: each is made a `const` one
/// registered with `ctx`, as `rewrite_using` says.
fn rewrite_using_stmt(s: &Stmt, ctx: &Ident) -> (r: Option<Stmt>)
    ensures
        r is Some <==> is_using(stmt_v(*s)),
        r is Some ==> stmt_v(r->Some_0) == rewrite_using(stmt_v(*s), ident_v(*ctx)),
{
    match s {
        Stmt::Decl(Decl::Using(u)) => {
            let v = transform_using_decl(u, ctx);
            let r = Stmt::Decl(Decl::Var(v));
            assert(stmt_v(r) == StmtV::Decl(DeclV::Var(VarDeclV { span: v.span, kind: v.kind, decls: declarators_v(v.decls@) })));
            Some(r)
        },
        Stmt::Decl(d) => {
            assert(!(crate::ast_view::decl_v(*d) is Using));
            None
        },
        _ => {
            assert(!(stmt_v(*s) is Decl));
            None
        },
    }
}

/// Whether a statement is an `await using` declaration.
fn is_await_using_stmt(s: &Stmt) -> (b: bool)
    ensures
        b == is_await_using(stmt_v(*s)),
{
    match s {
        Stmt::Decl(Decl::Using(u)) => u.is_await,
        Stmt::Decl(d) => {
            assert(!(crate::ast_view::decl_v(*d) is Using));
            false
        },
        _ => {
            assert(!(stmt_v(*s) is Decl));
            false
        },
    }
}

impl ExplicitResourceManagement {
    /// Registers the `using` declarations of `stmts` with the context in
    /// `using_ctx`, making that context first if there is none yet and
    /// `stmts` holds one; `needs_await` is set if one of them is
    /// `await using`.
    fn register_usings(&mut self, stmts: &mut Vec<Stmt>, using_ctx: &mut Option<Ident>, needs_await: &mut bool, c: u32)
        requires
            *old(using_ctx) is None ==> old(self).uid_counter < usize::MAX,
        ensures
            final(self).top_level_using == old(self).top_level_using,
            *final(needs_await) == (*old(needs_await) || has_await_using(stmts_v(old(stmts)@))),
            *old(using_ctx) is Some ==> *final(using_ctx) == *old(using_ctx)
                && final(self).uid_counter == old(self).uid_counter,
            *old(using_ctx) is None && !has_using(stmts_v(old(stmts)@)) ==> *final(using_ctx) is None
                && final(self).uid_counter == old(self).uid_counter,
            *old(using_ctx) is None && has_using(stmts_v(old(stmts)@)) ==> {
                &&& *final(using_ctx) is Some
                &&& final(self).uid_counter == old(self).uid_counter + 1
                &&& ident_v((*final(using_ctx))->Some_0) == using_ctx_ident(
                    final(self).uid_counter as nat,
                    c,
                )
            },
            *final(using_ctx) is None ==> final(stmts)@ == old(stmts)@,
            *final(using_ctx) is Some ==> stmts_v(final(stmts)@) == rewrite_usings(
                stmts_v(old(stmts)@),
                ident_v((*final(using_ctx))->Some_0),
            ),
    {
        let ghost orig = stmts@;
        let ghost c0 = self.uid_counter;
        let ghost ctx0 = *using_ctx;
        let ghost na0 = *needs_await;
        let n = stmts.len();
        let mut i: usize = 0;
        while i < n
            invariant
                n == stmts@.len(),
                n == orig.len(),
                i <= n,
                c0 == old(self).uid_counter,
                ctx0 is None ==> c0 < usize::MAX,
                self.top_level_using == old(self).top_level_using,
                forall|k: int| i <= k < n ==> #[trigger] stmts@[k] == orig[k],
                *needs_await == (na0 || exists|k: int| 0 <= k < i && #[trigger] is_await_using(stmt_v(orig[k]))),
                ctx0 is Some ==> *using_ctx == ctx0 && self.uid_counter == c0,
                match *using_ctx {
                    None => {
                        &&& ctx0 is None
                        &&& self.uid_counter == c0
                        &&& forall|k: int| 0 <= k < i ==> #[trigger] stmts@[k] == orig[k]
                        &&& forall|k: int| 0 <= k < i ==> !#[trigger] is_using(stmt_v(orig[k]))
                    },
                    Some(u) => {
                        &&& ctx0 is None ==> {
                            &&& self.uid_counter == c0 + 1
                            &&& ident_v(u) == using_ctx_ident(self.uid_counter as nat, c)
                            &&& exists|k: int| 0 <= k < i && #[trigger] is_using(stmt_v(orig[k]))
                        }
                        &&& forall|k: int| 0 <= k < i ==> #[trigger] stmt_v(stmts@[k]) == rewrite_using(stmt_v(orig[k]), ident_v(u))
                    },
                },
            decreases n - i,
        {
            let aw = is_await_using_stmt(&stmts[i]);
            if aw {
                *needs_await = true;
            }
            let found = match &stmts[i] {
                Stmt::Decl(Decl::Using(_)) => true,
                _ => false,
            };
            proof {
                reveal_is_using(stmts@[i as int]);
            }
            if found {
                if using_ctx.is_none() {
                    *using_ctx = Some(self.generate_uid("usingCtx", c));
                }
                let r = match &*using_ctx {
                    Some(c) => rewrite_using_stmt(&stmts[i], c),
                    None => None,
                };
                match r {
                    Some(x) => {
                        stmts.set(i, x);
                    },
                    None => {},
                }
            } else {
                assert(*using_ctx is Some ==> rewrite_using(stmt_v(orig[i as int]), ident_v((*using_ctx)->Some_0))
                    == stmt_v(orig[i as int]));
            }
            i += 1;
        }
        proof {
            lemma_using_found(orig);
            if *using_ctx is None {
                assert(stmts@ =~= orig);
            } else {
                lemma_rewritten(orig, stmts@, ident_v((*using_ctx)->Some_0));
            }
        }
    }

    /// Registers the `using` declarations of `stmts` with a new context.
    /// Without any, returns `None` and leaves everything as it was.
    /// Otherwise `stmts` is emptied, and the result holds the statements as
    /// `using_body` says, whether the disposal is awaited, and the context.
    fn transform_statements(&mut self, stmts: &mut Vec<Stmt>, c: u32) -> (r: Option<(Vec<Stmt>, bool, Ident)>)
        requires
            old(self).uid_counter < usize::MAX,
        ensures
            final(self).top_level_using == old(self).top_level_using,
            match r {
                None => !has_using(stmts_v(old(stmts)@)) && final(stmts)@ == old(stmts)@
                    && final(self).uid_counter == old(self).uid_counter,
                Some((body, needs_await, ctx)) => {
                    &&& has_using(stmts_v(old(stmts)@))
                    &&& final(self).uid_counter == old(self).uid_counter + 1
                    &&& ident_v(ctx) == using_ctx_ident(final(self).uid_counter as nat, c)
                    &&& stmts_v(body@) == using_body(stmts_v(old(stmts)@), ident_v(ctx))
                    &&& needs_await == has_await_using(stmts_v(old(stmts)@))
                    &&& final(stmts)@.len() == 0
                },
            },
    {
        let mut using_ctx: Option<Ident> = None;
        let mut needs_await = false;
        self.register_usings(stmts, &mut using_ctx, &mut needs_await, c);
        match using_ctx {
            None => None,
            Some(ctx) => {
                let mut body: Vec<Stmt> = Vec::new();
                std::mem::swap(&mut body, stmts);
                let helper = create_using_ctx_decl(&ctx);
                proof {
                    lemma_stmts_v_prepend(body@, helper);
                }
                body.insert(0, helper);
                Some((body, needs_await, ctx))
            },
        }
    }
}

/// A statement is a `using` declaration exactly when its view is one.
proof fn reveal_is_using(s: Stmt)
    ensures
        is_using(stmt_v(s)) <==> (s is Decl && s->Decl_0 is Using),
{
    match s {
        Stmt::Decl(d) => {
            match d {
                Decl::Using(_) => {},
                _ => {},
            }
        },
        _ => {},
    }
}

/// Registering with `ctx` changes nothing in statements without `using`.
proof fn lemma_rewrite_without_using(v: Seq<StmtV>, ctx: IdentV)
    requires
        !has_using(v),
    ensures
        rewrite_usings(v, ctx) == v,
{
    assert forall|k: int| 0 <= k < v.len() implies rewrite_usings(v, ctx)[k] == v[k] by {
        assert(!is_using(v[k]));
    }
    assert(rewrite_usings(v, ctx) =~= v);
}

proof fn lemma_cases_untouched(cases: Seq<SwitchCase>, orig: Seq<SwitchCase>, i: int, ctx: IdentV)
    requires
        0 <= i <= cases.len(),
        i <= orig.len(),
        forall|k: int| 0 <= k < i ==> #[trigger] switch_case_v(cases[k]) == switch_case_v(orig[k]),
        forall|k: int| 0 <= k < i ==> !has_using(stmts_v(#[trigger] orig[k].cons@)),
    ensures
        forall|k: int| 0 <= k < i ==> #[trigger] switch_case_v(cases[k]) == rewrite_case(switch_case_v(orig[k]), ctx),
{
    assert forall|k: int| 0 <= k < i implies #[trigger] switch_case_v(cases[k]) == rewrite_case(switch_case_v(orig[k]), ctx) by {
        assert(switch_case_v(cases[k]) == switch_case_v(orig[k]));
        assert(!has_using(stmts_v(orig[k].cons@)));
        lemma_rewrite_without_using(stmts_v(orig[k].cons@), ctx);
    }
}

proof fn lemma_cases_rewritten(orig: Seq<SwitchCase>, cur: Seq<SwitchCase>, ctx: IdentV)
    requires
        cur.len() == orig.len(),
        forall|k: int| 0 <= k < cur.len() ==> #[trigger] switch_case_v(cur[k]) == rewrite_case(switch_case_v(orig[k]), ctx),
    ensures
        cases_v(cur) == rewrite_cases(cases_v(orig), ctx),
{
    lemma_cases_v(orig);
    lemma_cases_v(cur);
    let want = rewrite_cases(cases_v(orig), ctx);
    assert forall|k: int| 0 <= k < cur.len() implies cases_v(cur)[k] == want[k] by {
        assert(cases_v(cur)[k] == switch_case_v(cur[k]));
        assert(cases_v(orig)[k] == switch_case_v(orig[k]));
    }
    assert(cases_v(cur) =~= want);
}

proof fn lemma_cases_found(orig: Seq<SwitchCase>)
    ensures
        cases_have_using(cases_v(orig)) <==> exists|k: int|
            0 <= k < orig.len() && has_using(stmts_v(#[trigger] orig[k].cons@)),
        cases_have_await_using(cases_v(orig)) <==> exists|k: int|
            0 <= k < orig.len() && has_await_using(stmts_v(#[trigger] orig[k].cons@)),
{
    lemma_cases_v(orig);
    let v = cases_v(orig);
    if cases_have_using(v) {
        let k = choose|k: int| 0 <= k < v.len() && has_using(#[trigger] v[k].cons);
        assert(v[k] == switch_case_v(orig[k]));
        assert(has_using(stmts_v(orig[k].cons@)));
    }
    if exists|k: int| 0 <= k < orig.len() && has_using(stmts_v(#[trigger] orig[k].cons@)) {
        let k = choose|k: int| 0 <= k < orig.len() && has_using(stmts_v(#[trigger] orig[k].cons@));
        assert(v[k] == switch_case_v(orig[k]));
        assert(has_using(v[k].cons));
    }
    if cases_have_await_using(v) {
        let k = choose|k: int| 0 <= k < v.len() && has_await_using(#[trigger] v[k].cons);
        assert(v[k] == switch_case_v(orig[k]));
        assert(has_await_using(stmts_v(orig[k].cons@)));
    }
    if exists|k: int| 0 <= k < orig.len() && has_await_using(stmts_v(#[trigger] orig[k].cons@)) {
        let k = choose|k: int| 0 <= k < orig.len() && has_await_using(stmts_v(#[trigger] orig[k].cons@));
        assert(v[k] == switch_case_v(orig[k]));
        assert(has_await_using(v[k].cons));
    }
}

/// Whether a statement is a `using` declaration.
fn is_using_stmt(s: &Stmt) -> (b: bool)
    ensures
        b == is_using(stmt_v(*s)),
{
    proof {
        reveal_is_using(*s);
    }
    match s {
        Stmt::Decl(Decl::Using(_)) => true,
        _ => false,
    }
}

/// Whether some statement of `stmts` is a `using` declaration.
fn stmts_contain_using(stmts: &Vec<Stmt>) -> (b: bool)
    ensures
        b == has_using(stmts_v(stmts@)),
{
    proof {
        lemma_using_found(stmts@);
    }
    let mut i: usize = 0;
    while i < stmts.len()
        invariant
            i <= stmts@.len(),
            forall|k: int| 0 <= k < i ==> !#[trigger] is_using(stmt_v(stmts@[k])),
        decreases stmts@.len() - i,
    {
        if is_using_stmt(&stmts[i]) {
            proof {
                lemma_using_found(stmts@);
            }
            return true;
        }
        i += 1;
    }
    proof {
        lemma_using_found(stmts@);
    }
    false
}

/// Whether some case of a `switch` holds a `using` declaration.
fn cases_contain_using(cases: &Vec<SwitchCase>) -> (b: bool)
    ensures
        b == cases_have_using(cases_v(cases@)),
{
    proof {
        lemma_cases_found(cases@);
    }
    let mut i: usize = 0;
    while i < cases.len()
        invariant
            i <= cases@.len(),
            forall|k: int| 0 <= k < i ==> !has_using(stmts_v(#[trigger] cases@[k].cons@)),
        decreases cases@.len() - i,
    {
        if stmts_contain_using(&cases[i].cons) {
            proof {
                lemma_cases_found(cases@);
            }
            return true;
        }
        i += 1;
    }
    proof {
        lemma_cases_found(cases@);
    }
    false
}

impl ExplicitResourceManagement {
    /// Registers the `using` declarations in the cases of a `switch` with a
    /// new context, and returns it with whether the disposal is awaited;
    /// `None`, with nothing changed, when there is none.
    fn transform_switch_statement(&mut self, cases: &mut Vec<SwitchCase>, c: u32) -> (r: Option<(Ident, bool)>)
        requires
            old(self).uid_counter < usize::MAX,
        ensures
            final(self).top_level_using == old(self).top_level_using,
            match r {
                None => !cases_have_using(cases_v(old(cases)@)) && final(cases)@ == old(cases)@
                    && final(self).uid_counter == old(self).uid_counter,
                Some((ctx, needs_await)) => {
                    &&& cases_have_using(cases_v(old(cases)@))
                    &&& final(self).uid_counter == old(self).uid_counter + 1
                    &&& ident_v(ctx) == using_ctx_ident(final(self).uid_counter as nat, c)
                    &&& cases_v(final(cases)@) == rewrite_cases(cases_v(old(cases)@), ident_v(ctx))
                    &&& needs_await == cases_have_await_using(cases_v(old(cases)@))
                },
            },
    {
        let ghost orig = cases@;
        let ghost c0 = self.uid_counter;
        proof {
            lemma_cases_found(orig);
        }
        if !cases_contain_using(cases) {
            return None;
        }
        let n = cases.len();
        let mut using_ctx: Option<Ident> = None;
        let mut needs_await = false;
        let mut i: usize = 0;
        while i < n
            invariant
                n == cases@.len(),
                n == orig.len(),
                i <= n,
                c0 == old(self).uid_counter,
                c0 < usize::MAX,
                self.top_level_using == old(self).top_level_using,
                forall|k: int| i <= k < n ==> #[trigger] cases@[k] == orig[k],
                needs_await == exists|k: int| 0 <= k < i && has_await_using(stmts_v(#[trigger] orig[k].cons@)),
                match using_ctx {
                    None => {
                        &&& self.uid_counter == c0
                        &&& forall|k: int| 0 <= k < i ==> #[trigger] switch_case_v(cases@[k]) == switch_case_v(orig[k])
                        &&& forall|k: int| 0 <= k < i ==> !has_using(stmts_v(#[trigger] orig[k].cons@))
                    },
                    Some(u) => {
                        &&& self.uid_counter == c0 + 1
                        &&& ident_v(u) == using_ctx_ident(self.uid_counter as nat, c)
                        &&& exists|k: int| 0 <= k < i && has_using(stmts_v(#[trigger] orig[k].cons@))
                        &&& forall|k: int| 0 <= k < i ==> #[trigger] switch_case_v(cases@[k]) == rewrite_case(switch_case_v(orig[k]), ident_v(u))
                    },
                },
            decreases n - i,
        {
            let ghost before = cases@;
            let ghost ctx_before = using_ctx;
            let mut case = SwitchCase { test: None, cons: Vec::new() };
            cases.set_and_swap(i, &mut case);
            let SwitchCase { test, cons } = case;
            let mut cons = cons;
            let ghost cons0 = cons@;
            self.register_usings(&mut cons, &mut using_ctx, &mut needs_await, c);
            let ghost cons1 = cons@;
            cases.set(i, SwitchCase { test, cons });
            proof {
                assert(cases@[i as int].cons@ == cons1);
                assert(orig[i as int].cons@ == cons0);
                assert(forall|k: int| 0 <= k < n && k != i ==> cases@[k] == before[k]);
                if ctx_before is None && using_ctx is Some {
                    lemma_cases_untouched(cases@, orig, i as int, ident_v(using_ctx->Some_0));
                }
            }
            i += 1;
        }
        proof {
            if using_ctx is Some {
                lemma_cases_rewritten(orig, cases@, ident_v(using_ctx->Some_0));
            }
        }
        match using_ctx {
            None => None,
            Some(ctx) => Some((ctx, needs_await)),
        }
    }
}

impl ExplicitResourceManagement {
    /// Wraps the statements of a scope that holds `using` declarations in
    /// the `try` statement that disposes of them.
    fn wrap_statements(&mut self, stmts: &mut Vec<Stmt>, c: u32, e: u32)
        requires
            old(self).uid_counter < usize::MAX,
        ensures
            final(self).top_level_using == old(self).top_level_using,
            scope_rewritten(
                old(self).uid_counter as nat,
                stmts_v(old(stmts)@),
                final(self).uid_counter as nat,
                stmts_v(final(stmts)@),
                c,
                e,
            ),
            !has_using(stmts_v(old(stmts)@)) ==> final(stmts)@ == old(stmts)@,
    {
        let ghost before = stmts_v(stmts@);
        match self.transform_statements(stmts, c) {
            None => {},
            Some((body, needs_await, ctx)) => {
                let ghost ctxv = ident_v(ctx);
                let t = create_try_stmt(body, &ctx, needs_await, e);
                let mut v: Vec<Stmt> = Vec::new();
                proof {
                    lemma_stmts_v_push(v@, t);
                }
                v.push(t);
                assert(stmts_v(v@) =~= seq![stmt_v(t)]);
                *stmts = v;
                assert(stmt_v(t) == wrapped_scope(before, using_ctx_ident(self.uid_counter as nat, c), e));
            },
        }
    }

    /// A class static block with `using` declarations is wrapped, as
    /// `scope_rewritten` says.
    pub fn exit_static_block(&mut self, body: &mut Vec<Stmt>, c: u32, e: u32)
        requires
            old(self).uid_counter < usize::MAX,
        ensures
            final(self).top_level_using == old(self).top_level_using,
            scope_rewritten(
                old(self).uid_counter as nat,
                stmts_v(old(body)@),
                final(self).uid_counter as nat,
                stmts_v(final(body)@),
                c,
                e,
            ),
            !has_using(stmts_v(old(body)@)) ==> final(body)@ == old(body)@,
    {
        self.wrap_statements(body, c, e);
    }

    /// A script with `using` declarations at its top level is wrapped, as
    /// `scope_rewritten` says.
    pub fn enter_script(&mut self, body: &mut Vec<Stmt>, c: u32, e: u32)
        requires
            old(self).uid_counter < usize::MAX,
        ensures
            final(self).top_level_using == old(self).top_level_using,
            scope_rewritten(
                old(self).uid_counter as nat,
                stmts_v(old(body)@),
                final(self).uid_counter as nat,
                stmts_v(final(body)@),
                c,
                e,
            ),
            !has_using(stmts_v(old(body)@)) ==> final(body)@ == old(body)@,
    {
        if !stmts_contain_using(body) {
            return;
        }
        self.wrap_statements(body, c, e);
    }

    /// A function body with `using` declarations is wrapped, as
    /// `scope_rewritten` says; the rest of the function is kept.
    pub fn enter_function(&mut self, func: &mut crate::ast::Function, c: u32, e: u32)
        requires
            old(self).uid_counter < usize::MAX,
        ensures
            final(self).top_level_using == old(self).top_level_using,
            final(func).span == old(func).span,
            final(func).params == old(func).params,
            final(func).is_async == old(func).is_async,
            final(func).is_generator == old(func).is_generator,
            old(func).body is None ==> *final(func) == *old(func)
                && final(self).uid_counter == old(self).uid_counter,
            old(func).body is Some ==> final(func).body is Some && scope_rewritten(
                old(self).uid_counter as nat,
                stmts_v(old(func).body->Some_0@),
                final(self).uid_counter as nat,
                stmts_v(final(func).body->Some_0@),
                c,
                e,
            ),
            old(func).body is Some && !has_using(stmts_v(old(func).body->Some_0@)) ==> *final(func) == *old(func),
    {
        let found = match &func.body {
            Some(b) => stmts_contain_using(b),
            None => false,
        };
        if !found {
            return;
        }
        let mut body_opt: Option<Vec<Stmt>> = None;
        std::mem::swap(&mut body_opt, &mut func.body);
        let mut body = match body_opt {
            Some(b) => b,
            None => Vec::new(),
        };
        self.wrap_statements(&mut body, c, e);
        func.body = Some(body);
    }

    /// The block of a `try` statement with `using` declarations is
    /// wrapped, as `scope_rewritten` says; its handlers are kept. Other
    /// statements are left as they are.
    pub fn enter_try_stmt(&mut self, stmt: &mut Stmt, c: u32, e: u32)
        requires
            old(self).uid_counter < usize::MAX,
        ensures
            final(self).top_level_using == old(self).top_level_using,
            !(*old(stmt) is Try) ==> *final(stmt) == *old(stmt)
                && final(self).uid_counter == old(self).uid_counter,
            *old(stmt) is Try ==> *final(stmt) is Try
                && (*final(stmt))->Try_0 == (*old(stmt))->Try_0
                && (*final(stmt))->Try_2 == (*old(stmt))->Try_2
                && (*final(stmt))->Try_3 == (*old(stmt))->Try_3
                && scope_rewritten(
                    old(self).uid_counter as nat,
                    stmts_v((*old(stmt))->Try_1@),
                    final(self).uid_counter as nat,
                    stmts_v((*final(stmt))->Try_1@),
                    c,
                    e,
                ),
            *old(stmt) is Try && !has_using(stmts_v((*old(stmt))->Try_1@)) ==> *final(stmt) == *old(stmt),
    {
        let found = match &*stmt {
            Stmt::Try(_, block, _, _) => stmts_contain_using(block),
            _ => false,
        };
        if !found {
            return;
        }
        match stmt {
            Stmt::Try(_, block, _, _) => {
                self.wrap_statements(block, c, e);
            },
            _ => {},
        }
    }
}

/// `var ctx = babelHelpers.usingCtx(); switch (..) { .. }` wrapped in the
/// disposing `try`.
fn create_wrapped_switch(
    sp: Span,
    d: Box<Expr>,
    cases: Vec<SwitchCase>,
    ctx: &Ident,
    needs_await: bool,
    err_ctxt: u32,
) -> (s: Stmt)
    ensures
        stmt_v(s) == using_try(
            seq![using_ctx_decl(ident_v(*ctx)), StmtV::Switch(sp, Box::new(expr_v(*d)), cases_v(cases@))],
            ident_v(*ctx),
            err_ctxt,
            needs_await,
        ),
{
    let helper = create_using_ctx_decl(ctx);
    let sw = Stmt::Switch(sp, d, cases);
    let mut body: Vec<Stmt> = Vec::new();
    proof {
        lemma_stmts_v_push(body@, helper);
    }
    body.push(helper);
    let ghost b1 = body@;
    proof {
        lemma_stmts_v_push(b1, sw);
    }
    body.push(sw);
    assert(stmts_v(body@) =~= seq![stmt_v(helper), stmt_v(sw)]);
    create_try_stmt(body, ctx, needs_await, err_ctxt)
}

/// The head `const temp` of a rewritten `for .. of` loop.
fn create_for_of_head(temp: &Ident) -> (h: ForHead)
    ensures
        crate::ast_view::for_head_v(h) == ForHeadV::VarDecl(
            VarDeclV {
                span: dummy_span(),
                kind: VarDeclKind::Const,
                decls: seq![VarDeclaratorV { name: PatV::Ident(ident_v(*temp)), init: None }],
            },
        ),
{
    let head_decl = VarDeclarator { name: Pat::Ident(clone_ident(temp)), init: None };
    let mut head_decls: Vec<VarDeclarator> = Vec::new();
    proof {
        lemma_declarators_v_push(head_decls@, head_decl);
    }
    head_decls.push(head_decl);
    assert(declarators_v(head_decls@) =~= seq![VarDeclaratorV { name: PatV::Ident(ident_v(*temp)), init: None }]);
    ForHead::VarDecl(VarDecl { span: dummy_sp(), kind: VarDeclKind::Const, decls: head_decls })
}

/// `using name = temp;`, or `await using name = temp;`.
fn create_for_of_using(name: Pat, is_await: bool, temp: Ident) -> (s: Stmt)
    ensures
        stmt_v(s) == for_of_using_stmt(pat_v(name), is_await, ident_v(temp)),
{
    let ghost tv = ident_v(temp);
    let ghost namev = pat_v(name);
    let init = Expr::Ident(temp);
    assert(expr_v(init) == ExprV::Ident(tv));
    let first_decl = VarDeclarator { name, init: Some(Box::new(init)) };
    let mut first_decls: Vec<VarDeclarator> = Vec::new();
    proof {
        lemma_declarators_v_push(first_decls@, first_decl);
    }
    first_decls.push(first_decl);
    assert(declarators_v(first_decls@) =~= seq![VarDeclaratorV { name: namev, init: Some(Box::new(ExprV::Ident(tv))) }]);
    Stmt::Decl(Decl::Using(UsingDecl { span: dummy_sp(), is_await, decls: first_decls }))
}

/// The body of a loop with `first` in front: put first in a block body, or
/// in a new block before a statement that is not one.
fn prepend_to_body(body: Box<Stmt>, first: Stmt) -> (r: Box<Stmt>)
    ensures
        stmt_v(*r) == match stmt_v(*body) {
            StmtV::Block(sp, b) => StmtV::Block(sp, seq![stmt_v(first)] + b),
            other => StmtV::Block(dummy_span(), seq![stmt_v(first), other]),
        },
{
    match *body {
        Stmt::Block(sp, stmts) => {
            let mut stmts = stmts;
            proof {
                lemma_stmts_v_prepend(stmts@, first);
            }
            stmts.insert(0, first);
            Box::new(Stmt::Block(sp, stmts))
        },
        other => {
            let ghost ov = stmt_v(other);
            let mut stmts: Vec<Stmt> = Vec::new();
            proof {
                lemma_stmts_v_push(stmts@, first);
            }
            stmts.push(first);
            let ghost s1 = stmts@;
            proof {
                lemma_stmts_v_push(s1, other);
            }
            stmts.push(other);
            assert(stmts_v(stmts@) =~= seq![stmt_v(first), ov]);
            Box::new(Stmt::Block(dummy_sp(), stmts))
        },
    }
}

impl ExplicitResourceManagement {
    /// A block with `using` declarations becomes the `try` statement that
    /// wraps it, and a `switch` with some in its cases becomes the `try`
    /// statement that `wrapped_switch` says. Other statements are left as
    /// they are.
    pub fn enter_stmt(&mut self, stmt: &mut Stmt, c: u32, e: u32)
        requires
            old(self).uid_counter < usize::MAX,
        ensures
            final(self).top_level_using == old(self).top_level_using,
            !stmt_has_using(stmt_v(*old(stmt))) ==> *final(stmt) == *old(stmt)
                && final(self).uid_counter == old(self).uid_counter,
            stmt_has_using(stmt_v(*old(stmt))) ==> final(self).uid_counter == old(self).uid_counter + 1
                && stmt_wrapped(stmt_v(*old(stmt)), final(self).uid_counter as nat, stmt_v(*final(stmt)), c, e),
    {
        let ghost sv = stmt_v(*stmt);
        let found = match &*stmt {
            Stmt::Block(_, b) => stmts_contain_using(b),
            Stmt::Switch(_, _, cases) => cases_contain_using(cases),
            _ => false,
        };
        if !found {
            return;
        }
        let s = crate::ast_clone::take_stmt(stmt);
        match s {
            Stmt::Block(sp, b) => {
                let mut b = b;
                let ghost bv = stmts_v(b@);
                match self.transform_statements(&mut b, c) {
                    Some((body, needs_await, ctx)) => {
                        let ghost ctxv = ident_v(ctx);
                        *stmt = create_try_stmt(body, &ctx, needs_await, e);
                        assert(stmt_v(*stmt) == wrapped_scope(bv, using_ctx_ident(self.uid_counter as nat, c), e));
                    },
                    None => {
                        *stmt = Stmt::Block(sp, b);
                    },
                }
            },
            Stmt::Switch(sp, d, cases) => {
                let mut cases = cases;
                let ghost cv = cases_v(cases@);
                let ghost dv = expr_v(*d);
                match self.transform_switch_statement(&mut cases, c) {
                    Some((ctx, needs_await)) => {
                        let ghost ctxv = ident_v(ctx);
                        *stmt = create_wrapped_switch(sp, d, cases, &ctx, needs_await, e);
                        assert(stmt_v(*stmt) == wrapped_switch(sp, dv, cv, using_ctx_ident(self.uid_counter as nat, c), e));
                    },
                    None => {
                        *stmt = Stmt::Switch(sp, d, cases);
                    },
                }
            },
            other => {
                *stmt = other;
            },
        }
    }

    /// `for (using x of y) body` becomes `for (const temp of y) { using x =
    /// temp; body }`, as `for_of_rewritten` says, so that the block
    /// transform disposes of `x` on each turn. Other loops are left as they
    /// are.
    #[verifier::rlimit(30)]
    pub fn enter_for_of_stmt(&mut self, f: &mut ForOfStmt, c: u32)
        requires
            old(self).uid_counter < usize::MAX,
        ensures
            final(self).top_level_using == old(self).top_level_using,
            !for_of_has_using(for_of_v(*old(f))) ==> *final(f) == *old(f)
                && final(self).uid_counter == old(self).uid_counter,
            for_of_has_using(for_of_v(*old(f))) ==> final(self).uid_counter == old(self).uid_counter + 1
                && for_of_v(*final(f)) == for_of_rewritten(for_of_v(*old(f)), final(self).uid_counter as nat, c),
    {
        let ghost fv = for_of_v(*f);
        let found = match &f.left {
            ForHead::UsingDecl(u) => {
                proof {
                    lemma_declarators_v(u.decls@);
                }
                u.decls.len() > 0
            },
            _ => false,
        };
        if !found {
            return;
        }
        let mut left = ForHead::Pat(Pat::Opaque(0));
        std::mem::swap(&mut left, &mut f.left);
        match left {
            ForHead::UsingDecl(u) => {
                let ghost uv = fv.left->UsingDecl_0;
                let UsingDecl { span: _, is_await, decls } = u;
                let mut decls = decls;
                let mut d0 = VarDeclarator { name: Pat::Opaque(0), init: None };
                decls.set_and_swap(0, &mut d0);
                let ghost namev = pat_v(d0.name);
                assert(namev == uv.decls[0].name);
                let VarDeclarator { name, init: _ } = d0;
                let temp = match &name {
                    Pat::Ident(id) => self.generate_uid_based_on(id, c),
                    _ => self.generate_uid("x", c),
                };
                let ghost tv = ident_v(temp);
                assert(tv == for_of_temp(namev, self.uid_counter as nat, c));
                f.left = create_for_of_head(&temp);
                let first = create_for_of_using(name, is_await, temp);
                let mut b = Box::new(Stmt::Empty(dummy_sp()));
                std::mem::swap(&mut b, &mut f.body);
                f.body = prepend_to_body(b, first);
                assert(for_of_v(*f) == for_of_rewritten(fv, self.uid_counter as nat, c));
            },
            other => {
                f.left = other;
            },
        }
    }
}

/// Whether a module item is a `using` declaration, exported or not.
fn is_using_item(item: &ModuleItem) -> (b: bool)
    ensures
        b == item_has_using(module_item_v(*item)),
{
    match item {
        ModuleItem::Stmt(s) => is_using_stmt(s),
        ModuleItem::ModuleDecl(ModuleDecl::ExportDecl(d)) => match d {
            Decl::Using(_) => true,
            _ => {
                assert(!(crate::ast_view::decl_v(*d) is Using));
                false
            },
        },
        ModuleItem::ModuleDecl(d) => {
            assert(!(crate::ast_view::module_decl_v(*d) is ExportDecl));
            false
        },
    }
}

/// Whether some item of a module is a `using` declaration.
fn items_contain_using(items: &Vec<ModuleItem>) -> (b: bool)
    ensures
        b == items_have_using(module_items_v(items@)),
{
    let ghost iv = module_items_v(items@);
    let mut i: usize = 0;
    while i < items.len()
        invariant
            i <= items@.len(),
            iv == module_items_v(items@),
            forall|k: int| 0 <= k < i ==> !#[trigger] item_has_using(iv[k]),
        decreases items@.len() - i,
    {
        if is_using_item(&items[i]) {
            assert(item_has_using(iv[i as int]));
            return true;
        }
        i += 1;
    }
    false
}

proof fn lemma_program_step(iv: Seq<ModuleItemV>, i: int)
    requires
        0 <= i < iv.len(),
    ensures
        kept_items(iv.take(i + 1)) == kept_items(iv.take(i)) + kept_at_top(iv[i]),
        moved_stmts(iv.take(i + 1)) == moved_stmts(iv.take(i)) + moved_inside(iv[i]),
{
    let t = iv.take(i + 1);
    assert(t.drop_last() =~= iv.take(i));
    assert(t.last() == iv[i]);
}

proof fn lemma_module_items_v_push(s: Seq<ModuleItem>, x: ModuleItem)
    ensures
        module_items_v(s.push(x)) == module_items_v(s).push(module_item_v(x)),
{
    assert(module_items_v(s.push(x)) =~= module_items_v(s).push(module_item_v(x)));
}

/// Moves a module item where `handle_program` puts it: to the top level
/// in `kept`, or into the block in `inner`.
fn place_item(item: ModuleItem, kept: &mut Vec<ModuleItem>, inner: &mut Vec<Stmt>)
    ensures
        module_items_v(final(kept)@) == module_items_v(old(kept)@) + kept_at_top(module_item_v(item)),
        stmts_v(final(inner)@) == stmts_v(old(inner)@) + moved_inside(module_item_v(item)),
{
    let ghost iv = module_item_v(item);
    let ghost k0 = kept@;
    let ghost n0 = inner@;
    proof {
        lemma_module_items_v_push(k0, item);
        assert(module_items_v(k0) + Seq::<ModuleItemV>::empty() =~= module_items_v(k0));
        assert(stmts_v(n0) + Seq::<StmtV>::empty() =~= stmts_v(n0));
    }
    match item {
        ModuleItem::Stmt(s) => {
            let is_fn = match &s {
                Stmt::Decl(Decl::Fn(_, _)) => true,
                Stmt::Decl(d) => {
                    assert(!(crate::ast_view::decl_v(*d) is Fn));
                    false
                },
                _ => false,
            };
            if is_fn {
                kept.push(ModuleItem::Stmt(s));
                assert(module_items_v(kept@) =~= module_items_v(k0) + seq![iv]);
            } else {
                let ghost sv = stmt_v(s);
                proof {
                    lemma_stmts_v_push(n0, s);
                }
                inner.push(s);
                assert(stmts_v(inner@) =~= stmts_v(n0) + seq![sv]);
            }
        },
        ModuleItem::ModuleDecl(d) => match d {
            ModuleDecl::ExportDecl(Decl::Using(u)) => {
                let s = Stmt::Decl(Decl::Using(u));
                proof {
                    lemma_stmts_v_push(n0, s);
                }
                inner.push(s);
                assert(stmts_v(inner@) =~= stmts_v(n0) + seq![stmt_v(s)]);
            },
            other => {
                let it = ModuleItem::ModuleDecl(other);
                proof {
                    lemma_module_items_v_push(k0, it);
                }
                kept.push(it);
                assert(module_items_v(kept@) =~= module_items_v(k0) + seq![iv]);
            },
        },
    }
}

impl ExplicitResourceManagement {
    /// The module-level step: when a module has top-level `using`
    /// declarations, everything but imports, function declarations and the
    /// other module declarations moves into one block, as
    /// `program_rewritten` says, so that the block transform disposes of
    /// them. The record of top-level declarations is emptied in any case.
    fn handle_program(&mut self, items: &mut Vec<ModuleItem>)
        ensures
            final(self).uid_counter == old(self).uid_counter,
            final(self).top_level_using@.len() == 0,
            module_items_v(final(items)@) == program_rewritten(module_items_v(old(items)@)),
            !items_have_using(module_items_v(old(items)@)) ==> final(items)@ == old(items)@,
    {
        self.top_level_using.clear();
        if !items_contain_using(items) {
            return;
        }
        let ghost orig = items@;
        let ghost iv = module_items_v(orig);
        let mut src: Vec<ModuleItem> = Vec::new();
        std::mem::swap(&mut src, items);
        let n = src.len();
        let mut kept: Vec<ModuleItem> = Vec::new();
        let mut inner: Vec<Stmt> = Vec::new();
        proof {
            assert(iv.take(0) =~= Seq::<ModuleItemV>::empty());
            assert(module_items_v(kept@) =~= Seq::<ModuleItemV>::empty());
            assert(stmts_v(inner@) =~= Seq::<StmtV>::empty());
        }
        let mut i: usize = 0;
        while i < n
            invariant
                n == src@.len(),
                n == orig.len(),
                iv == module_items_v(orig),
                i <= n,
                forall|k: int| i <= k < n ==> #[trigger] src@[k] == orig[k],
                module_items_v(kept@) == kept_items(iv.take(i as int)),
                stmts_v(inner@) == moved_stmts(iv.take(i as int)),
            decreases n - i,
        {
            let mut item = ModuleItem::ModuleDecl(ModuleDecl::Opaque(0));
            src.set_and_swap(i, &mut item);
            assert(module_item_v(item) == iv[i as int]);
            proof {
                lemma_program_step(iv, i as int);
            }
            place_item(item, &mut kept, &mut inner);
            i += 1;
        }
        assert(iv.take(n as int) =~= iv);
        if inner.len() > 0 {
            let b = ModuleItem::Stmt(Stmt::Block(dummy_sp(), inner));
            proof {
                lemma_module_items_v_push(kept@, b);
            }
            kept.push(b);
        }
        *items = kept;
    }

    /// A module with top-level `using` declarations is rearranged as
    /// `program_rewritten` says.
    pub fn enter_module(&mut self, items: &mut Vec<ModuleItem>)
        ensures
            final(self).uid_counter == old(self).uid_counter,
            final(self).top_level_using@.len() == 0,
            module_items_v(final(items)@) == program_rewritten(module_items_v(old(items)@)),
            !items_have_using(module_items_v(old(items)@)) ==> final(items)@ == old(items)@,
    {
        self.handle_program(items);
    }
}

/// Which ES2026 features are transformed.
#[derive(Clone, Copy, Debug)]
pub struct ES2026Options {
    /// `using` and `await using` declarations are lowered.
    pub explicit_resource_management: bool,
}

impl Default for ES2026Options {
    fn default() -> (o: Self)
        ensures
            !o.explicit_resource_management,
    {
        ES2026Options { explicit_resource_management: false }
    }
}

/// The ES2026 transforms: explicit resource management when its option is
/// set.
pub struct ES2026 {
    pub explicit_resource_management: Option<ExplicitResourceManagement>,
}

/// The counter of generated names of an enabled pass, 0 when disabled.
pub open spec fn erm_counter(e: Option<ExplicitResourceManagement>) -> nat {
    match e {
        Some(p) => p.uid_counter as nat,
        None => 0,
    }
}

impl ES2026 {
    pub fn new(options: ES2026Options, ctx: &TransformCtx) -> (s: Self)
        ensures
            s.explicit_resource_management is Some <==> options.explicit_resource_management,
            s.explicit_resource_management is Some ==> s.explicit_resource_management->Some_0.uid_counter == 0,
    {
        let explicit_resource_management = if options.explicit_resource_management {
            Some(ExplicitResourceManagement::new(ctx))
        } else {
            None
        };
        ES2026 { explicit_resource_management }
    }

    /// `ExplicitResourceManagement::enter_module`, when enabled.
    pub fn enter_module(&mut self, items: &mut Vec<ModuleItem>)
        ensures
            final(self).explicit_resource_management is Some == old(self).explicit_resource_management is Some,
            erm_counter(final(self).explicit_resource_management) == erm_counter(old(self).explicit_resource_management),
            old(self).explicit_resource_management is None ==> final(items)@ == old(items)@,
            old(self).explicit_resource_management is Some ==> module_items_v(final(items)@) == program_rewritten(
                module_items_v(old(items)@),
            ),
    {
        match &mut self.explicit_resource_management {
            Some(erm) => erm.enter_module(items),
            None => {},
        }
    }

    /// `ExplicitResourceManagement::enter_script`, when enabled.
    pub fn enter_script(&mut self, body: &mut Vec<Stmt>, c: u32, e: u32)
        requires
            erm_counter(old(self).explicit_resource_management) < usize::MAX,
        ensures
            final(self).explicit_resource_management is Some == old(self).explicit_resource_management is Some,
            old(self).explicit_resource_management is None ==> final(body)@ == old(body)@,
            old(self).explicit_resource_management is Some ==> scope_rewritten(
                erm_counter(old(self).explicit_resource_management),
                stmts_v(old(body)@),
                erm_counter(final(self).explicit_resource_management),
                stmts_v(final(body)@),
                c,
                e,
            ),
    {
        match &mut self.explicit_resource_management {
            Some(erm) => erm.enter_script(body, c, e),
            None => {},
        }
    }

    /// `ExplicitResourceManagement::exit_static_block`, when enabled.
    pub fn exit_static_block(&mut self, body: &mut Vec<Stmt>, c: u32, e: u32)
        requires
            erm_counter(old(self).explicit_resource_management) < usize::MAX,
        ensures
            final(self).explicit_resource_management is Some == old(self).explicit_resource_management is Some,
            old(self).explicit_resource_management is None ==> final(body)@ == old(body)@,
            old(self).explicit_resource_management is Some ==> scope_rewritten(
                erm_counter(old(self).explicit_resource_management),
                stmts_v(old(body)@),
                erm_counter(final(self).explicit_resource_management),
                stmts_v(final(body)@),
                c,
                e,
            ),
    {
        match &mut self.explicit_resource_management {
            Some(erm) => erm.exit_static_block(body, c, e),
            None => {},
        }
    }

    /// `ExplicitResourceManagement::enter_stmt`, when enabled.
    pub fn enter_stmt(&mut self, stmt: &mut Stmt, c: u32, e: u32)
        requires
            erm_counter(old(self).explicit_resource_management) < usize::MAX,
        ensures
            final(self).explicit_resource_management is Some == old(self).explicit_resource_management is Some,
            old(self).explicit_resource_management is None || !stmt_has_using(stmt_v(*old(stmt)))
                ==> *final(stmt) == *old(stmt),
            old(self).explicit_resource_management is Some && stmt_has_using(stmt_v(*old(stmt))) ==> stmt_wrapped(
                stmt_v(*old(stmt)),
                erm_counter(final(self).explicit_resource_management),
                stmt_v(*final(stmt)),
                c,
                e,
            ),
    {
        match &mut self.explicit_resource_management {
            Some(erm) => erm.enter_stmt(stmt, c, e),
            None => {},
        }
    }

    /// `ExplicitResourceManagement::enter_for_of_stmt`, when enabled.
    pub fn enter_for_of_stmt(&mut self, f: &mut ForOfStmt, c: u32)
        requires
            erm_counter(old(self).explicit_resource_management) < usize::MAX,
        ensures
            final(self).explicit_resource_management is Some == old(self).explicit_resource_management is Some,
            old(self).explicit_resource_management is None || !for_of_has_using(for_of_v(*old(f)))
                ==> *final(f) == *old(f),
            old(self).explicit_resource_management is Some && for_of_has_using(for_of_v(*old(f))) ==> for_of_v(*final(f)) == for_of_rewritten(
                for_of_v(*old(f)),
                erm_counter(final(self).explicit_resource_management),
                c,
            ),
    {
        match &mut self.explicit_resource_management {
            Some(erm) => erm.enter_for_of_stmt(f, c),
            None => {},
        }
    }

    /// `ExplicitResourceManagement::enter_try_stmt`, when enabled.
    pub fn enter_try_stmt(&mut self, stmt: &mut Stmt, c: u32, e: u32)
        requires
            erm_counter(old(self).explicit_resource_management) < usize::MAX,
        ensures
            final(self).explicit_resource_management is Some == old(self).explicit_resource_management is Some,
            old(self).explicit_resource_management is None || !(*old(stmt) is Try) ==> *final(stmt) == *old(stmt),
            old(self).explicit_resource_management is Some && *old(stmt) is Try ==> *final(stmt) is Try
                && (*final(stmt))->Try_2 == (*old(stmt))->Try_2
                && (*final(stmt))->Try_3 == (*old(stmt))->Try_3
                && scope_rewritten(
                    erm_counter(old(self).explicit_resource_management),
                    stmts_v((*old(stmt))->Try_1@),
                    erm_counter(final(self).explicit_resource_management),
                    stmts_v((*final(stmt))->Try_1@),
                    c,
                    e,
                ),
    {
        match &mut self.explicit_resource_management {
            Some(erm) => erm.enter_try_stmt(stmt, c, e),
            None => {},
        }
    }

    /// `ExplicitResourceManagement::enter_function`, when enabled.
    pub fn enter_function(&mut self, func: &mut crate::ast::Function, c: u32, e: u32)
        requires
            erm_counter(old(self).explicit_resource_management) < usize::MAX,
        ensures
            final(self).explicit_resource_management is Some == old(self).explicit_resource_management is Some,
            old(self).explicit_resource_management is None || old(func).body is None ==> *final(func) == *old(func),
            old(self).explicit_resource_management is Some && old(func).body is Some ==> final(func).body is Some
                && final(func).params == old(func).params
                && scope_rewritten(
                    erm_counter(old(self).explicit_resource_management),
                    stmts_v(old(func).body->Some_0@),
                    erm_counter(final(self).explicit_resource_management),
                    stmts_v(final(func).body->Some_0@),
                    c,
                    e,
                ),
    {
        match &mut self.explicit_resource_management {
            Some(erm) => erm.enter_function(func, c, e),
            None => {},
        }
    }
}

/// After registering, a scope holds no `using` declaration: each became a
/// `const` one, in its place, and the others are kept.
pub proof fn lemma_no_using_left(stmts: Seq<StmtV>, ctx: IdentV)
    ensures
        rewrite_usings(stmts, ctx).len() == stmts.len(),
        !has_using(rewrite_usings(stmts, ctx)),
        forall|i: int| 0 <= i < stmts.len() && !is_using(#[trigger] stmts[i]) ==> rewrite_usings(stmts, ctx)[i] == stmts[i],
        using_body(stmts, ctx).len() == stmts.len() + 1,
        using_body(stmts, ctx)[0] == using_ctx_decl(ctx),
{
    let r = rewrite_usings(stmts, ctx);
    if has_using(r) {
        let i = choose|i: int| 0 <= i < r.len() && #[trigger] is_using(r[i]);
        assert(r[i] == rewrite_using(stmts[i], ctx));
    }
}

} // verus!
