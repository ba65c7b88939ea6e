//! `var` and `let` declarations that transforms add to the top of the
//! enclosing statement block.
//!
//! The store keeps one frame per statement block being visited; a transform
//! adds declarators to the innermost frame, and leaving the block turns the
//! frame into at most one `var` and one `let` statement in front of it.

use vstd::prelude::*;

use crate::ast::{dummy_sp, dummy_span, Decl, Expr, Ident, ModuleItem, Pat, Stmt, VarDecl, VarDeclKind, VarDeclarator};
use crate::ast_clone::clone_ident;
use crate::ast_view::{declarator_v, declarators_v, expr_v, ident_v, lemma_declarators_v, lemma_stmts_v, module_item_v, module_items_v, stmt_v, stmts_v, DeclV, IdentV, ModuleItemV, PatV, StmtV, VarDeclV, VarDeclaratorV};
use crate::context::TransformCtx;
use crate::text::{chars_of, push_char, push_str};

verus! {

/// The declarators waiting in one statement block.
pub struct Declarators {
    pub var_declarators: Vec<VarDeclarator>,
    pub let_declarators: Vec<VarDeclarator>,
}

/// The declarators of one frame, by kind.
pub struct DeclaratorsV {
    pub vars: Seq<VarDeclaratorV>,
    pub lets: Seq<VarDeclaratorV>,
}

pub open spec fn frame_v(f: Option<Declarators>) -> Option<DeclaratorsV> {
    match f {
        Some(d) => Some(
            DeclaratorsV {
                vars: declarators_v(d.var_declarators@),
                lets: declarators_v(d.let_declarators@),
            },
        ),
        None => None,
    }
}

/// A declaration statement of `kind` with `decls`.
pub open spec fn declaration_v(kind: VarDeclKind, decls: Seq<VarDeclaratorV>) -> StmtV {
    StmtV::Decl(DeclV::Var(VarDeclV { span: dummy_span(), kind, decls }))
}

/// The statements a frame becomes: a `var` statement if it has `var`
/// declarators, then a `let` statement if it has `let` ones.
pub open spec fn frame_statements(d: DeclaratorsV) -> (Option<StmtV>, Option<StmtV>) {
    (
        if d.vars.len() > 0 { Some(declaration_v(VarDeclKind::Var, d.vars)) } else { None },
        if d.lets.len() > 0 { Some(declaration_v(VarDeclKind::Let, d.lets)) } else { None },
    )
}

/// The statements of a popped frame, in order.
pub open spec fn statements_of(p: (Option<StmtV>, Option<StmtV>)) -> Seq<StmtV> {
    let a = match p.0 { Some(s) => seq![s], None => Seq::empty() };
    let b = match p.1 { Some(s) => seq![s], None => Seq::empty() };
    a + b
}

/// Whether a frame holds a declarator.
pub open spec fn is_pending(f: Option<DeclaratorsV>) -> bool {
    match f {
        Some(d) => d.vars.len() > 0 || d.lets.len() > 0,
        None => false,
    }
}

/// Whether the innermost of `frames` holds a declarator.
pub open spec fn top_pending(frames: Seq<Option<DeclaratorsV>>) -> bool {
    frames.len() > 0 && is_pending(frames.last())
}

/// The name of a generated binding: `name` itself if it starts with `_`,
/// else `_` and `name`.
pub open spec fn uid_name(name: Seq<char>) -> Seq<char> {
    if name.len() > 0 && name[0] == '_' { name } else { seq!['_'] + name }
}

/// Whether a module item is a block statement.
pub open spec fn is_block_item(i: ModuleItemV) -> bool {
    i matches ModuleItemV::Stmt(StmtV::Block(_, _))
}

/// The index of the first block statement of a module body, or its length.
pub open spec fn first_block(items: Seq<ModuleItemV>) -> int
    decreases items.len(),
{
    if items.len() == 0 {
        0
    } else if is_block_item(items[0]) {
        0
    } else {
        1 + first_block(items.drop_first())
    }
}

/// `stmts` with the statements of the innermost frame in front, when it
/// holds a declarator.
pub open spec fn with_declarations(frames: Seq<Option<DeclaratorsV>>, stmts: Seq<StmtV>) -> Seq<StmtV> {
    if top_pending(frames) {
        statements_of(frame_statements(frames.last()->Some_0)) + stmts
    } else {
        stmts
    }
}

/// The frames without the innermost one.
pub open spec fn popped(frames: Seq<Option<DeclaratorsV>>) -> Seq<Option<DeclaratorsV>> {
    if frames.len() > 0 { frames.drop_last() } else { frames }
}

/// A module body and frames after the innermost frame's declarations are
/// put in front of the body's first block statement, with that frame
/// closed; without a block statement they go in front of the body.
pub open spec fn declarations_into_first_block(
    items: Seq<ModuleItemV>,
    frames: Seq<Option<DeclaratorsV>>,
) -> (Seq<ModuleItemV>, Seq<Option<DeclaratorsV>>) {
    let k = first_block(items);
    if 0 <= k < items.len() {
        match items[k] {
            ModuleItemV::Stmt(StmtV::Block(sp, b)) => (
                items.update(k, ModuleItemV::Stmt(StmtV::Block(sp, with_declarations(frames, b)))),
                popped(frames),
            ),
            _ => (items, frames),
        }
    } else {
        (
            with_declarations(frames, Seq::empty()).map_values(|st: StmtV| ModuleItemV::Stmt(st)) + items,
            popped(frames),
        )
    }
}

proof fn lemma_first_block(items: Seq<ModuleItemV>, k: int)
    requires
        0 <= k <= items.len(),
        forall|j: int| 0 <= j < k ==> !is_block_item(#[trigger] items[j]),
        k == items.len() || is_block_item(items[k]),
    ensures
        first_block(items) == k,
    decreases k,
{
    if k > 0 {
        let t = items.drop_first();
        assert(!is_block_item(items[0]));
        assert forall|j: int| 0 <= j < k - 1 implies !is_block_item(#[trigger] t[j]) by {
            assert(t[j] == items[j + 1]);
        }
        if k < items.len() {
            assert(t[k - 1] == items[k]);
        }
        lemma_first_block(t, k - 1);
    }
}

pub proof fn lemma_svs_stmts_v(s: Seq<Stmt>)
    ensures
        crate::statement_injector::svs(s) == stmts_v(s),
{
    lemma_stmts_v(s);
    assert(crate::statement_injector::svs(s) =~= stmts_v(s));
}

/// Frames of declarators waiting for their statement blocks.
pub struct VarDeclarationsStore {
    pub stack: Vec<Option<Declarators>>,
}

impl VarDeclarationsStore {
    /// The frames, innermost last.
    pub open spec fn frames(&self) -> Seq<Option<DeclaratorsV>> {
        self.stack@.map_values(|f: Option<Declarators>| frame_v(f))
    }

    /// `frames` after adding `d` to the `var` (`is_var`) or `let`
    /// declarators of the innermost frame; with no frame, nothing changes.
    pub open spec fn spec_add(frames: Seq<Option<DeclaratorsV>>, d: VarDeclaratorV, is_var: bool) -> Seq<Option<DeclaratorsV>> {
        if frames.len() == 0 {
            frames
        } else {
            let top = match frames.last() {
                Some(t) => t,
                None => DeclaratorsV { vars: Seq::empty(), lets: Seq::empty() },
            };
            let top2 = if is_var {
                DeclaratorsV { vars: top.vars.push(d), ..top }
            } else {
                DeclaratorsV { lets: top.lets.push(d), ..top }
            };
            frames.update(frames.len() - 1, Some(top2))
        }
    }

    pub fn new() -> (s: Self)
        ensures
            s.frames().len() == 0,
    {
        VarDeclarationsStore { stack: Vec::new() }
    }

    /// Opens a frame for a statement block being entered.
    pub fn record_entering_statements(&mut self)
        ensures
            final(self).frames() == old(self).frames().push(None),
    {
        self.stack.push(None);
        assert(self.frames() =~= old(self).frames().push(None));
    }

    fn insert_declarator(&mut self, declarator: VarDeclarator, is_var: bool)
        ensures
            final(self).frames() == Self::spec_add(old(self).frames(), declarator_v(declarator), is_var),
    {
        let n = self.stack.len();
        if n == 0 {
            return;
        }
        let mut top: Option<Declarators> = None;
        self.stack.set_and_swap(n - 1, &mut top);
        let mut d = match top {
            Some(d) => d,
            None => Declarators { var_declarators: Vec::new(), let_declarators: Vec::new() },
        };
        proof {
            lemma_declarators_v(d.var_declarators@);
            lemma_declarators_v(d.let_declarators@);
        }
        let ghost v0 = d.var_declarators@;
        let ghost l0 = d.let_declarators@;
        if is_var {
            d.var_declarators.push(declarator);
            assert(d.var_declarators@.subrange(0, d.var_declarators@.len() - 1) =~= v0);
        } else {
            d.let_declarators.push(declarator);
            assert(d.let_declarators@.subrange(0, d.let_declarators@.len() - 1) =~= l0);
        }
        let mut top2 = Some(d);
        self.stack.set_and_swap(n - 1, &mut top2);
        proof {
            assert(declarators_v(Seq::<VarDeclarator>::empty()) =~= Seq::<VarDeclaratorV>::empty());
            assert(self.frames() =~= Self::spec_add(old(self).frames(), declarator_v(declarator), is_var));
        }
    }

    /// Adds a `var` declarator to the innermost frame.
    pub fn insert_var_declarator(&mut self, declarator: VarDeclarator)
        ensures
            final(self).frames() == Self::spec_add(old(self).frames(), declarator_v(declarator), true),
    {
        self.insert_declarator(declarator, true);
    }

    /// Adds a `let` declarator to the innermost frame.
    pub fn insert_let_declarator(&mut self, declarator: VarDeclarator)
        ensures
            final(self).frames() == Self::spec_add(old(self).frames(), declarator_v(declarator), false),
    {
        self.insert_declarator(declarator, false);
    }

    /// Adds `var pattern = init` to the innermost frame.
    pub fn insert_var_binding_pattern(&mut self, pattern: Pat, init: Option<Box<Expr>>)
        ensures
            final(self).frames() == Self::spec_add(
                old(self).frames(),
                declarator_v(VarDeclarator { name: pattern, init }),
                true,
            ),
    {
        self.insert_var_declarator(VarDeclarator { name: pattern, init });
    }

    /// Adds `let pattern = init` to the innermost frame.
    pub fn insert_let_binding_pattern(&mut self, pattern: Pat, init: Option<Box<Expr>>)
        ensures
            final(self).frames() == Self::spec_add(
                old(self).frames(),
                declarator_v(VarDeclarator { name: pattern, init }),
                false,
            ),
    {
        self.insert_let_declarator(VarDeclarator { name: pattern, init });
    }

    /// Adds `var binding = init` to the innermost frame.
    pub fn insert_var(&mut self, binding: &Ident, init: Option<Box<Expr>>)
        ensures
            final(self).frames() == Self::spec_add(
                old(self).frames(),
                VarDeclaratorV {
                    name: PatV::Ident(ident_v(*binding)),
                    init: match init { Some(e) => Some(Box::new(expr_v(*e))), None => None },
                },
                true,
            ),
    {
        let b = clone_ident(binding);
        self.insert_var_binding_pattern(Pat::Ident(b), init);
    }

    /// Adds `var binding = init` to the innermost frame.
    pub fn insert_var_with_init(&mut self, binding: &Ident, init: Box<Expr>)
        ensures
            final(self).frames() == Self::spec_add(
                old(self).frames(),
                VarDeclaratorV { name: PatV::Ident(ident_v(*binding)), init: Some(Box::new(expr_v(*init))) },
                true,
            ),
    {
        self.insert_var(binding, Some(init));
    }

    /// Adds `let binding = init` to the innermost frame.
    pub fn insert_let(&mut self, binding: &Ident, init: Option<Box<Expr>>)
        ensures
            final(self).frames() == Self::spec_add(
                old(self).frames(),
                VarDeclaratorV {
                    name: PatV::Ident(ident_v(*binding)),
                    init: match init { Some(e) => Some(Box::new(expr_v(*e))), None => None },
                },
                false,
            ),
    {
        let b = clone_ident(binding);
        self.insert_let_binding_pattern(Pat::Ident(b), init);
    }

    /// Declares a binding named after `name` with `var` in the innermost
    /// frame and returns it.
    pub fn create_uid_var(&mut self, name: &str, ctx: &TransformCtx) -> (binding: Ident)
        ensures
            ident_v(binding) == (IdentV { sym: uid_name(name@), ctxt: 0, span: dummy_span() }),
            final(self).frames() == Self::spec_add(
                old(self).frames(),
                VarDeclaratorV { name: PatV::Ident(ident_v(binding)), init: None },
                true,
            ),
    {
        let binding = create_uid_binding(name, ctx);
        self.insert_var(&binding, None);
        binding
    }

    /// Declares a binding named after `name` with `var` and the initializer
    /// `expression` in the innermost frame and returns it.
    pub fn create_uid_var_with_init(&mut self, name: &str, expression: Box<Expr>, ctx: &TransformCtx) -> (binding: Ident)
        ensures
            ident_v(binding) == (IdentV { sym: uid_name(name@), ctxt: 0, span: dummy_span() }),
            final(self).frames() == Self::spec_add(
                old(self).frames(),
                VarDeclaratorV { name: PatV::Ident(ident_v(binding)), init: Some(Box::new(expr_v(*expression))) },
                true,
            ),
    {
        let binding = create_uid_binding(name, ctx);
        self.insert_var_with_init(&binding, expression);
        binding
    }

    /// Closes the innermost frame: `None` when there is no frame or the
    /// frame is empty, else its `var` and `let` statements.
    pub fn get_var_statement(&mut self) -> (r: Option<(Option<Stmt>, Option<Stmt>)>)
        ensures
            final(self).frames() == if old(self).frames().len() > 0 {
                old(self).frames().drop_last()
            } else {
                old(self).frames()
            },
            match r {
                None => old(self).frames().len() == 0 || old(self).frames().last() is None,
                Some(p) => old(self).frames().len() > 0 && old(self).frames().last() is Some
                    && frame_statements(old(self).frames().last()->Some_0) == (
                        match p.0 { Some(s) => Some(stmt_v(s)), None => None },
                        match p.1 { Some(s) => Some(stmt_v(s)), None => None },
                    ),
            },
    {
        let ghost f0 = self.frames();
        match self.stack.pop() {
            None => {
                None
            },
            Some(top) => {
                assert(self.frames() =~= f0.drop_last());
                match top {
                    None => None,
                    Some(d) => {
                        let v = if d.var_declarators.len() > 0 {
                            Some(create_declaration(VarDeclKind::Var, d.var_declarators))
                        } else {
                            None
                        };
                        let l = if d.let_declarators.len() > 0 {
                            Some(create_declaration(VarDeclKind::Let, d.let_declarators))
                        } else {
                            None
                        };
                        proof {
                            lemma_declarators_v(d.var_declarators@);
                            lemma_declarators_v(d.let_declarators@);
                        }
                        Some((v, l))
                    },
                }
            },
        }
    }

    /// Closes the innermost frame and puts its statements in front of
    /// `stmts`; returns whether it added any.
    pub fn insert_into_statements(&mut self, stmts: &mut Vec<Stmt>) -> (added: bool)
        ensures
            final(self).frames() == if old(self).frames().len() > 0 {
                old(self).frames().drop_last()
            } else {
                old(self).frames()
            },
            ({
                let f = old(self).frames();
                if top_pending(f) {
                    &&& added
                    &&& crate::statement_injector::svs(final(stmts)@) == statements_of(frame_statements(f.last()->Some_0))
                        + crate::statement_injector::svs(old(stmts)@)
                } else {
                    &&& !added
                    &&& *final(stmts) == *old(stmts)
                }
            }),
    {
        let ghost s0 = stmts@;
        match self.get_var_statement() {
            Some(p) => {
                let (v, l) = p;
                let mut new_stmts: Vec<Stmt> = Vec::new();
                let added = match (v, l) {
                    (Some(a), Some(b)) => {
                        new_stmts.push(a);
                        new_stmts.push(b);
                        true
                    },
                    (Some(a), None) => {
                        new_stmts.push(a);
                        true
                    },
                    (None, Some(b)) => {
                        new_stmts.push(b);
                        true
                    },
                    (None, None) => false,
                };
                if !added {
                    return false;
                }
                let ghost n0 = new_stmts@;
                new_stmts.append(stmts);
                proof {
                    assert(crate::statement_injector::svs(new_stmts@) =~= crate::statement_injector::svs(n0)
                        + crate::statement_injector::svs(s0));
                    let d = old(self).frames().last()->Some_0;
                    assert(crate::statement_injector::svs(n0) =~= statements_of(frame_statements(d)));
                }
                *stmts = new_stmts;
                true
            },
            None => false,
        }
    }

    /// Puts the innermost frame's declarations in front of the first block
    /// statement of a module body and closes the frame, as
    /// `declarations_into_first_block` says; a body without a block
    /// statement is left as it is.
    pub fn insert_into_first_block(&mut self, body: &mut Vec<ModuleItem>)
        ensures
            (module_items_v(final(body)@), final(self).frames()) == declarations_into_first_block(
                module_items_v(old(body)@),
                old(self).frames(),
            ),
    {
        let ghost items0 = module_items_v(body@);
        let mut i: usize = 0;
        while i < body.len()
            invariant
                i <= body.len(),
                body@ == old(body)@,
                *self == *old(self),
                items0 == module_items_v(body@),
                forall|j: int| 0 <= j < i ==> !is_block_item(#[trigger] items0[j]),
            decreases body.len() - i,
        {
            let is_block = match &body[i] {
                ModuleItem::Stmt(Stmt::Block(_, _)) => true,
                _ => false,
            };
            assert(items0[i as int] == module_item_v(body@[i as int]));
            if is_block {
                proof {
                    lemma_first_block(items0, i as int);
                }
                let mut item = ModuleItem::Stmt(Stmt::Empty(dummy_sp()));
                body.set_and_swap(i, &mut item);
                match item {
                    ModuleItem::Stmt(Stmt::Block(sp, mut stmts)) => {
                        let ghost b0 = stmts@;
                        self.insert_into_statements(&mut stmts);
                        proof {
                            lemma_svs_stmts_v(b0);
                            lemma_svs_stmts_v(stmts@);
                        }
                        item = ModuleItem::Stmt(Stmt::Block(sp, stmts));
                    },
                    _ => {},
                }
                body.set_and_swap(i, &mut item);
                assert(module_items_v(body@) =~= declarations_into_first_block(items0, old(self).frames()).0);
                return;
            }
            i += 1;
        }
        proof {
            lemma_first_block(items0, i as int);
        }
        let ghost f0 = self.frames();
        let mut decls: Vec<Stmt> = Vec::new();
        self.insert_into_statements(&mut decls);
        let ghost ds = decls@;
        proof {
            lemma_svs_stmts_v(Seq::<Stmt>::empty());
            lemma_svs_stmts_v(ds);
            lemma_stmts_v(ds);
            assert(stmts_v(ds) == with_declarations(f0, Seq::empty()));
        }
        let mut items: Vec<ModuleItem> = Vec::new();
        while decls.len() > 0
            invariant
                items@.len() + decls@.len() == ds.len(),
                decls@ == ds.skip(items@.len() as int),
                forall|j: int| 0 <= j < items@.len() ==> #[trigger] module_item_v(items@[j]) == ModuleItemV::Stmt(stmt_v(ds[j])),
            decreases decls@.len(),
        {
            let ghost k = items@.len();
            let st = decls.remove(0);
            assert(st == ds[k as int]);
            items.push(ModuleItem::Stmt(st));
            assert(decls@ =~= ds.skip(items@.len() as int));
        }
        let ghost made = items@;
        items.append(body);
        *body = items;
        proof {
            let want = with_declarations(f0, Seq::empty()).map_values(|st: StmtV| ModuleItemV::Stmt(st));
            assert(module_items_v(made) =~= want);
            assert(module_items_v(body@) =~= want + items0);
        }
    }

    /// Whether some frame holds a declarator.
    pub fn has_pending_declarations(&self) -> (b: bool)
        ensures
            b == exists|i: int| 0 <= i < self.frames().len() && is_pending(#[trigger] self.frames()[i]),
    {
        let mut i: usize = 0;
        while i < self.stack.len()
            invariant
                i <= self.stack.len(),
                forall|j: int| 0 <= j < i ==> !is_pending(#[trigger] self.frames()[j]),
            decreases self.stack.len() - i,
        {
            match &self.stack[i] {
                Some(d) => {
                    proof {
                        lemma_declarators_v(d.var_declarators@);
                        lemma_declarators_v(d.let_declarators@);
                    }
                    assert(self.frames()[i as int] == frame_v(self.stack@[i as int]));
                    if d.var_declarators.len() > 0 || d.let_declarators.len() > 0 {
                        return true;
                    }
                },
                None => {
                    assert(self.frames()[i as int] == frame_v(self.stack@[i as int]));
                },
            }
            i += 1;
        }
        false
    }

    /// Closes the innermost frame and returns its statements, `None` when
    /// there are none.
    pub fn get_top_level_statements(&mut self) -> (r: Option<Vec<Stmt>>)
        ensures
            final(self).frames() == if old(self).frames().len() > 0 {
                old(self).frames().drop_last()
            } else {
                old(self).frames()
            },
            ({
                let f = old(self).frames();
                if top_pending(f) {
                    r is Some && crate::statement_injector::svs(r->Some_0@) == statements_of(frame_statements(f.last()->Some_0))
                } else {
                    r is None
                }
            }),
    {
        match self.get_var_statement() {
            None => None,
            Some(p) => {
                let (v, l) = p;
                let mut stmts: Vec<Stmt> = Vec::new();
                match v {
                    Some(s) => stmts.push(s),
                    None => {},
                }
                match l {
                    Some(s) => stmts.push(s),
                    None => {},
                }
                proof {
                    let d = old(self).frames().last()->Some_0;
                    assert(crate::statement_injector::svs(stmts@) =~= statements_of(frame_statements(d)));
                }
                if stmts.len() == 0 {
                    None
                } else {
                    Some(stmts)
                }
            },
        }
    }
}

/// `kind` declarations of `declarators`.
fn create_declaration(kind: VarDeclKind, declarators: Vec<VarDeclarator>) -> (s: Stmt)
    ensures
        stmt_v(s) == declaration_v(kind, declarators_v(declarators@)),
{
    Stmt::Decl(Decl::Var(VarDecl { span: dummy_sp(), kind, decls: declarators }))
}

/// A binding named `name` if it starts with `_`, else `_` and `name`.
fn create_uid_binding(name: &str, _ctx: &TransformCtx) -> (b: Ident)
    ensures
        ident_v(b) == (IdentV { sym: uid_name(name@), ctxt: 0, span: dummy_span() }),
{
    let cs = chars_of(name);
    let mut sym = String::new();
    if !(cs.len() > 0 && cs[0] == '_') {
        push_char(&mut sym, '_');
    }
    push_str(&mut sym, name);
    assert(sym@ =~= uid_name(name@));
    Ident { sym, ctxt: 0, span: dummy_sp() }
}

/// What the store is for: in a block just entered, a `var` declarator
/// added and then the block left gives one `var` statement holding that
/// declarator, put in front of the block's statements, and the frames are
/// back to what they were before the block.
pub proof fn lemma_var_lands_on_top(frames: Seq<Option<DeclaratorsV>>, d: VarDeclaratorV)
    ensures
        ({
            let f = VarDeclarationsStore::spec_add(frames.push(None), d, true);
            &&& top_pending(f)
            &&& f.drop_last() == frames
            &&& statements_of(frame_statements(f.last()->Some_0)) == seq![declaration_v(VarDeclKind::Var, seq![d])]
        }),
{
    let f0 = frames.push(None);
    let f = VarDeclarationsStore::spec_add(f0, d, true);
    let top = DeclaratorsV { vars: Seq::<VarDeclaratorV>::empty().push(d), lets: Seq::empty() };
    assert(f == f0.update(f0.len() - 1, Some(top)));
    assert(f.drop_last() =~= frames);
    assert(top.vars =~= seq![d]);
    assert(statements_of(frame_statements(top)) =~= seq![declaration_v(VarDeclKind::Var, seq![d])]);
}

impl Default for VarDeclarationsStore {
    /// As `new`.
    fn default() -> (s: Self)
        ensures
            s.frames().len() == 0,
    {
        Self::new()
    }
}

} // verus!
