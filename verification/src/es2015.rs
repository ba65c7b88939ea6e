//! ES2015: arrow functions. `(a) => e` becomes `function (a) { return e; }`
//! and `(a) => { .. }` becomes `function (a) { .. }`. A `this` the arrow
//! function reaches becomes `_this`, and `var _this = this` is declared
//! at the front of the function that binds that `this`, or in the module
//! when no function does.

use vstd::prelude::*;

use crate::ast::{dummy_sp, ArrowBody, ArrowExpr, Decl, Expr, Function, Ident, ModuleItem, Pat, Stmt, VarDecl, VarDeclKind, VarDeclarator};
use crate::ast_build::gen_ident;
use crate::this_binding::{this_arrow, this_replaced_arrow};

use crate::ast_clone::take_expr;
use crate::ast_view::{arrow_v, expr_v, function_v, lemma_declarators_v_push, lemma_stmts_v, module_items_v, stmt_v, stmts_v, ArrowBodyV, ArrowExprV, DeclV, ExprV, FunctionV, IdentV, PatV, StmtV, VarDeclV, VarDeclaratorV};
use crate::context::TransformCtx;
use crate::text::{make_uid, uid_v};
use crate::var_declarations::{declarations_into_first_block, lemma_svs_stmts_v, popped, with_declarations, DeclaratorsV, VarDeclarationsStore};

verus! {

/// Options of the arrow function transform.
#[derive(Clone, Copy, Debug)]
pub struct ArrowFunctionsOptions {
    /// Bind `this` with `.bind(this)` and name the functions (not used yet).
    pub spec: bool,
}

impl Default for ArrowFunctionsOptions {
    fn default() -> (o: Self)
        ensures
            !o.spec,
    {
        ArrowFunctionsOptions { spec: false }
    }
}

/// Which ES2015 features are transformed.
#[derive(Clone, Copy, Debug)]
pub struct ES2015Options {
    pub arrow_function: Option<ArrowFunctionsOptions>,
}

impl Default for ES2015Options {
    fn default() -> (o: Self)
        ensures
            o.arrow_function is None,
    {
        ES2015Options { arrow_function: None }
    }
}

/// The function expression that an arrow function becomes.
pub open spec fn arrow_to_function_v(a: ArrowExprV) -> ExprV {
    ExprV::Fn(
        None,
        FunctionV {
            span: a.span,
            params: a.params,
            body: Some(
                match a.body {
                    ArrowBodyV::Block(b) => b,
                    ArrowBodyV::Expr(e) => seq![StmtV::Return(crate::ast::dummy_span(), Some(e))],
                },
            ),
            is_async: a.is_async,
            is_generator: a.is_generator,
        },
    )
}

/// The name of the `this` binding of `af`: the one it made, or else the
/// next generated name.
pub open spec fn this_binding_name(af: ArrowFunctions) -> Seq<char> {
    match af.this_var_name {
        Some(n) => n@,
        None => uid_v("this"@, (af.uid_counter + 1) as nat),
    }
}

/// The frames after `var name = this` is added to the innermost one, when
/// a `this` binding is needed and has a name.
pub open spec fn this_binding_added(
    frames: Seq<Option<DeclaratorsV>>,
    needed: bool,
    name: Option<String>,
) -> Seq<Option<DeclaratorsV>> {
    match name {
        Some(n) => if needed {
            VarDeclarationsStore::spec_add(
                frames,
                VarDeclaratorV {
                    name: PatV::Ident(IdentV { sym: n@, ctxt: 0, span: crate::ast::dummy_span() }),
                    init: Some(Box::new(ExprV::This)),
                },
                true,
            )
        } else {
            frames
        },
        None => frames,
    }
}

/// `var name = this;`.
pub open spec fn this_declaration(name: Seq<char>) -> StmtV {
    StmtV::Decl(
        DeclV::Var(
            VarDeclV {
                span: crate::ast::dummy_span(),
                kind: VarDeclKind::Var,
                decls: seq![VarDeclaratorV { name: PatV::Ident(gen_ident(name)), init: Some(Box::new(ExprV::This)) }],
            },
        ),
    )
}

/// A function as it leaves the transform: with `var name = this` at the
/// front of its body when an arrow function inside it needed the binding.
pub open spec fn with_this_declared(f: FunctionV, needed: bool, name: Option<String>) -> FunctionV {
    if needed && name is Some && f.body is Some {
        FunctionV { body: Some(seq![this_declaration(name->Some_0@)] + f.body->Some_0), ..f }
    } else {
        f
    }
}

/// `var name = this;` as a statement.
fn this_declaration_stmt(name: &String) -> (s: Stmt)
    ensures
        stmt_v(s) == this_declaration(name@),
{
    let d = VarDeclarator {
        name: Pat::Ident(Ident { sym: name.clone(), ctxt: 0, span: dummy_sp() }),
        init: Some(Box::new(Expr::This)),
    };
    let decls = vec![d];
    proof {
        lemma_declarators_v_push(Seq::<VarDeclarator>::empty(), d);
        assert(decls@ =~= Seq::<VarDeclarator>::empty().push(d));
    }
    Stmt::Decl(Decl::Var(VarDecl { span: dummy_sp(), kind: VarDeclKind::Var, decls }))
}

/// The rewrite of arrow functions.
pub struct ArrowFunctions {
    pub options: ArrowFunctionsOptions,
    /// Whether a `var _this = this` is needed.
    pub needs_this_binding: bool,
    pub var_declarations: VarDeclarationsStore,
    pub uid_counter: usize,
    /// How many functions enclose the current node.
    pub function_depth: usize,
    /// The name of the `this` binding, once made.
    pub this_var_name: Option<String>,
    /// For each function that encloses the current node, from the
    /// outermost: whether the binding was needed outside it, and its name
    /// there.
    pub this_scopes: Vec<(bool, Option<String>)>,
}

impl ArrowFunctions {
    pub fn new(options: ArrowFunctionsOptions, _ctx: &TransformCtx) -> (s: Self)
        ensures
            s.options == options,
            !s.needs_this_binding,
            s.uid_counter == 0,
            s.function_depth == 0,
            s.this_var_name is None,
            s.this_scopes@.len() == 0,
            s.var_declarations.frames().len() == 0,
    {
        ArrowFunctions {
            options,
            needs_this_binding: false,
            var_declarations: VarDeclarationsStore::new(),
            uid_counter: 0,
            function_depth: 0,
            this_var_name: None,
            this_scopes: Vec::new(),
        }
    }

    /// The next name made from `base_name`.
    pub fn generate_uid(&mut self, base_name: &str) -> (s: String)
        requires
            old(self).uid_counter < usize::MAX,
        ensures
            final(self).uid_counter == old(self).uid_counter + 1,
            s@ == uid_v(base_name@, final(self).uid_counter as nat),
            final(self).this_var_name == old(self).this_var_name,
    {
        self.uid_counter = self.uid_counter + 1;
        make_uid(base_name, self.uid_counter)
    }

    /// The name of the `this` binding, made on first use.
    pub fn get_this_var_name(&mut self) -> (s: String)
        requires
            old(self).uid_counter < usize::MAX,
        ensures
            match old(self).this_var_name {
                Some(n) => s@ == n@ && final(self).uid_counter == old(self).uid_counter
                    && final(self).this_var_name == old(self).this_var_name,
                None => s@ == uid_v("this"@, final(self).uid_counter as nat)
                    && final(self).uid_counter == old(self).uid_counter + 1
                    && final(self).this_var_name is Some && final(self).this_var_name->Some_0@ == s@,
            },
    {
        match &self.this_var_name {
            Some(name) => name.clone(),
            None => {
                let name = self.generate_uid("this");
                self.this_var_name = Some(name.clone());
                name
            },
        }
    }

    /// The function expression that `arrow` becomes.
    fn transform_arrow_function(&mut self, arrow: ArrowExpr) -> (e: Expr)
        ensures
            *final(self) == *old(self),
            expr_v(e) == arrow_to_function_v(arrow_v(arrow)),
    {
        let ghost av = arrow_v(arrow);
        let ghost want = arrow_to_function_v(av);
        let ghost bodyv = match av.body {
            ArrowBodyV::Block(b) => b,
            ArrowBodyV::Expr(e) => seq![StmtV::Return(crate::ast::dummy_span(), Some(e))],
        };
        let ArrowExpr { span, params, body, is_async, is_generator } = arrow;
        let ghost pv = crate::ast_view::pats_v(params@);
        assert(av.params == pv);
        let block: Vec<Stmt> = match body {
            ArrowBody::Block(b) => {
                assert(bodyv == stmts_v(b@));
                b
            },
            ArrowBody::Expr(e) => {
                let ghost ev = expr_v(*e);
                let v = vec![Stmt::Return(dummy_sp(), Some(e))];
                proof {
                    let s = v@;
                    assert(s.subrange(0, 0) =~= Seq::<Stmt>::empty());
                    assert(stmts_v(Seq::<Stmt>::empty()) =~= Seq::<StmtV>::empty());
                    assert(crate::ast_view::stmt_v(s[0]) == StmtV::Return(crate::ast::dummy_span(), Some(Box::new(ev))));
                    assert(stmts_v(s) =~= seq![crate::ast_view::stmt_v(s[0])]);
                    assert(bodyv == stmts_v(s));
                }
                v
            },
        };
        let f = Function { span, params, body: Some(block), is_async, is_generator };
        assert(function_v(f) == FunctionV { span: av.span, params: pv, body: Some(bodyv), is_async: av.is_async, is_generator: av.is_generator });
        let r = Expr::Fn(None, f);
        assert(expr_v(r) == want);
        r
    }

    /// Turns an arrow function into a function expression once its children
    /// have been visited. Each `this` the arrow function reaches becomes
    /// the `this` binding, whose name is made here on first use and which
    /// is then marked needed.
    pub fn exit_expr(&mut self, expr: &mut Expr)
        requires
            old(self).uid_counter < usize::MAX,
        ensures
            final(self).options == old(self).options,
            final(self).var_declarations == old(self).var_declarations,
            final(self).function_depth == old(self).function_depth,
            match expr_v(*old(expr)) {
                ExprV::Arrow(a) => {
                    let t = gen_ident(this_binding_name(*old(self)));
                    let found = this_arrow(a, t) != a;
                    &&& expr_v(*final(expr)) == arrow_to_function_v(this_arrow(a, t))
                    &&& final(self).needs_this_binding == (old(self).needs_this_binding || found)
                    &&& if found && old(self).this_var_name is None {
                        &&& final(self).uid_counter == old(self).uid_counter + 1
                        &&& final(self).this_var_name is Some
                        &&& final(self).this_var_name->Some_0@ == this_binding_name(*old(self))
                    } else {
                        &&& final(self).uid_counter == old(self).uid_counter
                        &&& final(self).this_var_name == old(self).this_var_name
                    }
                },
                _ => *final(expr) == *old(expr) && *final(self) == *old(self),
            },
    {
        let is_arrow = match expr {
            Expr::Arrow(_) => true,
            _ => false,
        };
        if is_arrow {
            let e = take_expr(expr);
            match e {
                Expr::Arrow(a) => {
                    let name: String = match &self.this_var_name {
                        Some(n) => n.clone(),
                        None => make_uid("this", self.uid_counter + 1),
                    };
                    let t = Ident { sym: name.clone(), ctxt: 0, span: dummy_sp() };
                    let (a2, found) = this_replaced_arrow(&a, &t);
                    if found {
                        self.needs_this_binding = true;
                        if self.this_var_name.is_none() {
                            self.uid_counter = self.uid_counter + 1;
                            self.this_var_name = Some(name);
                        }
                    }
                    *expr = self.transform_arrow_function(a2);
                },
                other => {
                    *expr = other;
                },
            }
        }
    }

    pub fn enter_fn_decl(&mut self)
        requires
            old(self).function_depth < usize::MAX,
        ensures
            final(self).function_depth == old(self).function_depth + 1,
    {
        self.function_depth = self.function_depth + 1;
    }

    pub fn exit_fn_decl(&mut self)
        requires
            old(self).function_depth > 0,
        ensures
            final(self).function_depth == old(self).function_depth - 1,
    {
        self.function_depth = self.function_depth - 1;
    }

    pub fn enter_fn_expr(&mut self)
        requires
            old(self).function_depth < usize::MAX,
        ensures
            final(self).function_depth == old(self).function_depth + 1,
    {
        self.function_depth = self.function_depth + 1;
    }

    pub fn exit_fn_expr(&mut self)
        requires
            old(self).function_depth > 0,
        ensures
            final(self).function_depth == old(self).function_depth - 1,
    {
        self.function_depth = self.function_depth - 1;
    }

    /// Enters a function, which binds its own `this`: the binding of the
    /// scope outside it is set aside, and the function starts without one.
    pub fn enter_function(&mut self)
        ensures
            final(self).this_scopes@ == old(self).this_scopes@.push(
                (old(self).needs_this_binding, old(self).this_var_name),
            ),
            !final(self).needs_this_binding,
            final(self).this_var_name is None,
            final(self).uid_counter == old(self).uid_counter,
            final(self).function_depth == old(self).function_depth,
            final(self).options == old(self).options,
            final(self).var_declarations == old(self).var_declarations,
    {
        let mut name: Option<String> = None;
        std::mem::swap(&mut name, &mut self.this_var_name);
        self.this_scopes.push((self.needs_this_binding, name));
        self.needs_this_binding = false;
    }

    /// Leaves a function: `var _this = this` (under the binding's name) is
    /// put at the front of its body when an arrow function inside it needed
    /// the binding, as `with_this_declared` says, and the binding of the
    /// scope outside it comes back.
    pub fn exit_function(&mut self, func: &mut Function)
        requires
            old(self).this_scopes@.len() > 0,
        ensures
            function_v(*final(func)) == with_this_declared(
                function_v(*old(func)),
                old(self).needs_this_binding,
                old(self).this_var_name,
            ),
            final(self).this_scopes@ == old(self).this_scopes@.drop_last(),
            (final(self).needs_this_binding, final(self).this_var_name) == old(self).this_scopes@.last(),
            final(self).uid_counter == old(self).uid_counter,
            final(self).function_depth == old(self).function_depth,
            final(self).options == old(self).options,
            final(self).var_declarations == old(self).var_declarations,
    {
        let ghost f0 = function_v(*func);
        if self.needs_this_binding {
            match (&self.this_var_name, &mut func.body) {
                (Some(name), Some(body)) => {
                    let decl = this_declaration_stmt(name);
                    let ghost b0 = body@;
                    body.insert(0, decl);
                    proof {
                        lemma_stmts_v(b0);
                        lemma_stmts_v(body@);
                        assert(stmts_v(body@) =~= seq![this_declaration(name@)] + stmts_v(b0));
                    }
                },
                _ => {},
            }
        }
        match self.this_scopes.pop() {
            Some((needed, name)) => {
                self.needs_this_binding = needed;
                self.this_var_name = name;
            },
            None => {},
        }
    }

    /// Opens the frame of the module body.
    pub fn enter_module(&mut self)
        ensures
            final(self).var_declarations.frames() == old(self).var_declarations.frames().push(None),
    {
        self.var_declarations.record_entering_statements();
    }

    /// Declares `var _this = this` (under the `this` binding's name) in the
    /// module's frame when an arrow function outside every function needed
    /// the module's `this`, then puts the frame's
    /// declarations in front of the first block statement of the body and
    /// closes the frame, as `declarations_into_first_block` says.
    pub fn exit_module(&mut self, body: &mut Vec<ModuleItem>)
        ensures
            (module_items_v(final(body)@), final(self).var_declarations.frames()) == declarations_into_first_block(
                module_items_v(old(body)@),
                this_binding_added(
                    old(self).var_declarations.frames(),
                    old(self).needs_this_binding,
                    old(self).this_var_name,
                ),
            ),
    {
        if self.needs_this_binding {
            match &self.this_var_name {
                Some(name) => {
                    let binding = Ident { sym: name.clone(), ctxt: 0, span: dummy_sp() };
                    self.var_declarations.insert_var(&binding, Some(Box::new(Expr::This)));
                },
                None => {},
            }
        }
        self.var_declarations.insert_into_first_block(body);
    }

    /// Opens the frame of a block.
    pub fn enter_block_stmt(&mut self)
        ensures
            final(self).var_declarations.frames() == old(self).var_declarations.frames().push(None),
    {
        self.var_declarations.record_entering_statements();
    }

    /// Puts the pending declarations of the block's frame in front of its
    /// statements.
    pub fn exit_block_stmt(&mut self, stmts: &mut Vec<Stmt>)
        ensures
            final(self).uid_counter == old(self).uid_counter,
            final(self).var_declarations.frames() == popped(old(self).var_declarations.frames()),
            stmts_v(final(stmts)@) == with_declarations(old(self).var_declarations.frames(), stmts_v(old(stmts)@)),
    {
        let ghost s0 = stmts@;
        self.var_declarations.insert_into_statements(stmts);
        proof {
            lemma_svs_stmts_v(s0);
            lemma_svs_stmts_v(stmts@);
        }
    }
}

/// The ES2015 pass.
pub struct ES2015 {
    pub options: ES2015Options,
    pub arrow_functions: ArrowFunctions,
}

impl ES2015 {
    pub fn new(options: ES2015Options, ctx: &TransformCtx) -> (s: Self)
        ensures
            s.options == options,
            s.arrow_functions.options == match options.arrow_function {
                Some(o) => o,
                None => ArrowFunctionsOptions { spec: false },
            },
    {
        let af = match options.arrow_function {
            Some(o) => o,
            None => ArrowFunctionsOptions::default(),
        };
        ES2015 { options, arrow_functions: ArrowFunctions::new(af, ctx) }
    }

    /// Turns an arrow function into a function expression, as
    /// `ArrowFunctions::exit_expr` says.
    pub fn exit_expr(&mut self, expr: &mut Expr)
        requires
            old(self).arrow_functions.uid_counter < usize::MAX,
        ensures
            final(self).options == old(self).options,
            final(self).arrow_functions.var_declarations == old(self).arrow_functions.var_declarations,
            match expr_v(*old(expr)) {
                ExprV::Arrow(a) => {
                    let t = gen_ident(this_binding_name(old(self).arrow_functions));
                    let found = this_arrow(a, t) != a;
                    &&& expr_v(*final(expr)) == arrow_to_function_v(this_arrow(a, t))
                    &&& final(self).arrow_functions.needs_this_binding == (old(self).arrow_functions.needs_this_binding || found)
                    &&& if found && old(self).arrow_functions.this_var_name is None {
                        &&& final(self).arrow_functions.uid_counter == old(self).arrow_functions.uid_counter + 1
                        &&& final(self).arrow_functions.this_var_name is Some
                        &&& final(self).arrow_functions.this_var_name->Some_0@ == this_binding_name(old(self).arrow_functions)
                    } else {
                        &&& final(self).arrow_functions.uid_counter == old(self).arrow_functions.uid_counter
                        &&& final(self).arrow_functions.this_var_name == old(self).arrow_functions.this_var_name
                    }
                },
                _ => *final(expr) == *old(expr) && *final(self) == *old(self),
            },
    {
        self.arrow_functions.exit_expr(expr);
    }
}

} // verus!
