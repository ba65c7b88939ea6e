//! ES2017: async functions become generator functions wrapped in the
//! `asyncToGenerator` helper, and `await` becomes `yield`.

use vstd::prelude::*;

use crate::ast::{dummy_sp, dummy_span, ArrowBody, ArrowExpr, AssignOp, AssignTarget, Decl, Expr, Function, Ident, Lit, Pat, Stmt, VarDecl, VarDeclKind, VarDeclarator};
use crate::ast_build::{call_v, gen_ident, ident_expr, make_numbered_name, make_private_ident, numbered_ident, private_ident, static_member, static_member_expr};
use crate::ast_clone::{clone_ident, take_expr, take_stmt};
use crate::ast_view::{arrow_v, assign_target_v, decl_v, declarator_v, declarators_v, expr_v, function_v, ident_v, lemma_declarators_v_push, lemma_pats_v, lemma_pats_v_push, lemma_stmts_v_push, opt_ident_v, pat_v, pats_v, stmt_v, stmts_v, ArrowBodyV, ArrowExprV, AssignTargetV, DeclV, ExprV, FunctionV, IdentV, PatV, StmtV, VarDeclV, VarDeclaratorV};
use crate::context::TransformCtx;
use crate::helper_loader::Helper;
use crate::text::{decimal, push_decimal, string_of};

verus! {

// ---------------------------------------------------------------------------
// Specification.

/// The name of the `i`-th placeholder parameter: `_x`, `_x1`, `_x2`, ...
pub open spec fn placeholder_name(i: nat) -> Seq<char> {
    if i == 0 { "_x"@ } else { "_x"@ + decimal(i) }
}

/// How many leading parameters have no default value.
pub open spec fn leading_plain(params: Seq<PatV>) -> nat
    decreases params.len(),
{
    if params.len() == 0 {
        0
    } else if params[0] is Assign {
        0
    } else {
        1 + leading_plain(params.drop_first())
    }
}

/// Placeholders for the leading parameters without a default value, with
/// the contexts `xs`.
pub open spec fn placeholders(params: Seq<PatV>, xs: Seq<u32>) -> Seq<PatV> {
    Seq::new(leading_plain(params), |i: int| PatV::Ident(private_ident(placeholder_name(i as nat), xs[i])))
}

/// Whether a function's `length` depends on its parameters: the first has
/// no default value.
pub open spec fn length_affected(params: Seq<PatV>) -> bool {
    params.len() > 0 && !(params[0] is Assign)
}

/// Whether evaluating a default value may throw: anything but a literal
/// other than a regular expression, a function, or `undefined`.
pub open spec fn could_throw(e: ExprV) -> bool {
    match e {
        ExprV::Lit(l) => l is Regex,
        ExprV::Arrow(_) => false,
        ExprV::Fn(_, _) => false,
        ExprV::Ident(i) => i.sym != "undefined"@,
        _ => true,
    }
}

/// Whether a parameter has a default value that may throw.
pub open spec fn default_could_throw(p: PatV) -> bool {
    match p {
        PatV::Assign(_, r) => could_throw(*r),
        _ => false,
    }
}

/// Whether a default value of the parameters may throw.
pub open spec fn params_could_throw(params: Seq<PatV>) -> bool {
    exists|i: int| 0 <= i < params.len() && default_could_throw(#[trigger] params[i])
}

/// A plain function with `params` and `body`.
pub open spec fn plain_function(params: Seq<PatV>, body: Seq<StmtV>) -> FunctionV {
    FunctionV { span: dummy_span(), params, body: Some(body), is_async: false, is_generator: false }
}

/// `this, arguments`.
pub open spec fn this_arguments() -> Seq<ExprV> {
    seq![ExprV::This, ExprV::Ident(gen_ident("arguments"@))]
}

/// `return bound.apply(this, arguments)`.
pub open spec fn apply_call_stmt(bound: IdentV) -> StmtV {
    StmtV::Return(
        dummy_span(),
        Some(Box::new(call_v(static_member(ExprV::Ident(bound), "apply"@), this_arguments()))),
    )
}

/// `babelHelpers.helper(function* (params) { body })`.
pub open spec fn a2g_call(helper: Helper, params: Seq<PatV>, body: Seq<StmtV>) -> ExprV {
    call_v(
        static_member(ExprV::Ident(gen_ident("babelHelpers"@)), helper.spec_name()),
        seq![ExprV::Fn(None, FunctionV { is_generator: true, ..plain_function(params, body) })],
    )
}

/// `var bound = babelHelpers.helper(function* (params) { body })`.
pub open spec fn a2g_decl(helper: Helper, bound: IdentV, params: Seq<PatV>, body: Seq<StmtV>) -> StmtV {
    StmtV::Decl(
        DeclV::Var(
            VarDeclV {
                span: dummy_span(),
                kind: VarDeclKind::Var,
                decls: seq![VarDeclaratorV { name: PatV::Ident(bound), init: Some(Box::new(a2g_call(helper, params, body))) }],
            },
        ),
    )
}

/// `bound = babelHelpers.helper(function* (params) { body })`.
pub open spec fn a2g_assignment(helper: Helper, bound: IdentV, params: Seq<PatV>, body: Seq<StmtV>) -> StmtV {
    StmtV::Expr(
        dummy_span(),
        Box::new(ExprV::Assign(AssignOp::Assign, AssignTargetV::Ident(bound), Box::new(a2g_call(helper, params, body)))),
    )
}

/// `(function () { body })()`.
pub open spec fn iife(f: FunctionV) -> ExprV {
    call_v(ExprV::Fn(None, f), Seq::empty())
}

// ---------------------------------------------------------------------------
// Builders.

/// The name of the `i`-th placeholder.
fn make_placeholder_name(i: u64) -> (s: String)
    ensures
        s@ == placeholder_name(i as nat),
{
    let mut s = string_of("_x");
    if i > 0 {
        push_decimal(&mut s, i);
    }
    s
}

proof fn lemma_leading_plain(params: Seq<PatV>, k: int)
    requires
        0 <= k <= params.len(),
        forall|j: int| 0 <= j < k ==> !(#[trigger] params[j] is Assign),
        k == params.len() || params[k] is Assign,
    ensures
        leading_plain(params) == k,
    decreases k,
{
    if k > 0 {
        let t = params.drop_first();
        assert(!(params[0] is Assign));
        assert forall|j: int| 0 <= j < k - 1 implies !(#[trigger] t[j] is Assign) by {
            assert(t[j] == params[j + 1]);
        }
        if k < params.len() {
            assert(t[k - 1] == params[k]);
        }
        lemma_leading_plain(t, k - 1);
    }
}

/// How many leading parameters have no default value.
fn count_leading_plain(params: &Vec<Pat>) -> (k: usize)
    ensures
        k == leading_plain(pats_v(params@)),
        k <= params.len(),
{
    proof {
        lemma_pats_v(params@);
    }
    let mut k: usize = 0;
    while k < params.len()
        invariant
            k <= params.len(),
            pats_v(params@).len() == params.len(),
            forall|j: int| 0 <= j < params.len() ==> #[trigger] pats_v(params@)[j] == pat_v(params@[j]),
            forall|j: int| 0 <= j < k ==> !(#[trigger] pats_v(params@)[j] is Assign),
        ensures
            k <= params.len(),
            forall|j: int| 0 <= j < k ==> !(#[trigger] pats_v(params@)[j] is Assign),
            k == params.len() || pats_v(params@)[k as int] is Assign,
        decreases params.len() - k,
    {
        let is_assign = match &params[k] {
            Pat::Assign(_, _) => true,
            _ => false,
        };
        if is_assign {
            break;
        }
        k += 1;
    }
    proof {
        lemma_leading_plain(pats_v(params@), k as int);
    }
    k
}

/// Placeholder parameters for `params`, with the contexts `xs`.
fn create_placeholder_params(params: &Vec<Pat>, xs: &Vec<u32>) -> (r: Vec<Pat>)
    requires
        xs.len() >= leading_plain(pats_v(params@)),
    ensures
        pats_v(r@) == placeholders(pats_v(params@), xs@),
{
    let k = count_leading_plain(params);
    let mut r: Vec<Pat> = Vec::new();
    let mut i: usize = 0;
    proof {
        lemma_pats_v_push(r@, Pat::Opaque(0));
    }
    while i < k
        invariant
            i <= k,
            k == leading_plain(pats_v(params@)),
            xs.len() >= k,
            k <= params.len(),
            pats_v(r@) == placeholders(pats_v(params@), xs@).take(i as int),
        decreases k - i,
    {
        let name = make_placeholder_name(i as u64);
        let p = Pat::Ident(make_private_ident(name, xs[i]));
        let ghost r0 = r@;
        r.push(p);
        proof {
            lemma_pats_v_push(r0, p);
            assert(placeholders(pats_v(params@), xs@).take(i as int + 1) =~= placeholders(pats_v(params@), xs@).take(i as int).push(pat_v(p)));
        }
        i += 1;
    }
    assert(placeholders(pats_v(params@), xs@).take(k as int) =~= placeholders(pats_v(params@), xs@));
    r
}

/// Whether the first parameter has no default value.
fn is_function_length_affected(params: &Vec<Pat>) -> (b: bool)
    ensures
        b == length_affected(pats_v(params@)),
{
    proof {
        lemma_pats_v(params@);
    }
    if params.len() == 0 {
        return false;
    }
    match &params[0] {
        Pat::Assign(_, _) => false,
        _ => true,
    }
}

/// Whether evaluating `expr` as a default value may throw.
fn could_potentially_throw_error_expression(expr: &Expr) -> (b: bool)
    ensures
        b == could_throw(expr_v(*expr)),
{
    match expr {
        Expr::Lit(Lit::Regex(_, _)) => true,
        Expr::Lit(_) => false,
        Expr::Arrow(_) => false,
        Expr::Fn(_, _) => false,
        Expr::Ident(i) => {
            let u = string_of("undefined");
            !(i.sym == u)
        },
        _ => true,
    }
}

/// Whether a default value of `params` may throw.
fn could_throw_errors_parameters(params: &Vec<Pat>) -> (b: bool)
    ensures
        b == params_could_throw(pats_v(params@)),
{
    proof {
        lemma_pats_v(params@);
    }
    let mut i: usize = 0;
    while i < params.len()
        invariant
            i <= params.len(),
            pats_v(params@).len() == params.len(),
            forall|j: int| 0 <= j < params.len() ==> #[trigger] pats_v(params@)[j] == pat_v(params@[j]),
            forall|j: int| 0 <= j < i ==> !default_could_throw(#[trigger] pats_v(params@)[j]),
        decreases params.len() - i,
    {
        match &params[i] {
            Pat::Assign(_, r) => {
                if could_potentially_throw_error_expression(&**r) {
                    assert(default_could_throw(pats_v(params@)[i as int]));
                    return true;
                }
            },
            _ => {},
        }
        i += 1;
    }
    false
}

/// A plain function with `params` and `body`.
fn create_function(params: Vec<Pat>, body: Vec<Stmt>) -> (f: Function)
    ensures
        function_v(f) == plain_function(pats_v(params@), stmts_v(body@)),
{
    Function { span: dummy_sp(), params, body: Some(body), is_async: false, is_generator: false }
}

/// `return bound.apply(this, arguments)`.
fn create_apply_call_statement(bound: &Ident) -> (s: Stmt)
    ensures
        stmt_v(s) == apply_call_stmt(ident_v(*bound)),
{
    let callee = static_member_expr(Expr::Ident(clone_ident(bound)), "apply");
    let call = crate::ast_build::call2(callee, Expr::This, ident_expr("arguments"));
    Stmt::Return(dummy_sp(), Some(Box::new(call)))
}

/// The rewrite of an async function expression `function id(params) {
/// body }`, given the counter of generated names, the context `c` of the
/// binding made and the contexts `xs` of the placeholder parameters: the new
/// expression and counter.
pub open spec fn fn_expr_rewrite(
    helper: Helper,
    counter: nat,
    id: Option<IdentV>,
    f: FunctionV,
    c: u32,
    xs: Seq<u32>,
) -> (ExprV, nat) {
    let params = f.params;
    let body = f.body->Some_0;
    if id is None && !length_affected(params) {
        (a2g_call(helper, params, body), counter)
    } else {
        let n = counter + 1;
        let bound = match id {
            Some(i) => numbered_ident(i.sym, n, c),
            None => numbered_ident("ref"@, n, c),
        };
        let caller = plain_function(placeholders(params, xs), seq![apply_call_stmt(bound)]);
        let decl = a2g_decl(helper, bound, params, body);
        let stmts = match id {
            Some(i) => seq![
                decl,
                StmtV::Decl(DeclV::Fn(i, caller)),
                StmtV::Return(dummy_span(), Some(Box::new(ExprV::Ident(i)))),
            ],
            None => seq![decl, StmtV::Return(dummy_span(), Some(Box::new(ExprV::Fn(None, caller))))],
        };
        let wrapper = FunctionV {
            span: f.span,
            params: Seq::empty(),
            body: Some(stmts),
            is_async: false,
            is_generator: false,
        };
        (iife(wrapper), n)
    }
}

/// The rewrite of an async function declaration `function id(params) {
/// body }`: the declaration of the function that does the work, named by a
/// new binding with the context `c`, and the new counter.
pub open spec fn fn_decl_rewrite(helper: Helper, counter: nat, id: IdentV, f: FunctionV, c: u32) -> (StmtV, nat) {
    let n = counter + 1;
    let bound = numbered_ident(id.sym, n, c);
    let inner = seq![a2g_assignment(helper, bound, f.params, f.body->Some_0), apply_call_stmt(bound)];
    (StmtV::Decl(DeclV::Fn(bound, plain_function(Seq::empty(), inner))), n)
}

/// The body of an arrow function as statements.
pub open spec fn arrow_block(b: ArrowBodyV) -> Seq<StmtV> {
    match b {
        ArrowBodyV::Block(s) => s,
        ArrowBodyV::Expr(e) => seq![StmtV::Return(dummy_span(), Some(e))],
    }
}

/// The rewrite of an async arrow function, as for function expressions
/// without a name.
pub open spec fn arrow_rewrite(helper: Helper, counter: nat, a: ArrowExprV, c: u32, xs: Seq<u32>) -> (ExprV, nat) {
    let params = a.params;
    let body = arrow_block(a.body);
    if !length_affected(params) {
        (a2g_call(helper, params, body), counter)
    } else {
        let n = counter + 1;
        let bound = numbered_ident("ref"@, n, c);
        let caller = StmtV::Return(
            dummy_span(),
            Some(Box::new(ExprV::Fn(None, plain_function(placeholders(params, xs), seq![apply_call_stmt(bound)])))),
        );
        let decl = a2g_decl(helper, bound, params, body);
        (iife(plain_function(Seq::empty(), seq![decl, caller])), n)
    }
}

/// The rewrite of an async method `f`: its body becomes a call of the
/// wrapped generator, which takes the parameters over when a default value
/// may throw.
pub open spec fn method_rewrite(helper: Helper, f: FunctionV, xs: Seq<u32>) -> FunctionV {
    match f.body {
        None => f,
        Some(body) => {
            let moved = params_could_throw(f.params);
            let inner_params = if moved { f.params } else { Seq::empty() };
            let callee = a2g_call(helper, inner_params, body);
            let call = if moved {
                call_v(static_member(callee, "apply"@), this_arguments())
            } else {
                call_v(callee, Seq::empty())
            };
            FunctionV {
                span: f.span,
                params: if moved { placeholders(f.params, xs) } else { f.params },
                body: Some(seq![StmtV::Return(dummy_span(), Some(Box::new(call)))]),
                is_async: false,
                is_generator: false,
            }
        },
    }
}

/// Turns async functions into generators wrapped in a helper.
pub struct AsyncGeneratorExecutor {
    pub helper: Helper,
    /// How many bindings have been generated.
    pub uid_counter: usize,
}

impl AsyncGeneratorExecutor {
    pub fn new(helper: Helper, _ctx: &TransformCtx) -> (s: Self)
        ensures
            s.helper == helper,
            s.uid_counter == 0,
    {
        AsyncGeneratorExecutor { helper, uid_counter: 0 }
    }

    /// A new binding `_name` followed by the counter.
    fn generate_uid(&mut self, name: &str, ctxt: u32) -> (i: Ident)
        requires
            old(self).uid_counter < usize::MAX,
        ensures
            final(self).uid_counter == old(self).uid_counter + 1,
            final(self).helper == old(self).helper,
            ident_v(i) == numbered_ident(name@, final(self).uid_counter as nat, ctxt),
    {
        self.uid_counter = self.uid_counter + 1;
        make_private_ident(make_numbered_name(name, self.uid_counter as u64), ctxt)
    }

    /// `babelHelpers.helper(function* (params) { body })`.
    fn create_async_to_generator_call(&self, params: Vec<Pat>, body: Vec<Stmt>) -> (e: Expr)
        ensures
            expr_v(e) == a2g_call(self.helper, pats_v(params@), stmts_v(body@)),
    {
        let ghost pv = pats_v(params@);
        let ghost bv = stmts_v(body@);
        let mut function = create_function(params, body);
        function.is_generator = true;
        let ghost fv = FunctionV { is_generator: true, ..plain_function(pv, bv) };
        assert(function_v(function) == fv);
        let f = Expr::Fn(None, function);
        assert(expr_v(f) == ExprV::Fn(None, fv));
        let callee = static_member_expr(ident_expr("babelHelpers"), self.helper.name());
        crate::ast_build::call1(callee, f)
    }

    /// `var bound = babelHelpers.helper(function* (params) { body })`.
    fn create_async_to_generator_declaration(&self, bound: &Ident, params: Vec<Pat>, body: Vec<Stmt>) -> (s: Stmt)
        ensures
            stmt_v(s) == a2g_decl(self.helper, ident_v(*bound), pats_v(params@), stmts_v(body@)),
    {
        let init = self.create_async_to_generator_call(params, body);
        let declarator = VarDeclarator { name: Pat::Ident(clone_ident(bound)), init: Some(Box::new(init)) };
        let mut decls: Vec<VarDeclarator> = Vec::new();
        proof {
            lemma_declarators_v_push(decls@, declarator);
        }
        decls.push(declarator);
        assert(declarators_v(decls@) =~= seq![declarator_v(declarator)]);
        Stmt::Decl(Decl::Var(VarDecl { span: dummy_sp(), kind: VarDeclKind::Var, decls }))
    }

    /// `bound = babelHelpers.helper(function* (params) { body })`.
    fn create_async_to_generator_assignment(&self, bound: &Ident, params: Vec<Pat>, body: Vec<Stmt>) -> (s: Stmt)
        ensures
            stmt_v(s) == a2g_assignment(self.helper, ident_v(*bound), pats_v(params@), stmts_v(body@)),
    {
        let right = self.create_async_to_generator_call(params, body);
        let target = AssignTarget::Ident(clone_ident(bound));
        assert(assign_target_v(target) == AssignTargetV::Ident(ident_v(*bound)));
        let ghost rv = expr_v(right);
        let assign = Expr::Assign(AssignOp::Assign, target, Box::new(right));
        assert(expr_v(assign) == ExprV::Assign(AssignOp::Assign, AssignTargetV::Ident(ident_v(*bound)), Box::new(rv)));
        Stmt::Expr(dummy_sp(), Box::new(assign))
    }

    /// The rewrite of an async function expression, as `fn_expr_rewrite`
    /// says; `c` and `xs` are the contexts of the bindings it makes.
    pub fn transform_function_expression(&mut self, id: Option<Ident>, func: Function, c: u32, xs: &Vec<u32>) -> (e: Expr)
        requires
            func.body is Some,
            old(self).uid_counter < usize::MAX,
            xs.len() >= leading_plain(pats_v(func.params@)),
        ensures
            final(self).helper == old(self).helper,
            (expr_v(e), final(self).uid_counter as nat) == fn_expr_rewrite(
                old(self).helper,
                old(self).uid_counter as nat,
                opt_ident_v(id),
                function_v(func),
                c,
                xs@,
            ),
    {
        let ghost fv = function_v(func);
        let ghost idv = opt_ident_v(id);
        let ghost want = fn_expr_rewrite(self.helper, self.uid_counter as nat, idv, fv, c, xs@);
        let Function { span, params, body, is_async, is_generator } = func;
        let body = match body {
            Some(b) => b,
            None => Vec::new(),
        };
        let ghost pv = pats_v(params@);
        let ghost bv = stmts_v(body@);
        assert(fv.params == pv && fv.body == Some(bv) && fv.span == span);
        let has_function_id = id.is_some();
        if !has_function_id && !is_function_length_affected(&params) {
            return self.create_async_to_generator_call(params, body);
        }
        let bound = match &id {
            Some(i) => self.generate_uid(i.sym.as_str(), c),
            None => self.generate_uid("ref", c),
        };
        let ghost n = self.uid_counter as nat;
        let ghost bound_v = match idv {
            Some(iv) => numbered_ident(iv.sym, n, c),
            None => numbered_ident("ref"@, n, c),
        };
        assert(ident_v(bound) == bound_v);
        let ghost caller_v = plain_function(placeholders(pv, xs@), seq![apply_call_stmt(bound_v)]);
        let ghost decl_v = a2g_decl(self.helper, bound_v, pv, bv);
        let placeholder_params = create_placeholder_params(&params, xs);
        let mut caller_body: Vec<Stmt> = Vec::new();
        let apply = create_apply_call_statement(&bound);
        proof {
            lemma_stmts_v_push(caller_body@, apply);
        }
        caller_body.push(apply);
        assert(stmts_v(caller_body@) =~= seq![stmt_v(apply)]);
        let caller_function = create_function(placeholder_params, caller_body);
        let ghost callerv = function_v(caller_function);
        assert(callerv == caller_v);
        let decl = self.create_async_to_generator_declaration(&bound, params, body);
        assert(stmt_v(decl) == decl_v);
        let mut statements: Vec<Stmt> = Vec::new();
        proof {
            lemma_stmts_v_push(statements@, decl);
        }
        statements.push(decl);
        match id {
            Some(i) => {
                let ghost iv = ident_v(i);
                let reference = Expr::Ident(clone_ident(&i));
                let func_decl = Stmt::Decl(Decl::Fn(i, caller_function));
                assert(stmt_v(func_decl) == StmtV::Decl(DeclV::Fn(iv, callerv)));
                let ret = Stmt::Return(dummy_sp(), Some(Box::new(reference)));
                let ghost s1 = statements@;
                statements.push(func_decl);
                let ghost s2 = statements@;
                statements.push(ret);
                proof {
                    lemma_stmts_v_push(s1, func_decl);
                    lemma_stmts_v_push(s2, ret);
                    assert(stmts_v(statements@) =~= seq![stmt_v(decl), stmt_v(func_decl), stmt_v(ret)]);
                    assert(idv == Some(iv));
                }
            },
            None => {
                let f = Expr::Fn(None, caller_function);
                assert(expr_v(f) == ExprV::Fn(None, callerv));
                let ret = Stmt::Return(dummy_sp(), Some(Box::new(f)));
                let ghost s1 = statements@;
                statements.push(ret);
                proof {
                    lemma_stmts_v_push(s1, ret);
                    assert(stmts_v(statements@) =~= seq![stmt_v(decl), stmt_v(ret)]);
                }
            },
        }
        let empty: Vec<Pat> = Vec::new();
        proof {
            lemma_pats_v_push(empty@, Pat::Opaque(0));
        }
        let ghost stmts_want = match idv {
            Some(iv) => seq![
                decl_v,
                StmtV::Decl(DeclV::Fn(iv, caller_v)),
                StmtV::Return(dummy_span(), Some(Box::new(ExprV::Ident(iv)))),
            ],
            None => seq![decl_v, StmtV::Return(dummy_span(), Some(Box::new(ExprV::Fn(None, caller_v))))],
        };
        assert(stmts_v(statements@) == stmts_want);
        let wrapper = Function { span, params: empty, body: Some(statements), is_async: false, is_generator: false };
        let ghost wv = FunctionV { span: fv.span, params: Seq::empty(), body: Some(stmts_want), is_async: false, is_generator: false };
        assert(function_v(wrapper) == wv);
        let callee = Expr::Fn(None, wrapper);
        assert(expr_v(callee) == ExprV::Fn(None, wv));
        let r = crate::ast_build::call0(callee);
        assert(expr_v(r) == iife(wv));
        assert(expr_v(r) == want.0);
        r
    }

    /// The rewrite of an async function declaration, as `fn_decl_rewrite`
    /// says; `c` is the context of the binding it makes.
    pub fn transform_function_declaration(&mut self, id: Ident, func: Function, c: u32) -> (s: Stmt)
        requires
            func.body is Some,
            old(self).uid_counter < usize::MAX,
        ensures
            final(self).helper == old(self).helper,
            (stmt_v(s), final(self).uid_counter as nat) == fn_decl_rewrite(
                old(self).helper,
                old(self).uid_counter as nat,
                ident_v(id),
                function_v(func),
                c,
            ),
    {
        let ghost fv = function_v(func);
        let ghost want = fn_decl_rewrite(self.helper, self.uid_counter as nat, ident_v(id), fv, c);
        let Function { span, params, body, is_async, is_generator } = func;
        let body = match body {
            Some(b) => b,
            None => Vec::new(),
        };
        assert(fv.params == pats_v(params@) && fv.body == Some(stmts_v(body@)));
        let bound = self.generate_uid(id.sym.as_str(), c);
        let assignment = self.create_async_to_generator_assignment(&bound, params, body);
        let apply = create_apply_call_statement(&bound);
        let mut statements: Vec<Stmt> = Vec::new();
        proof {
            lemma_stmts_v_push(statements@, assignment);
        }
        statements.push(assignment);
        let ghost s1 = statements@;
        statements.push(apply);
        proof {
            lemma_stmts_v_push(s1, apply);
            assert(stmts_v(statements@) =~= seq![stmt_v(assignment), stmt_v(apply)]);
        }
        let empty: Vec<Pat> = Vec::new();
        let caller_function = create_function(empty, statements);
        proof {
            lemma_pats_v_push(empty@, Pat::Opaque(0));
        }
        let ghost bv = ident_v(bound);
        let ghost cv = function_v(caller_function);
        let r = Stmt::Decl(Decl::Fn(bound, caller_function));
        assert(stmt_v(r) == StmtV::Decl(DeclV::Fn(bv, cv)));
        assert(stmt_v(r) == want.0);
        r
    }

    /// The rewrite of an async arrow function, as `arrow_rewrite` says; `c`
    /// and `xs` are the contexts of the bindings it makes.
    pub fn transform_arrow_function(&mut self, arrow: ArrowExpr, c: u32, xs: &Vec<u32>) -> (e: Expr)
        requires
            old(self).uid_counter < usize::MAX,
            xs.len() >= leading_plain(pats_v(arrow.params@)),
        ensures
            final(self).helper == old(self).helper,
            (expr_v(e), final(self).uid_counter as nat) == arrow_rewrite(
                old(self).helper,
                old(self).uid_counter as nat,
                arrow_v(arrow),
                c,
                xs@,
            ),
    {
        let ghost av = arrow_v(arrow);
        let ghost want = arrow_rewrite(self.helper, self.uid_counter as nat, av, c, xs@);
        let ArrowExpr { span, params, body, is_async, is_generator } = arrow;
        let ghost pv = pats_v(params@);
        assert(av.params == pv);
        let block: Vec<Stmt> = match body {
            ArrowBody::Block(b) => {
                assert(arrow_block(av.body) == stmts_v(b@));
                b
            },
            ArrowBody::Expr(e) => {
                let ghost ev = expr_v(*e);
                let mut v: Vec<Stmt> = Vec::new();
                let ret = Stmt::Return(dummy_sp(), Some(e));
                proof {
                    lemma_stmts_v_push(v@, ret);
                }
                v.push(ret);
                assert(stmts_v(v@) =~= seq![stmt_v(ret)]);
                assert(arrow_block(av.body) == stmts_v(v@));
                v
            },
        };
        let ghost bv = stmts_v(block@);
        if !is_function_length_affected(&params) {
            return self.create_async_to_generator_call(params, block);
        }
        let bound = self.generate_uid("ref", c);
        let ghost bound_v = ident_v(bound);
        let placeholder_params = create_placeholder_params(&params, xs);
        let apply = create_apply_call_statement(&bound);
        let mut caller_body: Vec<Stmt> = Vec::new();
        proof {
            lemma_stmts_v_push(caller_body@, apply);
        }
        caller_body.push(apply);
        assert(stmts_v(caller_body@) =~= seq![stmt_v(apply)]);
        let function = create_function(placeholder_params, caller_body);
        let ghost fnv = function_v(function);
        let f = Expr::Fn(None, function);
        assert(expr_v(f) == ExprV::Fn(None, fnv));
        let caller = Stmt::Return(dummy_sp(), Some(Box::new(f)));
        let decl = self.create_async_to_generator_declaration(&bound, params, block);
        let mut statements: Vec<Stmt> = Vec::new();
        proof {
            lemma_stmts_v_push(statements@, decl);
        }
        statements.push(decl);
        let ghost s1 = statements@;
        statements.push(caller);
        proof {
            lemma_stmts_v_push(s1, caller);
            assert(stmts_v(statements@) =~= seq![stmt_v(decl), stmt_v(caller)]);
        }
        let empty: Vec<Pat> = Vec::new();
        proof {
            lemma_pats_v_push(empty@, Pat::Opaque(0));
        }
        let wrapper = create_function(empty, statements);
        let ghost wv = function_v(wrapper);
        let callee = Expr::Fn(None, wrapper);
        assert(expr_v(callee) == ExprV::Fn(None, wv));
        let r = crate::ast_build::call0(callee);
        assert(expr_v(r) == iife(wv));
        assert(expr_v(r) == want.0);
        r
    }

    /// The rewrite of an async method, as `method_rewrite` says; `xs` are
    /// the contexts of the placeholder parameters it may make.
    pub fn transform_function_for_method_definition(&mut self, func: &mut Function, xs: &Vec<u32>)
        requires
            xs.len() >= leading_plain(pats_v(old(func).params@)),
        ensures
            *final(self) == *old(self),
            function_v(*final(func)) == method_rewrite(old(self).helper, function_v(*old(func)), xs@),
    {
        let ghost fv = function_v(*func);
        let ghost want = method_rewrite(self.helper, fv, xs@);
        if func.body.is_none() {
            return;
        }
        let mut body_opt: Option<Vec<Stmt>> = None;
        std::mem::swap(&mut body_opt, &mut func.body);
        let body = match body_opt {
            Some(b) => b,
            None => Vec::new(),
        };
        let ghost bv = stmts_v(body@);
        let ghost pv = pats_v(func.params@);
        let needs_move = could_throw_errors_parameters(&func.params);
        let inner_params = if needs_move {
            let mut new_params = create_placeholder_params(&func.params, xs);
            std::mem::swap(&mut new_params, &mut func.params);
            new_params
        } else {
            let empty: Vec<Pat> = Vec::new();
            proof {
                lemma_pats_v_push(empty@, Pat::Opaque(0));
            }
            empty
        };
        let callee = self.create_async_to_generator_call(inner_params, body);
        let call = if needs_move {
            let m = static_member_expr(callee, "apply");
            crate::ast_build::call2(m, Expr::This, ident_expr("arguments"))
        } else {
            crate::ast_build::call0(callee)
        };
        let ghost callv = expr_v(call);
        let ret = Stmt::Return(dummy_sp(), Some(Box::new(call)));
        let mut stmts: Vec<Stmt> = Vec::new();
        proof {
            lemma_stmts_v_push(stmts@, ret);
        }
        stmts.push(ret);
        assert(stmts_v(stmts@) =~= seq![StmtV::Return(dummy_span(), Some(Box::new(callv)))]);
        func.is_async = false;
        func.is_generator = false;
        func.body = Some(stmts);
        assert(function_v(*func) == want);
    }
}

/// The rewrite of `async` functions and `await`.
pub struct AsyncToGenerator {
    pub executor: AsyncGeneratorExecutor,
}

/// Whether an expression is one the async rewrite changes: `await`, an
/// async function that is not a generator, or an async arrow function.
pub open spec fn rewrites_expr(e: ExprV) -> bool {
    match e {
        ExprV::Await(_) => true,
        ExprV::Fn(_, f) => f.is_async && !f.is_generator && f.body is Some,
        ExprV::Arrow(a) => a.is_async,
        _ => false,
    }
}

/// How many contexts the rewrite of `e` may use for placeholder
/// parameters: one per parameter of a function or arrow function.
pub open spec fn ctxts_needed(e: ExprV) -> nat {
    match e {
        ExprV::Fn(_, f) => f.params.len(),
        ExprV::Arrow(a) => a.params.len(),
        _ => 0,
    }
}

/// What the async rewrite makes of an expression it changes, with the
/// counter of generated names going from `n0` to `n1`: `await a` becomes
/// `yield a`; an async function or arrow function becomes what
/// `fn_expr_rewrite` or `arrow_rewrite` gives with the context `c` of its
/// bound name and the contexts `xs` of its placeholder parameters.
pub open spec fn async_expr_step(helper: Helper, n0: nat, before: ExprV, n1: nat, after: ExprV, c: u32, xs: Seq<u32>) -> bool {
    match before {
        ExprV::Await(a) => after == ExprV::Yield(Some(a), false) && n1 == n0,
        ExprV::Fn(id, f) => (after, n1) == fn_expr_rewrite(helper, n0, id, f, c, xs),
        ExprV::Arrow(a) => (after, n1) == arrow_rewrite(helper, n0, a, c, xs),
        _ => false,
    }
}

/// Whether a statement is one the async rewrite changes: the declaration
/// of an async function with a body that is not a generator.
pub open spec fn rewrites_stmt(s: StmtV) -> bool {
    match s {
        StmtV::Decl(DeclV::Fn(_, f)) => f.is_async && !f.is_generator && f.body is Some,
        _ => false,
    }
}

impl AsyncToGenerator {
    pub fn new(ctx: &TransformCtx) -> (s: Self)
        ensures
            s.executor.helper == Helper::AsyncToGenerator,
            s.executor.uid_counter == 0,
    {
        AsyncToGenerator { executor: AsyncGeneratorExecutor::new(Helper::AsyncToGenerator, ctx) }
    }

    /// `await arg` becomes `yield arg`.
    fn transform_await_expression(arg: Box<Expr>) -> (e: Expr)
        ensures
            expr_v(e) == ExprV::Yield(Some(Box::new(expr_v(*arg))), false),
    {
        Expr::Yield(Some(arg), false)
    }

    /// Rewrites an `await`, an async function expression or an async arrow
    /// function once its children have been visited: `await a` becomes
    /// `yield a`, and the functions are rewritten as `fn_expr_rewrite` and
    /// `arrow_rewrite` say, with `c` the context of the bound name and `xs`
    /// those of the placeholder parameters (fresh private marks, made by the
    /// caller). Other expressions are left as they are.
    pub fn exit_expr(&mut self, expr: &mut Expr, c: u32, xs: &Vec<u32>)
        requires
            old(self).executor.uid_counter < usize::MAX,
            xs.len() >= ctxts_needed(expr_v(*old(expr))),
        ensures
            final(self).executor.helper == old(self).executor.helper,
            !rewrites_expr(expr_v(*old(expr))) ==> *final(expr) == *old(expr) && *final(self) == *old(self),
            rewrites_expr(expr_v(*old(expr))) ==> async_expr_step(
                old(self).executor.helper,
                old(self).executor.uid_counter as nat,
                expr_v(*old(expr)),
                final(self).executor.uid_counter as nat,
                expr_v(*final(expr)),
                c,
                xs@,
            ),
    {
        let ghost ev = expr_v(*expr);
        let rewrite = match expr {
            Expr::Await(_) => true,
            Expr::Fn(_, f) => {
                assert(ev is Fn && ev->Fn_1 == function_v(*f));
                f.is_async && !f.is_generator && f.body.is_some()
            },
            Expr::Arrow(a) => {
                assert(ev is Arrow && ev->Arrow_0 == arrow_v(*a));
                a.is_async
            },
            _ => {
                assert(!(ev is Await) && !(ev is Fn) && !(ev is Arrow));
                false
            },
        };
        if !rewrite {
            return;
        }
        let e = take_expr(expr);
        match e {
            Expr::Await(arg) => {
                *expr = Self::transform_await_expression(arg);
            },
            Expr::Fn(id, f) => {
                proof {
                    lemma_leading_plain_le(pats_v(f.params@));
                    lemma_pats_v(f.params@);
                }
                *expr = self.executor.transform_function_expression(id, f, c, xs);
            },
            Expr::Arrow(a) => {
                proof {
                    lemma_leading_plain_le(pats_v(a.params@));
                    lemma_pats_v(a.params@);
                }
                *expr = self.executor.transform_arrow_function(a, c, xs);
            },
            other => {
                *expr = other;
            },
        }
    }

    /// Rewrites an async function declaration that is not a generator, as
    /// `fn_decl_rewrite` says with `c`, the context of a fresh private mark
    /// made by the caller, for the bound name. Other statements are left as
    /// they are.
    pub fn exit_stmt(&mut self, stmt: &mut Stmt, c: u32)
        requires
            old(self).executor.uid_counter < usize::MAX,
        ensures
            final(self).executor.helper == old(self).executor.helper,
            !rewrites_stmt(stmt_v(*old(stmt))) ==> *final(stmt) == *old(stmt) && *final(self) == *old(self),
            rewrites_stmt(stmt_v(*old(stmt))) ==> (stmt_v(*final(stmt)), final(self).executor.uid_counter as nat)
                == fn_decl_rewrite(
                    old(self).executor.helper,
                    old(self).executor.uid_counter as nat,
                    stmt_v(*old(stmt))->Decl_0->Fn_0,
                    stmt_v(*old(stmt))->Decl_0->Fn_1,
                    c,
                ),
    {
        let ghost sv = stmt_v(*stmt);
        let should = match stmt {
            Stmt::Decl(Decl::Fn(i, f)) => {
                assert(sv == StmtV::Decl(DeclV::Fn(ident_v(*i), function_v(*f))));
                f.is_async && !f.is_generator && f.body.is_some()
            },
            Stmt::Decl(d) => {
                assert(!(decl_v(*d) is Fn));
                false
            },
            _ => {
                assert(!(sv is Decl));
                false
            },
        };
        if !should {
            return;
        }
        let s = take_stmt(stmt);
        match s {
            Stmt::Decl(Decl::Fn(id, f)) => {
                let ghost idv = ident_v(id);
                let ghost fv = function_v(f);
                assert(sv == stmt_v(*old(stmt)));
                assert(sv == StmtV::Decl(DeclV::Fn(idv, fv)));
                assert(fv.is_async && !fv.is_generator && fv.body is Some);
                *stmt = self.executor.transform_function_declaration(id, f, c);
                assert((stmt_v(*stmt), self.executor.uid_counter as nat) == fn_decl_rewrite(
                    old(self).executor.helper,
                    old(self).executor.uid_counter as nat,
                    idv,
                    fv,
                    c,
                ));
            },
            other => {
                *stmt = other;
            },
        }
    }

    /// Rewrites an async function body into a call of the wrapped
    /// generator, as `method_rewrite` says with `xs` (fresh private marks,
    /// made by the caller) the contexts of the placeholder parameters.
    pub fn exit_function(&mut self, func: &mut Function, xs: &Vec<u32>)
        requires
            xs.len() >= old(func).params.len(),
        ensures
            *final(self) == *old(self),
            function_v(*old(func)).is_async ==> function_v(*final(func)) == method_rewrite(
                old(self).executor.helper,
                function_v(*old(func)),
                xs@,
            ),
            !function_v(*old(func)).is_async ==> *final(func) == *old(func),
    {
        if func.is_async {
            proof {
                lemma_leading_plain_le(pats_v(func.params@));
                lemma_pats_v(func.params@);
            }
            self.executor.transform_function_for_method_definition(func, xs);
        }
    }
}

proof fn lemma_leading_plain_le(params: Seq<PatV>)
    ensures
        leading_plain(params) <= params.len(),
    decreases params.len(),
{
    if params.len() > 0 {
        lemma_leading_plain_le(params.drop_first());
    }
}

/// Which ES2017 features are transformed.
#[derive(Clone, Copy, Debug)]
pub struct ES2017Options {
    /// Async functions become generators.
    pub async_to_generator: bool,
}

impl Default for ES2017Options {
    fn default() -> (o: Self)
        ensures
            !o.async_to_generator,
    {
        ES2017Options { async_to_generator: false }
    }
}

/// The ES2017 transforms, each run when its option is set.
pub struct ES2017 {
    pub options: ES2017Options,
    pub async_to_generator: AsyncToGenerator,
}

impl ES2017 {
    pub fn new(options: ES2017Options, ctx: &TransformCtx) -> (s: Self)
        ensures
            s.options == options,
            s.async_to_generator.executor.helper == Helper::AsyncToGenerator,
            s.async_to_generator.executor.uid_counter == 0,
    {
        ES2017 { options, async_to_generator: AsyncToGenerator::new(ctx) }
    }

    /// Runs the async rewrite of an expression when it is enabled.
    pub fn exit_expr(&mut self, expr: &mut Expr, c: u32, xs: &Vec<u32>)
        requires
            old(self).async_to_generator.executor.uid_counter < usize::MAX,
            xs.len() >= ctxts_needed(expr_v(*old(expr))),
        ensures
            final(self).options == old(self).options,
            final(self).async_to_generator.executor.helper == old(self).async_to_generator.executor.helper,
            !(old(self).options.async_to_generator && rewrites_expr(expr_v(*old(expr))))
                ==> *final(expr) == *old(expr) && *final(self) == *old(self),
            old(self).options.async_to_generator && rewrites_expr(expr_v(*old(expr))) ==> async_expr_step(
                old(self).async_to_generator.executor.helper,
                old(self).async_to_generator.executor.uid_counter as nat,
                expr_v(*old(expr)),
                final(self).async_to_generator.executor.uid_counter as nat,
                expr_v(*final(expr)),
                c,
                xs@,
            ),
    {
        if self.options.async_to_generator {
            self.async_to_generator.exit_expr(expr, c, xs);
        }
    }

    /// Runs the async rewrite of a statement when it is enabled.
    pub fn exit_stmt(&mut self, stmt: &mut Stmt, c: u32)
        requires
            old(self).async_to_generator.executor.uid_counter < usize::MAX,
        ensures
            final(self).options == old(self).options,
            final(self).async_to_generator.executor.helper == old(self).async_to_generator.executor.helper,
            !(old(self).options.async_to_generator && rewrites_stmt(stmt_v(*old(stmt))))
                ==> *final(stmt) == *old(stmt) && *final(self) == *old(self),
            old(self).options.async_to_generator && rewrites_stmt(stmt_v(*old(stmt))) ==> (
                stmt_v(*final(stmt)),
                final(self).async_to_generator.executor.uid_counter as nat,
            ) == fn_decl_rewrite(
                old(self).async_to_generator.executor.helper,
                old(self).async_to_generator.executor.uid_counter as nat,
                stmt_v(*old(stmt))->Decl_0->Fn_0,
                stmt_v(*old(stmt))->Decl_0->Fn_1,
                c,
            ),
    {
        if self.options.async_to_generator {
            self.async_to_generator.exit_stmt(stmt, c);
        }
    }

    /// Runs the async rewrite of a function body when it is enabled.
    pub fn exit_function(&mut self, func: &mut Function, xs: &Vec<u32>)
        requires
            xs.len() >= old(func).params.len(),
        ensures
            *final(self) == *old(self),
            !(old(self).options.async_to_generator && old(func).is_async) ==> *final(func) == *old(func),
            old(self).options.async_to_generator && old(func).is_async ==> function_v(*final(func)) == method_rewrite(
                old(self).async_to_generator.executor.helper,
                function_v(*old(func)),
                xs@,
            ),
    {
        if self.options.async_to_generator {
            self.async_to_generator.exit_function(func, xs);
        }
    }
}

} // verus!
