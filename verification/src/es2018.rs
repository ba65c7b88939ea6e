//! ES2018: object spread. `{ ...x, a: 1 }` becomes
//! `babelHelpers.objectSpread2({}, x, { a: 1 })`. Async generator functions
//! are recognized as an option but keep their syntax.

use vstd::prelude::*;

use crate::ast::{Arg, Expr, PropOrSpread};
use crate::ast_view::{args_v, expr_v, props_v, ExprV, PropOrSpreadV, ArgV};
use crate::ast_build::plain_args;
use crate::context::TransformCtx;
use crate::helper_loader::{external_helper, Helper, HelperLoaderStore};
use crate::text::{string_of, strs_v};

verus! {

/// Options of the object rest/spread transform.
#[derive(Clone, Copy, Debug)]
pub struct ObjectRestSpreadOptions {
    /// Set properties with `=` rather than `defineProperty` (not supported).
    pub loose: bool,
    /// Use `Object.assign` rather than the helper (not supported).
    pub use_built_ins: bool,
}

impl Default for ObjectRestSpreadOptions {
    fn default() -> (o: Self)
        ensures
            !o.loose && !o.use_built_ins,
    {
        ObjectRestSpreadOptions { loose: false, use_built_ins: false }
    }
}

/// Which ES2018 features are transformed.
#[derive(Clone, Copy, Debug)]
pub struct ES2018Options {
    pub object_rest_spread: Option<ObjectRestSpreadOptions>,
    pub async_generator_functions: bool,
}

impl Default for ES2018Options {
    fn default() -> (o: Self)
        ensures
            o.object_rest_spread is None && !o.async_generator_functions,
    {
        ES2018Options { object_rest_spread: None, async_generator_functions: false }
    }
}

/// The arguments collected from the properties `props[0..j]`, and the run of
/// plain properties not yet closed into an object literal.
pub open spec fn spread_state(props: Seq<PropOrSpreadV>, j: int) -> (Seq<ExprV>, Seq<PropOrSpreadV>)
    decreases j,
{
    if j <= 0 {
        (Seq::empty(), Seq::empty())
    } else {
        let prev = spread_state(props, j - 1);
        match props[j - 1] {
            PropOrSpreadV::Spread(e) => (close_run(prev.0, prev.1).push(e), Seq::empty()),
            p => (prev.0, prev.1.push(p)),
        }
    }
}

/// `args` with the run of plain properties appended as an object literal,
/// when the run is not empty.
pub open spec fn close_run(args: Seq<ExprV>, run: Seq<PropOrSpreadV>) -> Seq<ExprV> {
    if run.len() > 0 { args.push(ExprV::Object(run)) } else { args }
}

/// Whether `e` is `{}`.
pub open spec fn is_empty_object(e: ExprV) -> bool {
    e matches ExprV::Object(ps) && ps.len() == 0
}

/// The arguments of the helper call for an object literal with `props`:
/// runs of plain properties as object literals, spread values as they are,
/// and `{}` first unless the first argument already is `{}`.
pub open spec fn spread_args(props: Seq<PropOrSpreadV>) -> Seq<ExprV> {
    let st = spread_state(props, props.len() as int);
    let args = close_run(st.0, st.1);
    if args.len() > 0 && is_empty_object(args[0]) {
        args
    } else {
        seq![ExprV::Object(Seq::empty())] + args
    }
}

/// Whether one of `props` is a spread.
pub open spec fn has_spread(props: Seq<PropOrSpreadV>) -> bool {
    exists|i: int| 0 <= i < props.len() && #[trigger] props[i] is Spread
}

/// What the transform makes of an object literal with `props`.
pub open spec fn object_spread_v(props: Seq<PropOrSpreadV>) -> Option<ExprV> {
    if has_spread(props) {
        Some(ExprV::Call(Box::new(external_helper(Helper::ObjectSpread2)), plain_args(spread_args(props))))
    } else {
        None
    }
}

/// The properties that an argument of `objectSpread2` copies: those of an
/// object literal, or those of any other value, as a spread of it.
pub open spec fn copied_props(e: ExprV) -> Seq<PropOrSpreadV> {
    match e {
        ExprV::Object(ps) => ps,
        _ => seq![PropOrSpreadV::Spread(e)],
    }
}

/// The properties the arguments `es` copy, in order.
pub open spec fn copied_by(es: Seq<ExprV>) -> Seq<PropOrSpreadV>
    decreases es.len(),
{
    if es.len() == 0 {
        Seq::empty()
    } else {
        copied_by(es.drop_last()) + copied_props(es.last())
    }
}

/// The properties of an object literal, the spread of an object literal
/// read as its own properties.
pub open spec fn flattened(props: Seq<PropOrSpreadV>) -> Seq<PropOrSpreadV>
    decreases props.len(),
{
    if props.len() == 0 {
        Seq::empty()
    } else {
        flattened(props.drop_last()) + match props.last() {
            PropOrSpreadV::Spread(e) => copied_props(e),
            p => seq![p],
        }
    }
}

proof fn lemma_copied_by_append(a: Seq<ExprV>, b: Seq<ExprV>)
    ensures
        copied_by(a + b) == copied_by(a) + copied_by(b),
    decreases b.len(),
{
    if b.len() == 0 {
        assert(a + b =~= a);
        assert(copied_by(a) + copied_by(b) =~= copied_by(a));
    } else {
        lemma_copied_by_append(a, b.drop_last());
        assert((a + b).drop_last() =~= a + b.drop_last());
        assert((a + b).last() == b.last());
    }
}

proof fn lemma_close_run_copies(args: Seq<ExprV>, run: Seq<PropOrSpreadV>)
    ensures
        copied_by(close_run(args, run)) == copied_by(args) + run,
{
    if run.len() > 0 {
        assert(args.push(ExprV::Object(run)).drop_last() =~= args);
    } else {
        assert(copied_by(args) + run =~= copied_by(args));
    }
}

proof fn lemma_spread_state_copies(props: Seq<PropOrSpreadV>, j: int)
    requires
        0 <= j <= props.len(),
    ensures
        copied_by(spread_state(props, j).0) + spread_state(props, j).1 == flattened(props.take(j)),
    decreases j,
{
    if j == 0 {
        assert(props.take(0) =~= Seq::<PropOrSpreadV>::empty());
        assert(Seq::<PropOrSpreadV>::empty() + Seq::<PropOrSpreadV>::empty() =~= Seq::<PropOrSpreadV>::empty());
    } else {
        lemma_spread_state_copies(props, j - 1);
        let prev = spread_state(props, j - 1);
        assert(props.take(j).drop_last() =~= props.take(j - 1));
        assert(props.take(j).last() == props[j - 1]);
        match props[j - 1] {
            PropOrSpreadV::Spread(e) => {
                lemma_close_run_copies(prev.0, prev.1);
                let c = close_run(prev.0, prev.1);
                assert(c.push(e).drop_last() =~= c);
                assert(copied_by(c.push(e)) + Seq::<PropOrSpreadV>::empty() =~= copied_by(c) + copied_props(e));
            },
            p => {
                assert(copied_by(prev.0) + prev.1.push(p) =~= (copied_by(prev.0) + prev.1) + seq![p]);
            },
        }
    }
}

/// An object literal with a spread becomes one `objectSpread2` call whose
/// arguments, none of them spread, copy exactly the literal's properties
/// in their order (a spread object literal's own properties standing for
/// its spread): no property is dropped, added or moved. A literal without
/// a spread is left alone.
pub proof fn lemma_spread_copies_all(props: Seq<PropOrSpreadV>)
    ensures
        match object_spread_v(props) {
            Some(c) => has_spread(props) && exists|es: Seq<ExprV>|
                c == ExprV::Call(Box::new(external_helper(Helper::ObjectSpread2)), #[trigger] plain_args(es))
                && copied_by(es) == flattened(props),
            None => !has_spread(props),
        },
{
    if has_spread(props) {
        let st = spread_state(props, props.len() as int);
        lemma_spread_state_copies(props, props.len() as int);
        assert(props.take(props.len() as int) =~= props);
        let args = close_run(st.0, st.1);
        lemma_close_run_copies(st.0, st.1);
        let es = spread_args(props);
        if !(args.len() > 0 && is_empty_object(args[0])) {
            let e0 = seq![ExprV::Object(Seq::<PropOrSpreadV>::empty())];
            lemma_copied_by_append(e0, args);
            assert(e0.drop_last() =~= Seq::<ExprV>::empty());
            assert(e0.last() == ExprV::Object(Seq::<PropOrSpreadV>::empty()));
            assert(copied_by(Seq::<ExprV>::empty()) == Seq::<PropOrSpreadV>::empty());
            assert(copied_props(e0.last()) == Seq::<PropOrSpreadV>::empty());
            assert(copied_by(e0) =~= Seq::<PropOrSpreadV>::empty());
            assert(copied_by(e0) + copied_by(args) =~= copied_by(args));
        }
        assert(copied_by(es) == flattened(props));
        assert(object_spread_v(props) == Some(ExprV::Call(Box::new(external_helper(Helper::ObjectSpread2)), plain_args(es))));
    }
}

/// The rewrite of object spread.
pub struct ObjectRestSpread {
    pub options: ObjectRestSpreadOptions,
}

impl ObjectRestSpread {
    /// The transform with `options`; the options it does not support are
    /// reported.
    pub fn new(options: ObjectRestSpreadOptions, ctx: &mut TransformCtx) -> (s: Self)
        ensures
            s.options == options,
            final(ctx).statement_injector == old(ctx).statement_injector,
            strs_v(final(ctx).errors@) == strs_v(old(ctx).errors@)
                + (if options.loose { seq!["Option `loose` is not implemented for object-rest-spread."@] } else { Seq::empty() })
                + (if options.use_built_ins { seq!["Option `useBuiltIns` is not implemented for object-rest-spread."@] } else { Seq::empty() }),
    {
        let ghost e0 = strs_v(ctx.errors@);
        if options.loose {
            ctx.error(string_of("Option `loose` is not implemented for object-rest-spread."));
        }
        let ghost e1 = strs_v(ctx.errors@);
        if options.use_built_ins {
            ctx.error(string_of("Option `useBuiltIns` is not implemented for object-rest-spread."));
        }
        proof {
            assert(e0 + Seq::<Seq<char>>::empty() =~= e0);
            assert(e1 + Seq::<Seq<char>>::empty() =~= e1);
        }
        ObjectRestSpread { options }
    }

    /// The helper call for an object literal with `props`, or `None` when
    /// it has no spread; the properties are taken, leaving `props` empty.
    fn transform_object_expression(&self, props: &mut Vec<PropOrSpread>) -> (r: Option<Expr>)
        ensures
            match object_spread_v(props_v(old(props)@)) {
                Some(e) => r is Some && expr_v(r->Some_0) == e && final(props)@.len() == 0,
                None => r is None && *final(props) == *old(props),
            },
    {
        let ghost pv = props_v(props@);
        proof {
            crate::ast_view::lemma_props_v(props@);
        }
        let mut any = false;
        let mut i: usize = 0;
        while i < props.len()
            invariant
                i <= props.len(),
                pv == props_v(props@),
                pv.len() == props.len(),
                forall|k: int| 0 <= k < props.len() ==> #[trigger] pv[k] == crate::ast_view::prop_v(props@[k]),
                any == exists|k: int| 0 <= k < i && #[trigger] pv[k] is Spread,
            decreases props.len() - i,
        {
            let is_spread = match &props[i] {
                PropOrSpread::Spread(_) => true,
                _ => false,
            };
            assert(is_spread == (pv[i as int] is Spread));
            any = any || is_spread;
            i += 1;
        }
        if !any {
            return None;
        }
        let mut src: Vec<PropOrSpread> = Vec::new();
        std::mem::swap(&mut src, props);
        let ghost orig = src@;
        let n = src.len();
        let mut args: Vec<Arg> = Vec::new();
        let mut current: Vec<PropOrSpread> = Vec::new();
        let mut j: usize = 0;
        proof {
            crate::ast_view::lemma_props_v(current@);
            lemma_plain_args_empty();
        }
        while j < n
            invariant
                n == src.len(),
                n == orig.len(),
                props@.len() == 0,
                pv == props_v(orig),
                pv.len() == n,
                forall|k: int| 0 <= k < n ==> #[trigger] pv[k] == crate::ast_view::prop_v(orig[k]),
                j <= n,
                forall|k: int| j <= k < n ==> #[trigger] src@[k] == orig[k],
                args_v(args@) == plain_args(spread_state(pv, j as int).0),
                props_v(current@) == spread_state(pv, j as int).1,
            decreases n - j,
        {
            let mut p = PropOrSpread::Opaque(0);
            src.set_and_swap(j, &mut p);
            let ghost st = spread_state(pv, j as int);
            match p {
                PropOrSpread::Spread(e) => {
                    close_run_into(&mut args, &mut current);
                    let ghost a0 = args@;
                    let ghost ev = expr_v(e);
                    args.push(Arg { spread: false, expr: e });
                    proof {
                        lemma_args_push(a0, Arg { spread: false, expr: e });
                        crate::ast_view::lemma_props_v(current@);
                        assert(props_v(current@) =~= Seq::<PropOrSpreadV>::empty());
                        assert(plain_args(close_run(st.0, st.1).push(ev)) =~= plain_args(close_run(st.0, st.1)).push(ArgV { spread: false, expr: ev }));
                    }
                },
                p => {
                    let ghost c0 = current@;
                    let ghost ppv = crate::ast_view::prop_v(p);
                    current.push(p);
                    proof {
                        lemma_props_push(c0, p);
                    }
                },
            }
            j += 1;
        }
        let ghost st = spread_state(pv, n as int);
        close_run_into(&mut args, &mut current);
        proof {
            if st.1.len() > 0 {
                assert(plain_args(st.0.push(ExprV::Object(st.1))) =~= plain_args(st.0).push(ArgV { spread: false, expr: ExprV::Object(st.1) }));
            }
            assert(args_v(args@) == plain_args(close_run(st.0, st.1)));
        }
        let ghost a1 = args@;
        let first_is_empty = if args.len() > 0 {
            match &args[0].expr {
                Expr::Object(ps) => {
                    proof {
                        crate::ast_view::lemma_props_v(ps@);
                    }
                    ps.len() == 0
                },
                _ => false,
            }
        } else {
            false
        };
        proof {
            crate::ast_view::lemma_args_v(a1);
            if args.len() > 0 {
                assert(args_v(a1)[0] == crate::ast_view::arg_v(a1[0]));
                assert(plain_args(close_run(st.0, st.1))[0].expr == close_run(st.0, st.1)[0]);
            }
        }
        if !first_is_empty {
            let empty: Vec<PropOrSpread> = Vec::new();
            proof {
                crate::ast_view::lemma_props_v(empty@);
                assert(props_v(empty@) =~= Seq::<PropOrSpreadV>::empty());
            }
            args.insert(0, Arg { spread: false, expr: Expr::Object(empty) });
            proof {
                crate::ast_view::lemma_args_v(args@);
                let want = plain_args(seq![ExprV::Object(Seq::empty())] + close_run(st.0, st.1));
                assert forall|k: int| 0 <= k < args@.len() implies #[trigger] args_v(args@)[k] == want[k] by {
                    if k > 0 {
                        assert(args@[k] == a1[k - 1]);
                        assert(args_v(a1)[k - 1] == crate::ast_view::arg_v(a1[k - 1]));
                    }
                }
                assert(args_v(args@) =~= want);
            }
        }
        proof {
            let cr = close_run(st.0, st.1);
            if first_is_empty {
                assert(is_empty_object(cr[0]));
                assert(spread_args(pv) == cr);
            } else {
                assert(!(cr.len() > 0 && is_empty_object(cr[0])));
            }
            assert(args_v(args@) == plain_args(spread_args(pv)));
        }
        let callee = HelperLoaderStore::transform_for_external_helper(Helper::ObjectSpread2, crate::ast::dummy_sp());
        proof {
            let k = choose|k: int| 0 <= k < pv.len() && #[trigger] pv[k] is Spread;
            assert(has_spread(pv));
        }
        let ghost cv = expr_v(*callee);
        let ghost av = args_v(args@);
        let r = Expr::Call(callee, args);
        assert(expr_v(r) == ExprV::Call(Box::new(cv), av));
        Some(r)
    }

    /// Rewrites an object literal with a spread, once its children have been
    /// visited; other expressions are left as they are.
    pub fn exit_expr(&mut self, expr: &mut Expr)
        ensures
            match expr_v(*old(expr)) {
                ExprV::Object(props) => match object_spread_v(props) {
                    Some(e) => expr_v(*final(expr)) == e,
                    None => *final(expr) == *old(expr),
                },
                _ => *final(expr) == *old(expr),
            },
    {
        let is_object = match expr {
            Expr::Object(_) => true,
            _ => false,
        };
        if !is_object {
            return;
        }
        let mut e = crate::ast_clone::take_expr(expr);
        let ghost ev = expr_v(e);
        match e {
            Expr::Object(mut props) => {
                let ghost pv = props_v(props@);
                match self.transform_object_expression(&mut props) {
                    Some(new_expr) => {
                        *expr = new_expr;
                    },
                    None => {
                        *expr = Expr::Object(props);
                    },
                }
            },
            other => {
                *expr = other;
            },
        }
    }
}

proof fn lemma_plain_args_empty()
    ensures
        args_v(Seq::<Arg>::empty()) == plain_args(Seq::<ExprV>::empty()),
{
    assert(args_v(Seq::<Arg>::empty()) =~= Seq::<ArgV>::empty());
    assert(plain_args(Seq::<ExprV>::empty()) =~= Seq::<ArgV>::empty());
}

proof fn lemma_args_push(a: Seq<Arg>, x: Arg)
    ensures
        args_v(a.push(x)) == args_v(a).push(crate::ast_view::arg_v(x)),
{
    assert(a.push(x).subrange(0, a.len() as int) =~= a);
}

proof fn lemma_props_push(a: Seq<PropOrSpread>, x: PropOrSpread)
    ensures
        props_v(a.push(x)) == props_v(a).push(crate::ast_view::prop_v(x)),
{
    assert(a.push(x).subrange(0, a.len() as int) =~= a);
}

/// Appends the run of plain properties to `args` as an object literal, when
/// it is not empty, and empties the run.
fn close_run_into(args: &mut Vec<Arg>, current: &mut Vec<PropOrSpread>)
    ensures
        ({
            let cv = props_v(old(current)@);
            &&& args_v(final(args)@) == if cv.len() > 0 {
                args_v(old(args)@).push(ArgV { spread: false, expr: ExprV::Object(cv) })
            } else {
                args_v(old(args)@)
            }
            &&& props_v(final(current)@) == Seq::<PropOrSpreadV>::empty()
            &&& final(current)@.len() == 0
        }),
{
    proof {
        crate::ast_view::lemma_props_v(current@);
    }
    if current.len() > 0 {
        let mut run: Vec<PropOrSpread> = Vec::new();
        std::mem::swap(&mut run, current);
        let ghost a0 = args@;
        let x = Arg { spread: false, expr: Expr::Object(run) };
        args.push(x);
        proof {
            lemma_args_push(a0, x);
        }
    }
    proof {
        crate::ast_view::lemma_props_v(current@);
        assert(props_v(current@) =~= Seq::<PropOrSpreadV>::empty());
    }
}

/// The async generator functions transform; it keeps their syntax.
pub struct AsyncGeneratorFunctions {}

impl AsyncGeneratorFunctions {
    pub fn new(_ctx: &TransformCtx) -> (s: Self) {
        AsyncGeneratorFunctions {}
    }
}

/// The ES2018 pass.
pub struct ES2018 {
    pub options: ES2018Options,
    pub object_rest_spread: ObjectRestSpread,
    pub async_generator_functions: AsyncGeneratorFunctions,
}

impl ES2018 {
    pub fn new(options: ES2018Options, ctx: &mut TransformCtx) -> (s: Self)
        ensures
            s.options == options,
            s.object_rest_spread.options == match options.object_rest_spread {
                Some(o) => o,
                None => ObjectRestSpreadOptions { loose: false, use_built_ins: false },
            },
            final(ctx).statement_injector == old(ctx).statement_injector,
    {
        let ors_options = match options.object_rest_spread {
            Some(o) => o,
            None => ObjectRestSpreadOptions::default(),
        };
        let object_rest_spread = ObjectRestSpread::new(ors_options, ctx);
        ES2018 { options, object_rest_spread, async_generator_functions: AsyncGeneratorFunctions::new(ctx) }
    }

    /// Rewrites an object literal with a spread, when enabled.
    pub fn exit_expr(&mut self, expr: &mut Expr)
        ensures
            old(self).options.object_rest_spread is None ==> *final(expr) == *old(expr),
            old(self).options.object_rest_spread is Some ==> match expr_v(*old(expr)) {
                ExprV::Object(props) => match object_spread_v(props) {
                    Some(e) => expr_v(*final(expr)) == e,
                    None => *final(expr) == *old(expr),
                },
                _ => *final(expr) == *old(expr),
            },
    {
        if self.options.object_rest_spread.is_some() {
            self.object_rest_spread.exit_expr(expr);
        }
    }
}

} // verus!
