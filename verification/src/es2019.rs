//! ES2019: optional catch binding. `catch { .. }` gets the parameter
//! `_unused`.

use vstd::prelude::*;

use crate::ast::{CatchClause, Pat};
use crate::ast_build::{gen_ident, ident};
use crate::ast_view::{pat_v, PatV};
use crate::context::TransformCtx;

verus! {

/// Which ES2019 features are transformed.
#[derive(Clone, Copy, Debug)]
pub struct ES2019Options {
    /// `catch { .. }` gets a parameter.
    pub optional_catch_binding: bool,
}

impl Default for ES2019Options {
    fn default() -> (o: Self)
        ensures
            !o.optional_catch_binding,
    {
        ES2019Options { optional_catch_binding: false }
    }
}

/// The rewrite of `catch` clauses without a parameter.
pub struct OptionalCatchBinding {}

impl OptionalCatchBinding {
    pub fn new(_ctx: &TransformCtx) -> (s: Self) {
        OptionalCatchBinding {}
    }

    /// Gives a clause without a parameter the parameter `_unused`; other
    /// clauses are left as they are.
    pub fn enter_catch_clause(&mut self, clause: &mut CatchClause)
        ensures
            final(clause).body == old(clause).body,
            old(clause).param is Some ==> final(clause).param == old(clause).param,
            old(clause).param is None ==> (final(clause).param is Some && pat_v(final(clause).param->Some_0) == PatV::Ident(gen_ident("_unused"@))),
    {
        if clause.param.is_some() {
            return;
        }
        clause.param = Some(Pat::Ident(ident("_unused")));
    }
}

/// The ES2019 pass.
pub struct ES2019 {
    pub options: ES2019Options,
    pub optional_catch_binding: OptionalCatchBinding,
}

impl ES2019 {
    pub fn new(options: ES2019Options, ctx: &TransformCtx) -> (s: Self)
        ensures
            s.options == options,
    {
        ES2019 { options, optional_catch_binding: OptionalCatchBinding::new(ctx) }
    }

    /// Gives a clause without a parameter `_unused`, when enabled.
    pub fn enter_catch_clause(&mut self, clause: &mut CatchClause)
        ensures
            final(clause).body == old(clause).body,
            !old(self).options.optional_catch_binding || old(clause).param is Some ==> final(clause).param == old(clause).param,
            old(self).options.optional_catch_binding && old(clause).param is None ==> (final(clause).param is Some && pat_v(final(clause).param->Some_0) == PatV::Ident(gen_ident("_unused"@))),
    {
        if self.options.optional_catch_binding {
            self.optional_catch_binding.enter_catch_clause(clause);
        }
    }
}

} // verus!
