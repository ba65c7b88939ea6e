//! Options of the passes whose transforms keep no logic of their own here,
//! and of Babel's preset-env.

use vstd::prelude::*;

verus! {

/// Options of the legacy decorator transform.
#[derive(Clone, Copy, Debug)]
pub struct DecoratorOptions {
    pub legacy: bool,
    pub emit_decorator_metadata: bool,
}

impl Default for DecoratorOptions {
    fn default() -> (o: Self)
        ensures
            !o.legacy && !o.emit_decorator_metadata,
    {
        DecoratorOptions { legacy: false, emit_decorator_metadata: false }
    }
}

/// Options for proposals that are not yet standard; there are none now.
#[derive(Clone, Copy, Debug)]
pub struct ProposalOptions {}

impl Default for ProposalOptions {
    fn default() -> (o: Self) {
        ProposalOptions {}
    }
}

/// The module format of Babel's preset-env.
#[derive(Clone, Copy, Debug, PartialEq, Eq, Structural)]
pub enum BabelModule {
    Auto,
    Amd,
    Umd,
    Systemjs,
    Commonjs,
    Boolean(bool),
}

impl Default for BabelModule {
    fn default() -> (m: Self)
        ensures
            m == BabelModule::Auto,
    {
        BabelModule::Auto
    }
}

/// The default of preset-env's `bugfixes`.
pub fn default_as_true() -> (b: bool)
    ensures
        b,
{
    true
}

/// State shared by the passes of one traversal; they keep it in their own
/// fields, so it holds nothing.
pub struct TransformState {}

impl Default for TransformState {
    fn default() -> (s: Self) {
        TransformState {}
    }
}

/// When arrow functions are turned into function expressions.
#[derive(Clone, Copy, Debug, PartialEq, Eq, Structural)]
pub enum ArrowFunctionConverterMode {
    /// Never.
    Disabled,
    /// Always.
    Enabled,
    /// Only `async` arrow functions.
    AsyncOnly,
}

} // verus!
