//! ES2020: nullish coalescing, optional chaining, and `export * as ns`;
//! BigInt literals and string module names are reported when the target
//! lacks them.

use vstd::prelude::*;

use crate::ast::{ExportSpecifier, Expr, ImportSpecifier, ModuleExportName, ModuleItem, Span};
use crate::ast_view::{expr_v, module_items_v, ExprV};
use crate::context::TransformCtx;
use crate::text::{push_span, push_str, span_text, strs_v};

pub mod nullish_coalescing_operator;
pub mod optional_chaining;
pub mod export_namespace_from;

use export_namespace_from::ExportNamespaceFrom;
use nullish_coalescing_operator::NullishCoalescingOperator;
use optional_chaining::OptionalChaining;

verus! {

/// Which ES2020 features are transformed or reported.
#[derive(Clone, Copy, Debug)]
pub struct ES2020Options {
    /// `export * as ns from "mod"` is split into an import and an export.
    pub export_namespace_from: bool,
    /// `??` is rewritten.
    pub nullish_coalescing_operator: bool,
    /// BigInt literals are reported.
    pub big_int: bool,
    /// `?.` is rewritten.
    pub optional_chaining: bool,
    /// String module export names are reported.
    pub arbitrary_module_namespace_names: bool,
}

impl Default for ES2020Options {
    fn default() -> (o: Self)
        ensures
            !o.export_namespace_from && !o.nullish_coalescing_operator && !o.big_int
                && !o.optional_chaining && !o.arbitrary_module_namespace_names,
    {
        ES2020Options {
            export_namespace_from: false,
            nullish_coalescing_operator: false,
            big_int: false,
            optional_chaining: false,
            arbitrary_module_namespace_names: false,
        }
    }
}

/// The report of a BigInt literal at `lo..hi`.
pub open spec fn big_int_message(lo: u32, hi: u32) -> Seq<char> {
    "Big integer literals are not available in the configured target environment. Found at span: "@
        + span_text(lo, hi)
}

/// The report of a string module export name in a specifier at `lo..hi`.
pub open spec fn namespace_name_message(lo: u32, hi: u32) -> Seq<char> {
    "Arbitrary module namespace identifier names are not available in the configured target environment. Found at span: "@
        + span_text(lo, hi)
}

/// The ES2020 pass.
pub struct ES2020 {
    pub options: ES2020Options,
    pub export_namespace_from: ExportNamespaceFrom,
    pub nullish_coalescing_operator: NullishCoalescingOperator,
    pub optional_chaining: OptionalChaining,
}

impl ES2020 {
    pub fn new(options: ES2020Options, ctx: &TransformCtx) -> (s: Self)
        ensures
            s.options == options,
            s.export_namespace_from.uid_counter == 0,
            s.nullish_coalescing_operator.uid_counter == 0,
            s.optional_chaining.uid_counter == 0,
            s.optional_chaining.no_document_all == ctx.assumptions.no_document_all,
    {
        ES2020 {
            options,
            export_namespace_from: ExportNamespaceFrom::new(),
            nullish_coalescing_operator: NullishCoalescingOperator::new(ctx),
            optional_chaining: OptionalChaining::new(ctx),
        }
    }

    /// Splits the namespace re-exports of a module body, when enabled; runs
    /// before the body's children are visited.
    pub fn visit_mut_module(&mut self, body: &mut Vec<ModuleItem>)
        requires
            old(self).export_namespace_from.uid_counter + export_namespace_from::count_from(module_items_v(old(body)@), 0) <= usize::MAX,
        ensures
            !old(self).options.export_namespace_from ==> *final(body) == *old(body),
            old(self).options.export_namespace_from ==> module_items_v(final(body)@) == export_namespace_from::rewrite_prefix(
                module_items_v(old(body)@),
                old(self).export_namespace_from.uid_counter as nat,
                old(body)@.len() as int,
            ),
    {
        if self.options.export_namespace_from {
            self.export_namespace_from.exit_module(body);
        }
    }

    /// What the pass makes of an expression whose children have been
    /// visited: `??` is rewritten, then `?.`, as far as each is enabled.
    pub open spec fn spec_exit_expr(self, e: ExprV) -> ExprV {
        let n = if self.options.nullish_coalescing_operator {
            self.nullish_coalescing_operator.spec_rewrite(e).0
        } else {
            e
        };
        if self.options.optional_chaining {
            optional_chaining::opt_chain_rewrite(
                n,
                self.optional_chaining.no_document_all,
                self.optional_chaining.uid_counter as nat,
                self.optional_chaining.var_declarations.frames(),
            ).0
        } else {
            n
        }
    }

    /// Rewrites `??` and then `?.` at an expression whose children have been
    /// visited, as far as each is enabled.
    pub fn exit_expr(&mut self, expr: &mut Expr)
        requires
            old(self).nullish_coalescing_operator.uid_counter < usize::MAX,
            old(self).optional_chaining.uid_counter + optional_chaining::temps_needed(expr_v(*old(expr))) <= usize::MAX,
        ensures
            expr_v(*final(expr)) == old(self).spec_exit_expr(expr_v(*old(expr))),
    {
        let ghost e0 = expr_v(*expr);
        if self.options.nullish_coalescing_operator {
            self.nullish_coalescing_operator.exit_expr(expr);
            proof {
                match e0 {
                    ExprV::Bin(op, _, _) => {
                        if op == crate::ast::BinaryOp::NullishCoalescing {
                            assert(expr_v(*expr) is Cond);
                        }
                    },
                    _ => {},
                }
            }
        }
        if self.options.optional_chaining {
            self.optional_chaining.exit_expr(expr);
        }
    }

    /// Reports a BigInt literal at `span` when BigInt is unsupported.
    pub fn visit_mut_big_int(&self, span: Span, ctx: &mut TransformCtx)
        ensures
            old(ctx).statement_injector == final(ctx).statement_injector,
            strs_v(final(ctx).errors@) == if self.options.big_int {
                strs_v(old(ctx).errors@).push(big_int_message(span.lo, span.hi))
            } else {
                strs_v(old(ctx).errors@)
            },
    {
        if self.options.big_int {
            let mut msg = String::new();
            push_str(&mut msg, "Big integer literals are not available in the configured target environment. Found at span: ");
            push_span(&mut msg, span.lo, span.hi);
            assert(msg@ =~= big_int_message(span.lo, span.hi));
            ctx.error(msg);
        }
    }

    /// Reports the namespace-name error for a specifier at `span`.
    fn report_namespace_name(span: Span, ctx: &mut TransformCtx)
        ensures
            old(ctx).statement_injector == final(ctx).statement_injector,
            strs_v(final(ctx).errors@) == strs_v(old(ctx).errors@).push(namespace_name_message(span.lo, span.hi)),
    {
        let mut msg = String::new();
        push_str(
            &mut msg,
            "Arbitrary module namespace identifier names are not available in the configured target environment. Found at span: ",
        );
        push_span(&mut msg, span.lo, span.hi);
        assert(msg@ =~= namespace_name_message(span.lo, span.hi));
        ctx.error(msg);
    }

    /// Reports a named import at `span` that imports a string name, when
    /// such names are unsupported.
    pub fn visit_mut_import_named_specifier(&self, specifier: &ImportSpecifier, span: Span, ctx: &mut TransformCtx)
        ensures
            old(ctx).statement_injector == final(ctx).statement_injector,
            strs_v(final(ctx).errors@) == if self.options.arbitrary_module_namespace_names && match *specifier {
                ImportSpecifier::Named(_, Some(ModuleExportName::Str(_))) => true,
                _ => false,
            } {
                strs_v(old(ctx).errors@).push(namespace_name_message(span.lo, span.hi))
            } else {
                strs_v(old(ctx).errors@)
            },
    {
        if self.options.arbitrary_module_namespace_names {
            match specifier {
                ImportSpecifier::Named(_, Some(ModuleExportName::Str(_))) => Self::report_namespace_name(span, ctx),
                _ => {},
            }
        }
    }

    /// Reports a named export at `span` whose exported name, and then whose
    /// local name, is a string, when such names are unsupported: one report
    /// for each.
    pub fn visit_mut_export_named_specifier(&self, specifier: &ExportSpecifier, span: Span, ctx: &mut TransformCtx)
        ensures
            old(ctx).statement_injector == final(ctx).statement_injector,
            strs_v(final(ctx).errors@) == strs_v(old(ctx).errors@) + if self.options.arbitrary_module_namespace_names {
                match *specifier {
                    ExportSpecifier::Named(orig, exported) => {
                        let m = namespace_name_message(span.lo, span.hi);
                        (if exported matches Some(ModuleExportName::Str(_)) { seq![m] } else { Seq::empty() })
                            + (if orig is Str { seq![m] } else { Seq::empty() })
                    },
                    _ => Seq::empty(),
                }
            } else {
                Seq::empty()
            },
    {
        let ghost e0 = strs_v(ctx.errors@);
        if self.options.arbitrary_module_namespace_names {
            match specifier {
                ExportSpecifier::Named(orig, exported) => {
                    let ghost m = namespace_name_message(span.lo, span.hi);
                    match exported {
                        Some(ModuleExportName::Str(_)) => Self::report_namespace_name(span, ctx),
                        _ => {},
                    }
                    let ghost e1 = strs_v(ctx.errors@);
                    match orig {
                        ModuleExportName::Str(_) => Self::report_namespace_name(span, ctx),
                        _ => {},
                    }
                    assert(strs_v(ctx.errors@) =~= e0 + ((if exported matches Some(ModuleExportName::Str(_)) {
                        seq![m]
                    } else {
                        Seq::empty()
                    }) + (if orig is Str { seq![m] } else { Seq::empty() })));
                },
                _ => {
                    assert(strs_v(ctx.errors@) =~= e0 + Seq::<Seq<char>>::empty());
                },
            }
        } else {
            assert(strs_v(ctx.errors@) =~= e0 + Seq::<Seq<char>>::empty());
        }
    }
}

} // verus!
