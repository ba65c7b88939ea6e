//! The compatibility compiler: the context that its passes share.

use vstd::prelude::*;

use crate::context::{Assumptions, TransformCtx};

verus! {

/// The compatibility compiler of one file, holding the context its passes
/// share.
pub struct CompatCompiler {
    pub ctx: TransformCtx,
}

impl CompatCompiler {
    /// A compiler for the file at `source_path`, under `assumptions`.
    pub fn new(source_path: String, assumptions: Assumptions) -> (c: Self)
        ensures
            c.ctx.wf(),
            c.ctx.source_path@ == source_path@,
            c.ctx.assumptions == assumptions,
            c.ctx.errors@.len() == 0,
    {
        CompatCompiler { ctx: TransformCtx::new(source_path, assumptions) }
    }

    /// The shared context.
    pub fn context(&self) -> (c: &TransformCtx)
        ensures
            *c == self.ctx,
    {
        &self.ctx
    }

    /// The shared context, to change.
    pub fn context_mut(&mut self) -> (c: &mut TransformCtx)
        ensures
            *c == old(self).ctx,
            final(self).ctx == *final(c),
    {
        &mut self.ctx
    }
}

impl Default for CompatCompiler {
    /// A compiler for a file with an empty path, under no assumptions.
    fn default() -> (c: Self)
        ensures
            c.ctx.wf(),
            c.ctx.source_path@ == Seq::<char>::empty(),
            !c.ctx.assumptions.no_document_all,
            !c.ctx.assumptions.set_public_class_fields,
            !c.ctx.assumptions.private_fields_as_properties,
            c.ctx.errors@.len() == 0,
    {
        let assumptions = Assumptions {
            no_document_all: false,
            set_public_class_fields: false,
            private_fields_as_properties: false,
        };
        Self::new(String::new(), assumptions)
    }
}

} // verus!
