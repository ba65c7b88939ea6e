//! Third-party plugins: styled-components, when configured.

use vstd::prelude::*;

use crate::ast::{Expr, ModuleItem, VarDeclarator};
use crate::ast_view::{expr_v, module_items_v};
use crate::context::TransformCtx;
use crate::styled_components::{
    bind_items, config_v, tagged_step_v, StyledComponents, StyledComponentsOptions,
};

verus! {

/// Which plugins run, with their options.
pub struct PluginsOptions {
    pub styled_components: Option<StyledComponentsOptions>,
}

/// The plugins of one traversal.
pub struct Plugins {
    pub styled_components: Option<StyledComponents>,
}

impl Plugins {
    /// The plugins whose options are given.
    pub fn new(options: PluginsOptions, ctx: &TransformCtx) -> (p: Self)
        ensures
            p.wf(),
            p.styled_components is Some <==> options.styled_components is Some,
            p.styled_components is Some ==> p.styled_components->Some_0.options == options.styled_components->Some_0
                && p.styled_components->Some_0.component_count == 0,
    {
        let styled_components = match options.styled_components {
            Some(o) => Some(StyledComponents::new(o, ctx)),
            None => None,
        };
        Plugins { styled_components }
    }

    pub open spec fn wf(&self) -> bool {
        self.styled_components is Some ==> self.styled_components->Some_0.wf()
    }

    /// The styled-components bindings of a module are collected.
    pub fn enter_module(&mut self, items: &Vec<ModuleItem>)
        requires
            old(self).wf(),
        ensures
            final(self).wf(),
            old(self).styled_components is None ==> *final(self) == *old(self),
            old(self).styled_components is Some ==> {
                let s0 = old(self).styled_components->Some_0;
                let s1 = final(self).styled_components->Some_0;
                &&& final(self).styled_components is Some
                &&& s1.styled_bindings.view() == bind_items(s0.styled_bindings.view(), module_items_v(items@))
                &&& s1.options == s0.options
                &&& s1.component_count == s0.component_count
            },
    {
        match &mut self.styled_components {
            Some(s) => s.enter_module(items),
            None => {},
        }
    }

    /// Declarators are left as they are, and so are the plugins.
    pub fn enter_var_declarator(&mut self, node: &mut VarDeclarator)
        ensures
            *final(self) == *old(self),
            *final(node) == *old(node),
    {
        match &mut self.styled_components {
            Some(s) => s.enter_var_declarator(node),
            None => {},
        }
    }

    /// Tagged templates of styled components, as `tagged_step_v` says.
    pub fn enter_expr(&mut self, node: &mut Expr)
        requires
            old(self).wf(),
            old(self).styled_components is Some ==> old(self).styled_components->Some_0.component_count < usize::MAX,
        ensures
            final(self).wf(),
            old(self).styled_components is None || !(*old(node) is TaggedTpl) ==> *final(node) == *old(node),
            old(self).styled_components is Some && *old(node) is TaggedTpl ==> expr_v(*final(node)) == tagged_step_v(
                old(self).styled_components->Some_0,
                *(*old(node))->TaggedTpl_0,
                (*old(node))->TaggedTpl_1,
            ).0,
    {
        match &mut self.styled_components {
            Some(s) => s.enter_expr(node),
            None => {},
        }
    }

    /// The callee of a call gets its configuration, as `config_v` says.
    pub fn enter_call_expr(&mut self, callee: &mut Expr)
        requires
            old(self).wf(),
            old(self).styled_components is Some ==> old(self).styled_components->Some_0.component_count < usize::MAX,
        ensures
            final(self).wf(),
            old(self).styled_components is None ==> *final(callee) == *old(callee),
            old(self).styled_components is Some && (old(self).styled_components->Some_0.options.display_name
                || old(self).styled_components->Some_0.options.ssr) ==> expr_v(*final(callee)) == config_v(
                old(self).styled_components->Some_0,
                expr_v(*old(callee)),
            ).0,
    {
        match &mut self.styled_components {
            Some(s) => s.enter_call_expr(callee),
            None => {},
        }
    }
}

} // verus!
