//! Helper functions that transforms call at run time, and the store that
//! decides how each helper is reached.

use vstd::prelude::*;

use crate::ast::{dummy_sp, dummy_span, Arg, Expr, Ident, ImportDecl, ImportSpecifier, MemberExpr, MemberProp, ModuleDecl, Span};
use crate::ast_view::{args_v, expr_v, module_decl_v, ExprV, IdentV, ImportDeclV, ImportSpecifierV, MemberExprV, MemberPropV, ModuleDeclV};
use crate::text::{push_str, string_of};

verus! {

/// How helper functions are reached from the transformed program.
#[derive(Clone, Copy, Debug, PartialEq, Eq, Structural)]
pub enum HelperLoaderMode {
    /// Helper functions are inserted into the program (not supported).
    Inline,
    /// Helper functions are read from a global `babelHelpers` object.
    External,
    /// Helper functions are imported from a runtime package.
    Runtime,
}

impl Default for HelperLoaderMode {
    /// Helpers are imported from the runtime package.
    fn default() -> (m: Self)
        ensures
            m == HelperLoaderMode::Runtime,
    {
        HelperLoaderMode::Runtime
    }
}

/// Where helpers come from.
#[derive(Debug)]
pub struct HelperLoaderOptions {
    /// The package that runtime helpers are imported from.
    pub module_name: String,
    pub mode: HelperLoaderMode,
}

impl Default for HelperLoaderOptions {
    /// Runtime helpers from `@swc/helpers`.
    fn default() -> (o: Self)
        ensures
            o.module_name@ == "@swc/helpers"@,
            o.mode == HelperLoaderMode::Runtime,
    {
        HelperLoaderOptions { module_name: string_of("@swc/helpers"), mode: HelperLoaderMode::Runtime }
    }
}

/// The available helpers.
#[derive(Clone, Copy, Debug, PartialEq, Eq, Structural)]
pub enum Helper {
    AwaitAsyncGenerator,
    AsyncGeneratorDelegate,
    AsyncIterator,
    AsyncToGenerator,
    ObjectSpread2,
    WrapAsyncGenerator,
    Extends,
    ObjectDestructuringEmpty,
    ObjectWithoutProperties,
    ToPropertyKey,
    DefineProperty,
    ClassPrivateFieldInitSpec,
    ClassPrivateMethodInitSpec,
    ClassPrivateFieldGet2,
    ClassPrivateFieldSet2,
    AssertClassBrand,
    ToSetter,
    ClassPrivateFieldLooseKey,
    ClassPrivateFieldLooseBase,
    SuperPropGet,
    SuperPropSet,
    ReadOnlyError,
    WriteOnlyError,
    CheckInRHS,
    Decorate,
    DecorateParam,
    DecorateMetadata,
    UsingCtx,
}

impl Helper {
    /// The name under which the helper is exported.
    pub open spec fn spec_name(self) -> Seq<char> {
        match self {
            Helper::AwaitAsyncGenerator => "awaitAsyncGenerator"@,
            Helper::AsyncGeneratorDelegate => "asyncGeneratorDelegate"@,
            Helper::AsyncIterator => "asyncIterator"@,
            Helper::AsyncToGenerator => "asyncToGenerator"@,
            Helper::ObjectSpread2 => "objectSpread2"@,
            Helper::WrapAsyncGenerator => "wrapAsyncGenerator"@,
            Helper::Extends => "extends"@,
            Helper::ObjectDestructuringEmpty => "objectDestructuringEmpty"@,
            Helper::ObjectWithoutProperties => "objectWithoutProperties"@,
            Helper::ToPropertyKey => "toPropertyKey"@,
            Helper::DefineProperty => "defineProperty"@,
            Helper::ClassPrivateFieldInitSpec => "classPrivateFieldInitSpec"@,
            Helper::ClassPrivateMethodInitSpec => "classPrivateMethodInitSpec"@,
            Helper::ClassPrivateFieldGet2 => "classPrivateFieldGet2"@,
            Helper::ClassPrivateFieldSet2 => "classPrivateFieldSet2"@,
            Helper::AssertClassBrand => "assertClassBrand"@,
            Helper::ToSetter => "toSetter"@,
            Helper::ClassPrivateFieldLooseKey => "classPrivateFieldLooseKey"@,
            Helper::ClassPrivateFieldLooseBase => "classPrivateFieldLooseBase"@,
            Helper::SuperPropGet => "superPropGet"@,
            Helper::SuperPropSet => "superPropSet"@,
            Helper::ReadOnlyError => "readOnlyError"@,
            Helper::WriteOnlyError => "writeOnlyError"@,
            Helper::CheckInRHS => "checkInRHS"@,
            Helper::Decorate => "decorate"@,
            Helper::DecorateParam => "decorateParam"@,
            Helper::DecorateMetadata => "decorateMetadata"@,
            Helper::UsingCtx => "usingCtx"@,
        }
    }

    /// The exported name of the helper.
    pub fn name(self) -> (s: &'static str)
        ensures
            s@ == self.spec_name(),
    {
        match self {
            Helper::AwaitAsyncGenerator => "awaitAsyncGenerator",
            Helper::AsyncGeneratorDelegate => "asyncGeneratorDelegate",
            Helper::AsyncIterator => "asyncIterator",
            Helper::AsyncToGenerator => "asyncToGenerator",
            Helper::ObjectSpread2 => "objectSpread2",
            Helper::WrapAsyncGenerator => "wrapAsyncGenerator",
            Helper::Extends => "extends",
            Helper::ObjectDestructuringEmpty => "objectDestructuringEmpty",
            Helper::ObjectWithoutProperties => "objectWithoutProperties",
            Helper::ToPropertyKey => "toPropertyKey",
            Helper::DefineProperty => "defineProperty",
            Helper::ClassPrivateFieldInitSpec => "classPrivateFieldInitSpec",
            Helper::ClassPrivateMethodInitSpec => "classPrivateMethodInitSpec",
            Helper::ClassPrivateFieldGet2 => "classPrivateFieldGet2",
            Helper::ClassPrivateFieldSet2 => "classPrivateFieldSet2",
            Helper::AssertClassBrand => "assertClassBrand",
            Helper::ToSetter => "toSetter",
            Helper::ClassPrivateFieldLooseKey => "classPrivateFieldLooseKey",
            Helper::ClassPrivateFieldLooseBase => "classPrivateFieldLooseBase",
            Helper::SuperPropGet => "superPropGet",
            Helper::SuperPropSet => "superPropSet",
            Helper::ReadOnlyError => "readOnlyError",
            Helper::WriteOnlyError => "writeOnlyError",
            Helper::CheckInRHS => "checkInRHS",
            Helper::Decorate => "decorate",
            Helper::DecorateParam => "decorateParam",
            Helper::DecorateMetadata => "decorateMetadata",
            Helper::UsingCtx => "usingCtx",
        }
    }

    /// Whether a call of the helper has no side effects.
    pub fn pure(self) -> (b: bool)
        ensures
            b == (self == Helper::ClassPrivateFieldLooseKey),
    {
        match self {
            Helper::ClassPrivateFieldLooseKey => true,
            _ => false,
        }
    }
}

/// The module a runtime helper is imported from.
pub open spec fn runtime_source(module_name: Seq<char>, h: Helper) -> Seq<char> {
    module_name + "/helpers/"@ + h.spec_name()
}

/// The binding of a helper: an identifier named after it.
pub open spec fn helper_ident(h: Helper, span: Span) -> IdentV {
    IdentV { sym: h.spec_name(), ctxt: 0, span }
}

/// `babelHelpers.name`.
pub open spec fn external_helper(h: Helper) -> ExprV {
    ExprV::Member(
        MemberExprV {
            obj: Box::new(ExprV::Ident(IdentV { sym: "babelHelpers"@, ctxt: 0, span: dummy_span() })),
            prop: MemberPropV::Ident(IdentV { sym: h.spec_name(), ctxt: 0, span: dummy_span() }),
        },
    )
}

/// `import name from "module/helpers/name"`.
pub open spec fn helper_import(module_name: Seq<char>, h: Helper) -> ModuleDeclV {
    ModuleDeclV::Import(
        ImportDeclV {
            specifiers: seq![ImportSpecifierV::Default(helper_ident(h, dummy_span()))],
            src: runtime_source(module_name, h),
            type_only: false,
            with: None,
        },
    )
}

/// Whether `h` is among the keys of `used`.
pub open spec fn used_has(used: Seq<(Helper, Seq<char>)>, h: Helper) -> bool {
    exists|i: int| 0 <= i < used.len() && (#[trigger] used[i]).0 == h
}

/// `s` with `h` added at its end unless it holds it already.
pub open spec fn add_once(s: Seq<Helper>, h: Helper) -> Seq<Helper> {
    if s.contains(h) { s } else { s.push(h) }
}

/// Loading a helper twice loads it once: the second load changes nothing,
/// and the helper is then loaded.
pub proof fn lemma_add_once_idempotent(s: Seq<Helper>, h: Helper)
    ensures
        add_once(s, h).contains(h),
        add_once(add_once(s, h), h) == add_once(s, h),
{
    if !s.contains(h) {
        assert(s.push(h)[s.len() as int] == h);
    }
}

/// Loading keeps each helper loaded once at most, so that the runtime mode
/// imports each helper once.
pub proof fn lemma_add_once_no_duplicates(s: Seq<Helper>, h: Helper)
    requires
        s.no_duplicates(),
    ensures
        add_once(s, h).no_duplicates(),
{
    if !s.contains(h) {
        let t = s.push(h);
        assert forall|i: int, j: int| 0 <= i < t.len() && 0 <= j < t.len() && i != j implies t[i] != t[j] by {
            if i < s.len() && j < s.len() {
                assert(t[i] == s[i] && t[j] == s[j]);
            } else if i == s.len() {
                assert(t[j] == s[j]);
            } else {
                assert(t[i] == s[i]);
            }
        }
    }
}

/// The loaded helpers after loading `hs` in turn, starting from `s`.
pub open spec fn loads(s: Seq<Helper>, hs: Seq<Helper>) -> Seq<Helper>
    decreases hs.len(),
{
    if hs.len() == 0 {
        s
    } else {
        add_once(loads(s, hs.drop_last()), hs.last())
    }
}

/// Loading any helpers one after the other, from a loader with nothing
/// loaded, loads each helper that was asked for exactly once, and no other:
/// the runtime mode then imports each distinct helper once
/// (`import_declarations` makes one import per loaded helper).
pub proof fn lemma_loads_once_each(hs: Seq<Helper>)
    ensures
        loads(Seq::empty(), hs).no_duplicates(),
        forall|h: Helper| loads(Seq::empty(), hs).contains(h) <==> hs.contains(h),
    decreases hs.len(),
{
    if hs.len() > 0 {
        let prev = loads(Seq::empty(), hs.drop_last());
        lemma_loads_once_each(hs.drop_last());
        lemma_add_once_no_duplicates(prev, hs.last());
        assert(loads(Seq::empty(), hs) == add_once(prev, hs.last()));
        assert forall|h: Helper| loads(Seq::empty(), hs).contains(h) <==> hs.contains(h) by {
            if hs.contains(h) {
                let i = choose|i: int| 0 <= i < hs.len() && hs[i] == h;
                if i < hs.len() - 1 {
                    assert(hs.drop_last()[i] == h);
                    assert(hs.drop_last().contains(h));
                    assert(prev.contains(h));
                    lemma_add_once_idempotent(prev, hs.last());
                    if !prev.contains(hs.last()) {
                        let j = choose|j: int| 0 <= j < prev.len() && prev[j] == h;
                        assert(prev.push(hs.last())[j] == h);
                    }
                } else {
                    lemma_add_once_idempotent(prev, hs.last());
                }
            }
            if loads(Seq::empty(), hs).contains(h) {
                if prev.contains(h) {
                    assert(hs.drop_last().contains(h));
                    let i = choose|i: int| 0 <= i < hs.drop_last().len() && hs.drop_last()[i] == h;
                    assert(hs[i] == h);
                } else {
                    let t = prev.push(hs.last());
                    let j = choose|j: int| 0 <= j < t.len() && t[j] == h;
                    if j < prev.len() {
                        assert(prev[j] == h);
                    }
                    assert(hs[hs.len() - 1] == h);
                }
            }
        }
    }
}

/// The helpers used so far and the state of the loader.
pub struct HelperLoaderStore {
    pub module_name: String,
    pub mode: HelperLoaderMode,
    /// Helpers that runtime imports are made for, in the order of first use.
    pub loaded_helpers: Vec<Helper>,
    /// Each helper used, with the module it comes from.
    pub used_helpers: Vec<(Helper, String)>,
}

impl HelperLoaderStore {
    /// The used helpers and their sources.
    pub open spec fn used_v(&self) -> Seq<(Helper, Seq<char>)> {
        self.used_helpers@.map_values(|p: (Helper, String)| (p.0, p.1@))
    }

    /// No helper is recorded twice.
    pub open spec fn wf(&self) -> bool {
        &&& self.loaded_helpers@.no_duplicates()
        &&& forall|i: int, j: int| 0 <= i < j < self.used_helpers@.len() ==> (#[trigger] self.used_helpers@[i]).0 != (#[trigger] self.used_helpers@[j]).0
    }

    /// The `used` list after using `h`.
    pub open spec fn used_after(&self, h: Helper) -> Seq<(Helper, Seq<char>)> {
        if used_has(self.used_v(), h) {
            self.used_v()
        } else {
            self.used_v().push((h, runtime_source(self.module_name@, h)))
        }
    }

    /// The imports that the runtime mode needs, one per loaded helper in
    /// the order of first use; none in the other modes.
    pub open spec fn import_declarations(&self) -> Seq<ModuleDeclV> {
        if self.mode == HelperLoaderMode::Runtime {
            self.loaded_helpers@.map_values(|h: Helper| helper_import(self.module_name@, h))
        } else {
            Seq::empty()
        }
    }

    pub fn new(options: &HelperLoaderOptions) -> (s: Self)
        ensures
            s.wf(),
            s.module_name@ == options.module_name@,
            s.mode == options.mode,
            s.loaded_helpers@.len() == 0,
            s.used_helpers@.len() == 0,
    {
        HelperLoaderStore {
            module_name: options.module_name.clone(),
            mode: options.mode,
            loaded_helpers: Vec::new(),
            used_helpers: Vec::new(),
        }
    }

    /// The module that the runtime helper `helper` is imported from.
    pub fn get_runtime_source(&self, helper: Helper) -> (s: String)
        ensures
            s@ == runtime_source(self.module_name@, helper),
    {
        let mut s = String::new();
        push_str(&mut s, self.module_name.as_str());
        push_str(&mut s, "/helpers/");
        push_str(&mut s, helper.name());
        assert(s@ =~= runtime_source(self.module_name@, helper));
        s
    }

    /// `babelHelpers.name` for `helper`.
    pub fn transform_for_external_helper(helper: Helper, span: Span) -> (e: Box<Expr>)
        ensures
            expr_v(*e) == external_helper(helper),
    {
        let object = Expr::Ident(Ident { sym: string_of("babelHelpers"), ctxt: 0, span: dummy_sp() });
        let mut name = String::new();
        push_str(&mut name, helper.name());
        assert(name@ =~= helper.spec_name());
        let property = MemberProp::Ident(Ident { sym: name, ctxt: 0, span: dummy_sp() });
        assert(crate::ast_view::member_prop_v(property) == MemberPropV::Ident(IdentV { sym: helper.spec_name(), ctxt: 0, span: dummy_span() }));
        assert(expr_v(object) == ExprV::Ident(IdentV { sym: "babelHelpers"@, ctxt: 0, span: dummy_span() }));
        let m = MemberExpr { obj: Box::new(object), prop: property };
        assert(crate::ast_view::member_v(m) == MemberExprV { obj: Box::new(expr_v(object)), prop: crate::ast_view::member_prop_v(property) });
        Box::new(Expr::Member(m))
    }

    fn transform_for_runtime_helper(&mut self, helper: Helper, span: Span) -> (e: Box<Expr>)
        requires
            old(self).wf(),
        ensures
            final(self).wf(),
            final(self).loaded_helpers@ == add_once(old(self).loaded_helpers@, helper),
            final(self).used_helpers@ == old(self).used_helpers@,
            final(self).module_name == old(self).module_name,
            final(self).mode == old(self).mode,
            expr_v(*e) == ExprV::Ident(helper_ident(helper, span)),
    {
        let mut found = false;
        let mut i: usize = 0;
        while i < self.loaded_helpers.len()
            invariant
                i <= self.loaded_helpers.len(),
                found == exists|j: int| 0 <= j < i && self.loaded_helpers@[j] == helper,
            decreases self.loaded_helpers.len() - i,
        {
            if self.loaded_helpers[i] == helper {
                found = true;
            }
            i += 1;
        }
        if !found {
            let ghost l0 = self.loaded_helpers@;
            self.loaded_helpers.push(helper);
            proof {
                assert(!l0.contains(helper));
                assert forall|a: int, b: int| 0 <= a < self.loaded_helpers@.len() && 0 <= b < self.loaded_helpers@.len() && a != b
                    implies self.loaded_helpers@[a] != self.loaded_helpers@[b] by {
                    if a < l0.len() && b < l0.len() {
                    } else if a == l0.len() {
                        assert(l0[b] == self.loaded_helpers@[b]);
                    } else {
                        assert(l0[a] == self.loaded_helpers@[a]);
                    }
                }
            }
        }
        let mut name = String::new();
        push_str(&mut name, helper.name());
        assert(name@ =~= helper.spec_name());
        Box::new(Expr::Ident(Ident { sym: name, ctxt: 0, span }))
    }

    /// Records that `helper` is used and returns the expression that calls
    /// reach it by: its binding in runtime mode, `babelHelpers.name` in
    /// external mode. Inline mode is not supported.
    pub fn helper_load(&mut self, helper: Helper, span: Span) -> (e: Box<Expr>)
        requires
            old(self).wf(),
            old(self).mode != HelperLoaderMode::Inline,
        ensures
            final(self).wf(),
            final(self).module_name == old(self).module_name,
            final(self).mode == old(self).mode,
            final(self).used_v() == old(self).used_after(helper),
            old(self).mode == HelperLoaderMode::Runtime ==> {
                &&& final(self).loaded_helpers@ == add_once(old(self).loaded_helpers@, helper)
                &&& expr_v(*e) == ExprV::Ident(helper_ident(helper, span))
            },
            old(self).mode == HelperLoaderMode::External ==> {
                &&& final(self).loaded_helpers@ == old(self).loaded_helpers@
                &&& expr_v(*e) == external_helper(helper)
            },
    {
        let source = self.get_runtime_source(helper);
        let mut found = false;
        let mut i: usize = 0;
        while i < self.used_helpers.len()
            invariant
                i <= self.used_helpers.len(),
                found == exists|j: int| 0 <= j < i && self.used_helpers@[j].0 == helper,
            decreases self.used_helpers.len() - i,
        {
            if self.used_helpers[i].0 == helper {
                found = true;
            }
            i += 1;
        }
        let ghost u0 = self.used_helpers@;
        proof {
            if found {
                let j = choose|j: int| 0 <= j < i && self.used_helpers@[j].0 == helper;
                assert(self.used_v()[j].0 == helper);
            } else {
                assert forall|j: int| 0 <= j < self.used_v().len() implies (#[trigger] self.used_v()[j]).0 != helper by {
                    assert(self.used_helpers@[j].0 != helper);
                }
            }
        }
        if !found {
            self.used_helpers.push((helper, source));
            proof {
                assert(self.used_v() =~= old(self).used_v().push((helper, runtime_source(self.module_name@, helper))));
                assert forall|a: int, b: int| 0 <= a < b < self.used_helpers@.len()
                    implies (#[trigger] self.used_helpers@[a]).0 != (#[trigger] self.used_helpers@[b]).0 by {
                    if b == u0.len() {
                        assert(u0[a].0 != helper);
                    } else {
                        assert(u0[a] == self.used_helpers@[a] && u0[b] == self.used_helpers@[b]);
                    }
                }
            }
        }
        match self.mode {
            HelperLoaderMode::Runtime => self.transform_for_runtime_helper(helper, span),
            _ => Self::transform_for_external_helper(helper, span),
        }
    }

    /// A call of `helper` with `args`.
    pub fn helper_call_expr(&mut self, helper: Helper, span: Span, args: Vec<Arg>) -> (e: Expr)
        requires
            old(self).wf(),
            old(self).mode != HelperLoaderMode::Inline,
        ensures
            final(self).wf(),
            final(self).module_name == old(self).module_name,
            final(self).mode == old(self).mode,
            final(self).used_v() == old(self).used_after(helper),
            old(self).mode == HelperLoaderMode::Runtime ==> {
                &&& final(self).loaded_helpers@ == add_once(old(self).loaded_helpers@, helper)
                &&& expr_v(e) == ExprV::Call(Box::new(ExprV::Ident(helper_ident(helper, span))), args_v(args@))
            },
            old(self).mode == HelperLoaderMode::External ==> {
                &&& final(self).loaded_helpers@ == old(self).loaded_helpers@
                &&& expr_v(e) == ExprV::Call(Box::new(external_helper(helper)), args_v(args@))
            },
    {
        let callee = self.helper_load(helper, span);
        Expr::Call(callee, args)
    }

    /// The same call as `helper_call_expr`.
    pub fn helper_call(&mut self, helper: Helper, span: Span, args: Vec<Arg>) -> (e: Expr)
        requires
            old(self).wf(),
            old(self).mode != HelperLoaderMode::Inline,
        ensures
            final(self).wf(),
            final(self).module_name == old(self).module_name,
            final(self).mode == old(self).mode,
            final(self).used_v() == old(self).used_after(helper),
            old(self).mode == HelperLoaderMode::Runtime ==> {
                &&& final(self).loaded_helpers@ == add_once(old(self).loaded_helpers@, helper)
                &&& expr_v(e) == ExprV::Call(Box::new(ExprV::Ident(helper_ident(helper, span))), args_v(args@))
            },
            old(self).mode == HelperLoaderMode::External ==> {
                &&& final(self).loaded_helpers@ == old(self).loaded_helpers@
                &&& expr_v(e) == ExprV::Call(Box::new(external_helper(helper)), args_v(args@))
            },
    {
        self.helper_call_expr(helper, span, args)
    }

    /// The imports of the loaded helpers, in runtime mode; none otherwise.
    pub fn get_import_declarations(&self) -> (r: Vec<ModuleDecl>)
        ensures
            r@.map_values(|d: ModuleDecl| module_decl_v(d)) == self.import_declarations(),
    {
        let mut r: Vec<ModuleDecl> = Vec::new();
        if self.mode != HelperLoaderMode::Runtime {
            assert(r@.map_values(|d: ModuleDecl| module_decl_v(d)) =~= Seq::<ModuleDeclV>::empty());
            return r;
        }
        let mut i: usize = 0;
        while i < self.loaded_helpers.len()
            invariant
                self.mode == HelperLoaderMode::Runtime,
                i <= self.loaded_helpers.len(),
                r@.map_values(|d: ModuleDecl| module_decl_v(d)) == self.loaded_helpers@.take(i as int).map_values(|h: Helper| helper_import(self.module_name@, h)),
            decreases self.loaded_helpers.len() - i,
        {
            let h = self.loaded_helpers[i];
            let source = self.get_runtime_source(h);
            let mut name = String::new();
            push_str(&mut name, h.name());
            assert(name@ =~= h.spec_name());
            let local = Ident { sym: name, ctxt: 0, span: dummy_sp() };
            let specifiers = vec![ImportSpecifier::Default(local)];
            let decl = ModuleDecl::Import(ImportDecl { specifiers, src: source, type_only: false, with: None });
            let ghost prev = r@;
            r.push(decl);
            proof {
                let sv = specifiers@.map_values(|s: ImportSpecifier| crate::ast_view::import_specifier_v(s));
                assert(sv =~= seq![ImportSpecifierV::Default(helper_ident(h, dummy_span()))]);
                assert(module_decl_v(decl) == helper_import(self.module_name@, h));
                assert(r@.map_values(|d: ModuleDecl| module_decl_v(d)) =~= prev.map_values(|d: ModuleDecl| module_decl_v(d)).push(module_decl_v(decl)));
                assert(self.loaded_helpers@.take(i as int + 1).map_values(|h: Helper| helper_import(self.module_name@, h)) =~= self.loaded_helpers@.take(i as int).map_values(|h: Helper| helper_import(self.module_name@, h)).push(helper_import(self.module_name@, h)));
            }
            i += 1;
        }
        assert(self.loaded_helpers@.take(self.loaded_helpers@.len() as int) =~= self.loaded_helpers@);
        r
    }
}

} // verus!
