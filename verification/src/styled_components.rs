//! styled-components: display names and component ids for styled
//! components, and their template literals minified and transpiled to
//! calls.
//!
//! Only components imported with `import` from a styled-components module
//! are recognised.

use vstd::prelude::*;

use crate::ast::{Arg, Expr, Ident, ImportSpecifier, Lit, MemberExpr, MemberProp, ModuleDecl, ModuleExportName, ModuleItem, PropName, PropOrSpread, Span, Tpl, VarDeclarator};
use crate::minify::{kept_exprs, minified_quasis, minify_template_literal, quasis_v_of, total_raw_len};
use crate::ast_build::{call_v, static_member};
use crate::ast_view::{args_v, expr_v, exprs_v, ident_v, import_decl_v, import_specifier_v, lemma_exprs_v, module_items_v, prop_v, props_v, tpl_v, ArgV, ExprV, IdentV, TplElementV, TplV, ImportSpecifierV, LitV, MemberPropV, ModuleDeclV, ModuleExportNameV, ModuleItemV, PropNameV, PropOrSpreadV};
use crate::context::{path_file_name, path_file_stem, path_is_absolute, path_parent, TransformCtx};
use crate::text::{decimal, push_char, push_decimal, push_str, str_eq, string_from_utf8_lossy, string_of, strs_v, utf8_lossy};

verus! {

// ---------------------------------------------------------------------------
// Options.

/// The options of the styled-components transform.
#[derive(Debug)]
pub struct StyledComponentsOptions {
    /// Adds a `displayName` to each styled component.
    pub display_name: bool,
    /// Prefixes display names with the name of the file.
    pub file_name: bool,
    /// Adds a `componentId` to each styled component, for server-side
    /// rendering.
    pub ssr: bool,
    /// Template literals become calls with an array of their strings.
    pub transpile_template_literals: bool,
    /// The CSS of template literals is minified.
    pub minify: bool,
    /// The JSX `css` prop; not transformed.
    pub css_prop: bool,
    /// Pure annotations; not added.
    pub pure: bool,
    /// A prefix for component ids.
    pub namespace: Option<String>,
    /// File names after which the directory names a component instead.
    pub meaningless_file_names: Vec<String>,
    /// More import paths of styled-components; not used.
    pub top_level_import_paths: Vec<String>,
}

/// The default list of meaningless file names: `index`.
pub fn default_for_meaningless_file_names() -> (v: Vec<String>)
    ensures
        strs_v(v@) == seq!["index"@],
{
    let v = vec![string_of("index")];
    assert(strs_v(v@) =~= seq!["index"@]);
    v
}

impl Default for StyledComponentsOptions {
    fn default() -> (o: Self)
        ensures
            o.display_name,
            o.file_name,
            o.ssr,
            o.transpile_template_literals,
            o.minify,
            o.css_prop,
            !o.pure,
            o.namespace is None,
            strs_v(o.meaningless_file_names@) == seq!["index"@],
            o.top_level_import_paths@.len() == 0,
    {
        StyledComponentsOptions {
            display_name: true,
            file_name: true,
            ssr: true,
            transpile_template_literals: true,
            minify: true,
            css_prop: true,
            pure: false,
            namespace: None,
            meaningless_file_names: default_for_meaningless_file_names(),
            top_level_import_paths: Vec::new(),
        }
    }
}

// ---------------------------------------------------------------------------
// Helpers and bindings.

/// The helpers of styled-components that the transform knows.
#[derive(Clone, Copy, Debug, PartialEq, Eq, Structural)]
pub enum StyledComponentsHelper {
    CreateGlobalStyle,
    Css,
    Keyframes,
    UseTheme,
    WithTheme,
    InjectGlobal,
}

/// The helper named `name`, other than `injectGlobal`.
pub open spec fn pure_helper_named(name: Seq<char>) -> Option<StyledComponentsHelper> {
    if name == "createGlobalStyle"@ {
        Some(StyledComponentsHelper::CreateGlobalStyle)
    } else if name == "css"@ {
        Some(StyledComponentsHelper::Css)
    } else if name == "keyframes"@ {
        Some(StyledComponentsHelper::Keyframes)
    } else if name == "useTheme"@ {
        Some(StyledComponentsHelper::UseTheme)
    } else if name == "withTheme"@ {
        Some(StyledComponentsHelper::WithTheme)
    } else {
        None
    }
}

/// The helper named `name`.
pub open spec fn helper_named(name: Seq<char>) -> Option<StyledComponentsHelper> {
    if name == "injectGlobal"@ {
        Some(StyledComponentsHelper::InjectGlobal)
    } else {
        pure_helper_named(name)
    }
}

/// The slot of a helper in the table of bindings.
pub open spec fn helper_slot(h: StyledComponentsHelper) -> int {
    match h {
        StyledComponentsHelper::CreateGlobalStyle => 0,
        StyledComponentsHelper::Css => 1,
        StyledComponentsHelper::Keyframes => 2,
        StyledComponentsHelper::UseTheme => 3,
        StyledComponentsHelper::WithTheme => 4,
        StyledComponentsHelper::InjectGlobal => 5,
    }
}

impl StyledComponentsHelper {
    /// The helper named `name`, as `helper_named` says.
    pub fn from_str(name: &str) -> (h: Option<Self>)
        ensures
            h == helper_named(name@),
    {
        if str_eq(name, "injectGlobal") {
            Some(StyledComponentsHelper::InjectGlobal)
        } else {
            Self::pure_from_str(name)
        }
    }

    /// The helper named `name`, other than `injectGlobal`.
    pub fn pure_from_str(name: &str) -> (h: Option<Self>)
        ensures
            h == pure_helper_named(name@),
    {
        if str_eq(name, "createGlobalStyle") {
            Some(StyledComponentsHelper::CreateGlobalStyle)
        } else if str_eq(name, "css") {
            Some(StyledComponentsHelper::Css)
        } else if str_eq(name, "keyframes") {
            Some(StyledComponentsHelper::Keyframes)
        } else if str_eq(name, "useTheme") {
            Some(StyledComponentsHelper::UseTheme)
        } else if str_eq(name, "withTheme") {
            Some(StyledComponentsHelper::WithTheme)
        } else {
            None
        }
    }

    fn slot(self) -> (i: usize)
        ensures
            i == helper_slot(self),
    {
        match self {
            StyledComponentsHelper::CreateGlobalStyle => 0,
            StyledComponentsHelper::Css => 1,
            StyledComponentsHelper::Keyframes => 2,
            StyledComponentsHelper::UseTheme => 3,
            StyledComponentsHelper::WithTheme => 4,
            StyledComponentsHelper::InjectGlobal => 5,
        }
    }
}

/// A binding: a name and its syntax context.
pub type Id = (String, u32);

pub open spec fn id_v(i: Id) -> (Seq<char>, u32) {
    (i.0@, i.1)
}

pub open spec fn opt_id_v(o: Option<Id>) -> Option<(Seq<char>, u32)> {
    match o {
        Some(i) => Some(id_v(i)),
        None => None,
    }
}

/// The binding an identifier refers to.
pub open spec fn ident_id(i: IdentV) -> (Seq<char>, u32) {
    (i.sym, i.ctxt)
}

/// The bindings of the styled-components imports of a module.
pub struct BindingV {
    pub namespace: Option<(Seq<char>, u32)>,
    pub styled: Option<(Seq<char>, u32)>,
    pub helpers: Seq<Option<(Seq<char>, u32)>>,
}

/// No binding.
pub open spec fn no_bindings() -> BindingV {
    BindingV { namespace: None, styled: None, helpers: Seq::new(6, |i: int| None) }
}

/// The bindings of the styled-components imports of a module: `import *
/// as ns`, the default import, and the named imports of helpers.
pub struct StyledComponentsBinding {
    pub namespace: Option<Id>,
    pub styled: Option<Id>,
    pub helpers: Vec<Option<Id>>,
}

impl StyledComponentsBinding {
    pub open spec fn view(&self) -> BindingV {
        BindingV {
            namespace: opt_id_v(self.namespace),
            styled: opt_id_v(self.styled),
            helpers: self.helpers@.map_values(|o: Option<Id>| opt_id_v(o)),
        }
    }

    /// There is one slot per helper.
    pub open spec fn wf(&self) -> bool {
        self.helpers@.len() == 6
    }

    pub fn new() -> (b: Self)
        ensures
            b.wf(),
            b.view() == no_bindings(),
    {
        let b = StyledComponentsBinding {
            namespace: None,
            styled: None,
            helpers: vec![None, None, None, None, None, None],
        };
        assert(b.view().helpers =~= no_bindings().helpers);
        b
    }

    /// Records the binding of a helper.
    fn set_helper_id(&mut self, helper: StyledComponentsHelper, id: Id)
        requires
            old(self).wf(),
        ensures
            final(self).wf(),
            final(self).view() == (BindingV {
                helpers: old(self).view().helpers.update(helper_slot(helper), Some(id_v(id))),
                ..old(self).view()
            }),
    {
        let ghost id2 = id_v(id);
        self.helpers.set(helper.slot(), Some(id));
        assert(self.view().helpers =~= old(self).view().helpers.update(helper_slot(helper), Some(id2)));
    }
}

/// Whether `ident` refers to the binding `b`.
pub open spec fn refers_to(b: Option<(Seq<char>, u32)>, ident: IdentV) -> bool {
    b == Some(ident_id(ident))
}

/// Whether the import source is styled-components.
pub open spec fn is_styled_source(src: Seq<char>) -> bool {
    ||| src == "styled-components"@
    ||| src == "styled-components/no-tags"@
    ||| src == "styled-components/native"@
    ||| src == "styled-components/primitives"@
}

/// Whether the import source is styled-components, as `is_styled_source`
/// says.
pub fn is_valid_styled_component_source(source: &str) -> (b: bool)
    ensures
        b == is_styled_source(source@),
{
    str_eq(source, "styled-components") || str_eq(source, "styled-components/no-tags") || str_eq(
        source,
        "styled-components/native",
    ) || str_eq(source, "styled-components/primitives")
}

/// The bindings after one import specifier from styled-components: the
/// default import (also as `default` by name) binds `styled`, a namespace
/// import binds the namespace, and a named import of a helper binds it.
pub open spec fn bind_specifier(b: BindingV, s: ImportSpecifierV) -> BindingV {
    match s {
        ImportSpecifierV::Named(local, imported) => {
            let name = match imported {
                Some(ModuleExportNameV::Ident(i)) => i.sym,
                Some(ModuleExportNameV::Str(t)) => t,
                None => local.sym,
            };
            if name == "default"@ {
                BindingV { styled: Some(ident_id(local)), ..b }
            } else {
                match helper_named(name) {
                    Some(h) => BindingV { helpers: b.helpers.update(helper_slot(h), Some(ident_id(local))), ..b },
                    None => b,
                }
            }
        },
        ImportSpecifierV::Default(local) => BindingV { styled: Some(ident_id(local)), ..b },
        ImportSpecifierV::Namespace(local) => BindingV { namespace: Some(ident_id(local)), ..b },
    }
}

pub open spec fn bind_specifiers(b: BindingV, ss: Seq<ImportSpecifierV>) -> BindingV
    decreases ss.len(),
{
    if ss.len() == 0 {
        b
    } else {
        bind_specifier(bind_specifiers(b, ss.drop_last()), ss.last())
    }
}

/// The bindings after the items of a module, in order: each import from
/// styled-components binds its specifiers.
pub open spec fn bind_items(b: BindingV, items: Seq<ModuleItemV>) -> BindingV
    decreases items.len(),
{
    if items.len() == 0 {
        b
    } else {
        let b0 = bind_items(b, items.drop_last());
        match items.last() {
            ModuleItemV::ModuleDecl(ModuleDeclV::Import(d)) => if is_styled_source(d.src) {
                bind_specifiers(b0, d.specifiers)
            } else {
                b0
            },
            _ => b0,
        }
    }
}

/// Whether an expression is a styled component: `styled.tag` (not
/// `styled.helper`), `ns.default.tag`, `styled(..)`, a call on a member of
/// one of these, a sequence ending in one, or one of these in parentheses.
pub open spec fn is_styled_v(b: BindingV, e: ExprV) -> bool
    decreases e,
{
    match e {
        ExprV::Member(m) => match *m.obj {
            ExprV::Ident(i) => match m.prop {
                MemberPropV::Ident(p) => helper_named(p.sym) is None && refers_to(b.styled, i),
                _ => false,
            },
            ExprV::Member(sm) => match sm.prop {
                MemberPropV::Ident(p) => p.sym == "default"@ && match *sm.obj {
                    ExprV::Ident(i) => refers_to(b.namespace, i),
                    _ => false,
                },
                _ => false,
            },
            _ => false,
        },
        ExprV::Call(callee, _) => match *callee {
            ExprV::Ident(i) => refers_to(b.styled, i),
            ExprV::Member(m) => is_styled_v(b, *m.obj),
            ExprV::Sequence(es) => if es.len() > 0 {
                match es[es.len() - 1] {
                    ExprV::Ident(i) => refers_to(b.styled, i),
                    ExprV::Member(m) => is_styled_v(b, *m.obj),
                    _ => false,
                }
            } else {
                false
            },
            _ => false,
        },
        ExprV::Paren(x) => is_styled_v(b, *x),
        _ => false,
    }
}

/// Whether `ident` is bound to the helper `h`.
pub open spec fn is_specific_helper_v(b: BindingV, ident: IdentV, h: StyledComponentsHelper) -> bool {
    b.helpers[helper_slot(h)] == Some(ident_id(ident))
}

/// Whether `ident` is bound to the helper it is named after.
pub open spec fn is_helper_ident_v(b: BindingV, ident: IdentV) -> bool {
    match helper_named(ident.sym) {
        Some(h) => is_specific_helper_v(b, ident, h),
        None => false,
    }
}

/// Whether `ident` is bound to the helper other than `injectGlobal` it is
/// named after.
pub open spec fn is_pure_helper_ident_v(b: BindingV, ident: IdentV) -> bool {
    match pure_helper_named(ident.sym) {
        Some(h) => is_specific_helper_v(b, ident, h),
        None => false,
    }
}

/// Whether `ident` refers to `binding`.
pub fn is_reference_of_styled(binding: &Option<Id>, ident: &Ident) -> (r: bool)
    ensures
        r == refers_to(opt_id_v(*binding), ident_v(*ident)),
{
    match binding {
        Some(i) => {
            let same = str_eq(i.0.as_str(), ident.sym.as_str()) && i.1 == ident.ctxt;
            proof {
                if same {
                    assert(id_v(*i) == ident_id(ident_v(*ident)));
                } else {
                    assert(id_v(*i) != ident_id(ident_v(*ident)));
                }
            }
            same
        },
        None => false,
    }
}

// ---------------------------------------------------------------------------
// File hash and names.

/// `FxHasher` over the path `path`: the hash that component ids of the file
/// carry. It depends on the width of the machine's words, so nothing is
/// stated of it.
#[verifier::external_body]
fn fx_hash_path(path: &str) -> (h: u64) {
    let mut hasher = rustc_hash::FxHasher::default();
    std::hash::Hash::hash(std::path::Path::new(path), &mut hasher);
    std::hash::Hasher::finish(&hasher)
}

/// `FxHasher` over the string `s`; machine-dependent, as `fx_hash_path`.
#[verifier::external_body]
fn fx_hash_str(s: &str) -> (h: u64) {
    let mut hasher = rustc_hash::FxHasher::default();
    std::hash::Hash::hash(s, &mut hasher);
    std::hash::Hasher::finish(&hasher)
}

/// The digit `d` of base 36: `a` to `z`, then `0` to `9`.
pub open spec fn base36_char(d: nat) -> char {
    if d < 26 {
        (97 + d) as char
    } else {
        (48 + d - 26) as char
    }
}

/// The digits of `n` in base 36, least significant first.
pub open spec fn base36_digits(n: nat) -> Seq<char>
    decreases n,
{
    if n == 0 {
        Seq::empty()
    } else {
        seq![base36_char(n % 36)] + base36_digits(n / 36)
    }
}

/// A hash written with at most six digits of base 36: those of the hash
/// modulo 36^6, least significant first.
pub open spec fn base36_v(n: nat) -> Seq<char> {
    base36_digits(n % 2176782336)
}

/// The hash `num` in base 36, as `base36_v` says.
pub fn base36_encode(num: u64) -> (s: String)
    ensures
        s@ == base36_v(num as nat),
{
    let mut n: u64 = num % 2176782336;
    let ghost n0 = n as nat;
    let mut s = String::new();
    assert(s@ + base36_digits(n as nat) =~= base36_digits(n0));
    while n != 0
        invariant
            s@ + base36_digits(n as nat) == base36_digits(n0),
        decreases n,
    {
        let d = n % 36;
        let c: char = if d < 26 {
            (97u8 + d as u8) as char
        } else {
            (48u8 + (d - 26) as u8) as char
        };
        assert(c == base36_char(d as nat));
        let ghost s0 = s@;
        push_char(&mut s, c);
        assert(base36_digits(n as nat) == seq![c] + base36_digits((n / 36) as nat));
        n = n / 36;
        assert(s@ + base36_digits(n as nat) =~= s0 + (seq![c] + base36_digits(n as nat)));
    }
    assert(s@ =~= s@ + base36_digits(0));
    s
}

/// The hash of a source file written in base 36: of its path when it is
/// absolute, else of its text, which the transform does not keep (the
/// empty text).
fn get_file_hash(ctx: &TransformCtx) -> (s: String)
    ensures
        exists|h: u64| s@ == base36_v(h as nat),
{
    let h = if path_is_absolute(ctx.source_path.as_str()) {
        fx_hash_path(ctx.source_path.as_str())
    } else {
        fx_hash_str("")
    };
    base36_encode(h)
}

/// Whether `name` is among `names`.
fn contains_name(names: &Vec<String>, name: &str) -> (b: bool)
    ensures
        b == strs_v(names@).contains(name@),
{
    let mut i: usize = 0;
    while i < names.len()
        invariant
            i <= names@.len(),
            forall|k: int| 0 <= k < i ==> strs_v(names@)[k] != name@,
        decreases names@.len() - i,
    {
        if str_eq(names[i].as_str(), name) {
            assert(strs_v(names@)[i as int] == name@);
            return true;
        }
        i += 1;
    }
    proof {
        if strs_v(names@).contains(name@) {
            let k = choose|k: int| 0 <= k < strs_v(names@).len() && strs_v(names@)[k] == name@;
            assert(false);
        }
    }
    false
}

/// The name a file gives its components: the stem of its name, or the name
/// of its directory when the stem is meaningless.
pub open spec fn block_name_from(stem: Seq<char>, parent: Option<Seq<char>>, meaningless: Seq<Seq<char>>) -> Seq<char> {
    if meaningless.contains(stem) {
        match parent {
            Some(p) => p,
            None => stem,
        }
    } else {
        stem
    }
}

/// The name a file gives its components, as `block_name_from` says.
pub fn choose_block_name(stem: &String, parent: &Option<String>, meaningless: &Vec<String>) -> (name: String)
    ensures
        name@ == block_name_from(
            stem@,
            match parent {
                Some(p) => Some(p@),
                None => None,
            },
            strs_v(meaningless@),
        ),
{
    if contains_name(meaningless, stem.as_str()) {
        match parent {
            Some(p) => p.clone(),
            None => stem.clone(),
        }
    } else {
        stem.clone()
    }
}

/// `{ key: "value" }`, one property of the configuration object.
pub open spec fn config_prop(key: Seq<char>, value: Seq<char>) -> PropOrSpreadV {
    PropOrSpreadV::KeyValue(PropNameV::Ident(key), ExprV::Lit(LitV::Str(value)))
}

/// `{ key: "value" }`.
fn create_object_property(key: &str, value: String) -> (p: PropOrSpread)
    ensures
        prop_v(p) == config_prop(key@, value@),
{
    PropOrSpread::KeyValue(PropName::Ident(string_of(key)), Expr::Lit(Lit::Str(value)))
}

// ---------------------------------------------------------------------------
// The transform.

/// The styled-components transform, with what it has learnt of the file.
pub struct StyledComponents {
    pub options: StyledComponentsOptions,
    /// The styled-components imports of the module.
    pub styled_bindings: StyledComponentsBinding,
    /// How many component ids have been given.
    pub component_count: usize,
    /// `<namespace>__sc-<hash>-`, once computed.
    pub component_id_prefix: Option<String>,
    /// The name the file gives its components, once computed.
    pub block_name: Option<String>,
    /// The stem of the file's name, and the name of its directory.
    pub file_stem: Option<String>,
    pub parent_name: Option<String>,
    /// The hash of the file in base 36.
    pub file_hash: String,
}

impl StyledComponents {
    /// The name the file gives its components, when display names carry
    /// the file name and the file has one.
    pub open spec fn block_name_v(&self) -> Option<Seq<char>> {
        if !self.options.file_name {
            None
        } else {
            match self.file_stem {
                None => None,
                Some(st) => Some(
                    block_name_from(
                        st@,
                        match self.parent_name {
                            Some(p) => Some(p@),
                            None => None,
                        },
                        strs_v(self.options.meaningless_file_names@),
                    ),
                ),
            }
        }
    }

    /// The display name of the components: the file's block name, or empty.
    pub open spec fn display_name_v(&self) -> Seq<char> {
        match self.block_name_v() {
            Some(b) => b,
            None => Seq::empty(),
        }
    }

    /// `<namespace>__sc-<hash>-`, without the namespace part when there is
    /// none.
    pub open spec fn prefix_v(&self) -> Seq<char> {
        let ns_part: Seq<char> = match self.options.namespace {
            Some(ns) => ns@ + "__"@,
            None => Seq::empty(),
        };
        ns_part + "sc-"@ + self.file_hash@ + "-"@
    }

    /// The properties that `withConfig` gets next: the display name and the
    /// next component id, each when its option is set.
    pub open spec fn added_props_v(&self) -> Seq<PropOrSpreadV> {
        (if self.options.display_name {
            seq![config_prop("displayName"@, self.display_name_v())]
        } else {
            Seq::empty()
        }) + (if self.options.ssr {
            seq![config_prop("componentId"@, self.prefix_v() + decimal(self.component_count as nat))]
        } else {
            Seq::empty()
        })
    }

    /// The caches hold what they stand for.
    pub open spec fn wf(&self) -> bool {
        &&& self.styled_bindings.wf()
        &&& self.block_name is Some ==> self.block_name_v() == Some(self.block_name->Some_0@)
        &&& self.component_id_prefix is Some ==> self.component_id_prefix->Some_0@ == self.prefix_v()
    }

    /// `other` is `self` with maybe other caches and `n` more ids given.
    pub open spec fn same_but_caches(&self, other: &Self, n: nat) -> bool {
        &&& other.options == self.options
        &&& other.styled_bindings == self.styled_bindings
        &&& other.component_count == self.component_count + n
        &&& other.file_stem == self.file_stem
        &&& other.parent_name == self.parent_name
        &&& other.file_hash == self.file_hash
        &&& other.wf()
    }

    /// The transform for the file of `ctx`.
    pub fn new(options: StyledComponentsOptions, ctx: &TransformCtx) -> (s: Self)
        ensures
            s.wf(),
            s.options == options,
            s.styled_bindings.view() == no_bindings(),
            s.component_count == 0,
            exists|h: u64| s.file_hash@ == base36_v(h as nat),
    {
        let file_stem = path_file_stem(ctx.source_path.as_str());
        let parent_name = match path_parent(ctx.source_path.as_str()) {
            Some(p) => path_file_name(p.as_str()),
            None => None,
        };
        StyledComponents {
            options,
            styled_bindings: StyledComponentsBinding::new(),
            component_count: 0,
            component_id_prefix: None,
            block_name: None,
            file_stem,
            parent_name,
            file_hash: get_file_hash(ctx),
        }
    }

    /// The name the file gives its components, as `block_name_v` says;
    /// kept once computed.
    fn get_block_name(&mut self) -> (r: Option<String>)
        requires
            old(self).wf(),
        ensures
            old(self).same_but_caches(&*final(self), 0),
            match r {
                Some(b) => old(self).block_name_v() == Some(b@),
                None => old(self).block_name_v() is None,
            },
    {
        if !self.options.file_name {
            return None;
        }
        match &self.file_stem {
            None => None,
            Some(stem) => {
                match &self.block_name {
                    Some(b) => Some(b.clone()),
                    None => {
                        let name = choose_block_name(stem, &self.parent_name, &self.options.meaningless_file_names);
                        self.block_name = Some(name.clone());
                        Some(name)
                    },
                }
            },
        }
    }

    /// The display name of the components, as `display_name_v` says.
    fn get_display_name(&mut self) -> (r: String)
        requires
            old(self).wf(),
        ensures
            old(self).same_but_caches(&*final(self), 0),
            r@ == old(self).display_name_v(),
    {
        let component_name = Self::get_component_name();
        match self.get_block_name() {
            None => match component_name {
                Some(c) => c,
                None => String::new(),
            },
            Some(block_name) => match component_name {
                Some(c) => {
                    if str_eq(block_name.as_str(), c.as_str()) {
                        c
                    } else {
                        let mut name = block_name;
                        push_str(&mut name, "__");
                        push_str(&mut name, c.as_str());
                        name
                    }
                },
                None => block_name,
            },
        }
    }

    /// The next component id: the prefix and the count of ids given.
    pub fn get_component_id(&mut self) -> (r: String)
        requires
            old(self).wf(),
            old(self).component_count < usize::MAX,
        ensures
            old(self).same_but_caches(&*final(self), 1),
            r@ == old(self).prefix_v() + decimal(old(self).component_count as nat),
    {
        let prefix = match &self.component_id_prefix {
            Some(p) => p.clone(),
            None => {
                let mut p = String::new();
                match &self.options.namespace {
                    Some(ns) => {
                        push_str(&mut p, ns.as_str());
                        push_str(&mut p, "__");
                    },
                    None => {},
                }
                push_str(&mut p, "sc-");
                push_str(&mut p, self.file_hash.as_str());
                push_str(&mut p, "-");
                assert(p@ =~= self.prefix_v());
                self.component_id_prefix = Some(p.clone());
                p
            },
        };
        let mut result = prefix;
        push_decimal(&mut result, self.component_count as u64);
        self.component_count = self.component_count + 1;
        result
    }

    /// Appends the display name and the next component id, each when its
    /// option is set.
    fn add_properties(&mut self, properties: &mut Vec<PropOrSpread>)
        requires
            old(self).wf(),
            old(self).component_count < usize::MAX,
        ensures
            old(self).same_but_caches(&*final(self), if old(self).options.ssr { 1 } else { 0 }),
            props_v(final(properties)@) == props_v(old(properties)@) + old(self).added_props_v(),
    {
        let ghost p0 = props_v(properties@);
        if self.options.display_name {
            let value = self.get_display_name();
            let p = create_object_property("displayName", value);
            proof {
                lemma_props_push(properties@, p);
            }
            properties.push(p);
        }
        let ghost p1 = props_v(properties@);
        if self.options.ssr {
            let value = self.get_component_id();
            let p = create_object_property("componentId", value);
            proof {
                lemma_props_push(properties@, p);
            }
            properties.push(p);
        }
        assert(props_v(properties@) =~= p0 + old(self).added_props_v());
    }
}

proof fn lemma_props_push(a: Seq<PropOrSpread>, x: PropOrSpread)
    ensures
        props_v(a.push(x)) == props_v(a).push(prop_v(x)),
{
    assert(a.push(x).subrange(0, a.len() as int) =~= a);
}

// ---------------------------------------------------------------------------
// `withConfig`.

/// Whether an expression is `x.withConfig`.
pub open spec fn is_with_config_callee(c: ExprV) -> bool {
    c is Member && c->Member_0.prop is Ident && c->Member_0.prop->Ident_0.sym == "withConfig"@
}

/// Whether a `withConfig(..)` call is found by going down the callees of
/// calls and the objects of members.
pub open spec fn has_with_config(e: ExprV) -> bool
    decreases e,
{
    match e {
        ExprV::Call(c, _) => is_with_config_callee(*c) || has_with_config(*c),
        ExprV::Member(m) => has_with_config(*m.obj),
        _ => false,
    }
}

/// Whether object properties already hold a `displayName` or a
/// `componentId`.
pub open spec fn has_config_key(props: Seq<PropOrSpreadV>) -> bool {
    exists|k: int|
        0 <= k < props.len() && #[trigger] props[k] is KeyValue && props[k]->KeyValue_0 is Ident && (
        props[k]->KeyValue_0->Ident_0 == "displayName"@ || props[k]->KeyValue_0->Ident_0 == "componentId"@)
}

/// Whether the `withConfig(..)` call found in `e` is on a styled component
/// and has an object without `displayName` or `componentId` as its first
/// argument, so that the properties are added to it.
pub open spec fn config_qualifies(b: BindingV, e: ExprV) -> bool
    decreases e,
{
    match e {
        ExprV::Call(c, args) => if is_with_config_callee(*c) {
            &&& is_styled_v(b, *c->Member_0.obj)
            &&& args.len() > 0
            &&& args[0].expr is Object
            &&& !has_config_key(args[0].expr->Object_0)
        } else {
            config_qualifies(b, *c)
        },
        ExprV::Member(m) => config_qualifies(b, *m.obj),
        _ => false,
    }
}

/// `e` with `added` appended to the object of the `withConfig(..)` call
/// found in it.
pub open spec fn config_added(e: ExprV, added: Seq<PropOrSpreadV>) -> ExprV
    decreases e,
{
    match e {
        ExprV::Call(c, args) => if is_with_config_callee(*c) {
            ExprV::Call(
                c,
                args.update(
                    0,
                    crate::ast_view::ArgV { spread: args[0].spread, expr: ExprV::Object(args[0].expr->Object_0 + added) },
                ),
            )
        } else {
            ExprV::Call(Box::new(config_added(*c, added)), args)
        },
        ExprV::Member(m) => ExprV::Member(
            crate::ast_view::MemberExprV { obj: Box::new(config_added(*m.obj, added)), prop: m.prop },
        ),
        _ => e,
    }
}

/// `e.withConfig({ added })`.
pub open spec fn with_config_call_v(e: ExprV, added: Seq<PropOrSpreadV>) -> ExprV {
    call_v(static_member(e, "withConfig"@), seq![ExprV::Object(added)])
}

/// What adding the display name and component id makes of an expression:
/// the expression after, whether it is a styled component, and whether
/// properties were added. A `withConfig(..)` call found in it gets them in
/// its object, when it qualifies; a styled component without one gets a
/// `withConfig` call with them.
pub open spec fn config_v(s: StyledComponents, e: ExprV) -> (ExprV, bool, bool) {
    let b = s.styled_bindings.view();
    if has_with_config(e) {
        if config_qualifies(b, e) {
            (config_added(e, s.added_props_v()), true, true)
        } else {
            (e, true, false)
        }
    } else if is_styled_v(b, e) {
        (with_config_call_v(e, s.added_props_v()), true, true)
    } else {
        (e, false, false)
    }
}

impl StyledComponents {
    /// Binds one import specifier of styled-components.
    fn bind_import_specifier(&mut self, s: &ImportSpecifier)
        requires
            old(self).styled_bindings.wf(),
        ensures
            final(self).styled_bindings.wf(),
            final(self).styled_bindings.view() == bind_specifier(
                old(self).styled_bindings.view(),
                import_specifier_v(*s),
            ),
            final(self).options == old(self).options,
            final(self).component_count == old(self).component_count,
            final(self).component_id_prefix == old(self).component_id_prefix,
            final(self).block_name == old(self).block_name,
            final(self).file_stem == old(self).file_stem,
            final(self).parent_name == old(self).parent_name,
            final(self).file_hash == old(self).file_hash,
    {
        match s {
            ImportSpecifier::Named(local, imported) => {
                let name: &String = match imported {
                    Some(ModuleExportName::Ident(i)) => &i.sym,
                    Some(ModuleExportName::Str(t)) => t,
                    None => &local.sym,
                };
                let id: Id = (local.sym.clone(), local.ctxt);
                if str_eq(name.as_str(), "default") {
                    self.styled_bindings.styled = Some(id);
                } else {
                    match StyledComponentsHelper::from_str(name.as_str()) {
                        Some(h) => self.styled_bindings.set_helper_id(h, id),
                        None => {},
                    }
                }
            },
            ImportSpecifier::Default(local) => {
                self.styled_bindings.styled = Some((local.sym.clone(), local.ctxt));
            },
            ImportSpecifier::Namespace(local) => {
                self.styled_bindings.namespace = Some((local.sym.clone(), local.ctxt));
            },
        }
    }

    /// Records the bindings of the styled-components imports of a module,
    /// as `bind_items` says.
    pub fn collect_styled_bindings_from_module(&mut self, items: &Vec<ModuleItem>)
        requires
            old(self).wf(),
        ensures
            final(self).wf(),
            final(self).styled_bindings.view() == bind_items(
                old(self).styled_bindings.view(),
                module_items_v(items@),
            ),
            final(self).options == old(self).options,
            final(self).component_count == old(self).component_count,
            final(self).file_hash == old(self).file_hash,
    {
        let ghost b0 = self.styled_bindings.view();
        let ghost iv = module_items_v(items@);
        let n = items.len();
        let mut i: usize = 0;
        assert(iv.take(0) =~= Seq::<ModuleItemV>::empty());
        while i < n
            invariant
                n == items@.len(),
                iv == module_items_v(items@),
                i <= n,
                self.wf(),
                self.styled_bindings.view() == bind_items(b0, iv.take(i as int)),
                self.options == old(self).options,
                self.component_count == old(self).component_count,
                self.file_hash == old(self).file_hash,
            decreases n - i,
        {
            let ghost bi = self.styled_bindings.view();
            proof {
                let t = iv.take(i as int + 1);
                assert(t.drop_last() =~= iv.take(i as int));
                assert(t.last() == iv[i as int]);
            }
            match &items[i] {
                ModuleItem::ModuleDecl(ModuleDecl::Import(d)) => {
                    let ghost sv = import_decl_v(*d).specifiers;
                    if is_valid_styled_component_source(d.src.as_str()) {
                        let m = d.specifiers.len();
                        let mut j: usize = 0;
                        assert(sv.take(0) =~= Seq::<ImportSpecifierV>::empty());
                        while j < m
                            invariant
                                m == d.specifiers@.len(),
                                sv == d.specifiers@.map_values(|x: ImportSpecifier| import_specifier_v(x)),
                                j <= m,
                                self.wf(),
                                self.styled_bindings.view() == bind_specifiers(bi, sv.take(j as int)),
                                self.options == old(self).options,
                                self.component_count == old(self).component_count,
                                self.file_hash == old(self).file_hash,
                            decreases m - j,
                        {
                            proof {
                                let t = sv.take(j as int + 1);
                                assert(t.drop_last() =~= sv.take(j as int));
                                assert(t.last() == sv[j as int]);
                            }
                            self.bind_import_specifier(&d.specifiers[j]);
                            j += 1;
                        }
                        assert(sv.take(m as int) =~= sv);
                    }
                },
                _ => {},
            }
            i += 1;
        }
        assert(iv.take(n as int) =~= iv);
    }

    /// `is_styled_v` of a member expression.
    fn is_styled_member(&self, member: &MemberExpr) -> (b: bool)
        ensures
            b == is_styled_v(self.styled_bindings.view(), ExprV::Member(crate::ast_view::member_v(*member))),
    {
        let ghost mv = crate::ast_view::member_v(*member);
        assert(*mv.obj == expr_v(*member.obj));
        assert(mv.prop == crate::ast_view::member_prop_v(member.prop));
        match &*member.obj {
            Expr::Ident(ident) => {
                assert(expr_v(*member.obj) == ExprV::Ident(ident_v(*ident)));
                match &member.prop {
                    MemberProp::Ident(p) => {
                        assert(crate::ast_view::member_prop_v(member.prop) == MemberPropV::Ident(ident_v(*p)));
                        let not_helper = StyledComponentsHelper::from_str(p.sym.as_str()).is_none();
                        let refers = is_reference_of_styled(&self.styled_bindings.styled, ident);
                        not_helper && refers
                    },
                    _ => false,
                }
            },
            Expr::Member(sm) => {
                let ghost smv = crate::ast_view::member_v(*sm);
                assert(expr_v(*member.obj) == ExprV::Member(smv));
                assert(*smv.obj == expr_v(*sm.obj));
                assert(smv.prop == crate::ast_view::member_prop_v(sm.prop));
                match &sm.prop {
                    MemberProp::Ident(p) => {
                        assert(crate::ast_view::member_prop_v(sm.prop) == MemberPropV::Ident(ident_v(*p)));
                        let is_default = str_eq(p.sym.as_str(), "default");
                        let refers = match &*sm.obj {
                            Expr::Ident(ident) => {
                                assert(expr_v(*sm.obj) == ExprV::Ident(ident_v(*ident)));
                                is_reference_of_styled(&self.styled_bindings.namespace, ident)
                            },
                            _ => false,
                        };
                        is_default && refers
                    },
                    _ => false,
                }
            },
            _ => false,
        }
    }

    /// Whether an expression is a styled component, as `is_styled_v` says.
    pub fn is_styled(&self, expr: &Expr) -> (b: bool)
        ensures
            b == is_styled_v(self.styled_bindings.view(), expr_v(*expr)),
        decreases expr,
    {
        match expr {
            Expr::Member(member) => self.is_styled_member(member),
            Expr::Call(callee, args) => {
                assert(expr_v(*expr) == ExprV::Call(Box::new(expr_v(**callee)), crate::ast_view::args_v(args@)));
                match &**callee {
                    Expr::Ident(ident) => {
                        assert(expr_v(**callee) == ExprV::Ident(ident_v(*ident)));
                        is_reference_of_styled(&self.styled_bindings.styled, ident)
                    },
                    Expr::Member(member) => {
                        assert(expr_v(**callee) == ExprV::Member(crate::ast_view::member_v(*member)));
                        assert(crate::ast_view::member_v(*member).obj == Box::new(expr_v(*member.obj)));
                        self.is_styled(&*member.obj)
                    },
                    Expr::Sequence(es) => {
                        assert(expr_v(**callee) == ExprV::Sequence(crate::ast_view::exprs_v(es@)));
                        proof {
                            crate::ast_view::lemma_exprs_v(es@);
                        }
                        if es.len() > 0 {
                            let last = &es[es.len() - 1];
                            assert(crate::ast_view::exprs_v(es@)[es.len() - 1] == expr_v(*last));
                            match last {
                                Expr::Ident(ident) => {
                                    assert(expr_v(*last) == ExprV::Ident(ident_v(*ident)));
                                    is_reference_of_styled(&self.styled_bindings.styled, ident)
                                },
                                Expr::Member(member) => {
                                    assert(expr_v(*last) == ExprV::Member(crate::ast_view::member_v(*member)));
                                    assert(crate::ast_view::member_v(*member).obj == Box::new(expr_v(*member.obj)));
                                    self.is_styled(&*member.obj)
                                },
                                _ => false,
                            }
                        } else {
                            false
                        }
                    },
                    _ => false,
                }
            },
            Expr::Paren(x) => self.is_styled(&**x),
            _ => false,
        }
    }

    /// Whether `ident` is bound to the helper `helper`.
    fn is_specific_helper(&self, ident: &Ident, helper: StyledComponentsHelper) -> (b: bool)
        requires
            self.styled_bindings.wf(),
        ensures
            b == is_specific_helper_v(self.styled_bindings.view(), ident_v(*ident), helper),
    {
        assert(self.styled_bindings.view().helpers[helper_slot(helper)] == opt_id_v(
            self.styled_bindings.helpers@[helper_slot(helper)],
        ));
        is_reference_of_styled(&self.styled_bindings.helpers[helper.slot()], ident)
    }

    /// Whether `ident` is bound to the helper it is named after.
    pub fn is_helper_ident(&self, ident: &Ident) -> (b: bool)
        requires
            self.styled_bindings.wf(),
        ensures
            b == is_helper_ident_v(self.styled_bindings.view(), ident_v(*ident)),
    {
        match StyledComponentsHelper::from_str(ident.sym.as_str()) {
            Some(h) => self.is_specific_helper(ident, h),
            None => false,
        }
    }

    /// Whether `ident` is bound to the helper other than `injectGlobal` it
    /// is named after.
    pub fn is_pure_helper_ident(&self, ident: &Ident) -> (b: bool)
        requires
            self.styled_bindings.wf(),
        ensures
            b == is_pure_helper_ident_v(self.styled_bindings.view(), ident_v(*ident)),
    {
        match StyledComponentsHelper::pure_from_str(ident.sym.as_str()) {
            Some(h) => self.is_specific_helper(ident, h),
            None => false,
        }
    }

    /// Whether a tag is an identifier bound to a helper.
    pub fn is_helper_tag(&self, tag: &Expr) -> (b: bool)
        requires
            self.styled_bindings.wf(),
        ensures
            b == (expr_v(*tag) is Ident && is_helper_ident_v(self.styled_bindings.view(), expr_v(*tag)->Ident_0)),
    {
        match tag {
            Expr::Ident(ident) => self.is_helper_ident(ident),
            _ => false,
        }
    }
}

/// Whether an expression is `x.withConfig`, as `is_with_config_callee`
/// says.
fn is_with_config_member(e: &Expr) -> (b: bool)
    ensures
        b == is_with_config_callee(expr_v(*e)),
{
    match e {
        Expr::Member(m) => match &m.prop {
            MemberProp::Ident(i) => {
                assert(crate::ast_view::member_v(*m).prop == MemberPropV::Ident(ident_v(*i)));
                str_eq(i.sym.as_str(), "withConfig")
            },
            _ => {
                assert(!(crate::ast_view::member_v(*m).prop is Ident));
                false
            },
        },
        _ => false,
    }
}

/// Whether object properties hold a `displayName` or a `componentId`.
fn has_config_key_exec(props: &Vec<PropOrSpread>) -> (b: bool)
    ensures
        b == has_config_key(props_v(props@)),
{
    proof {
        crate::ast_view::lemma_props_v(props@);
    }
    let mut i: usize = 0;
    while i < props.len()
        invariant
            i <= props@.len(),
            props_v(props@).len() == props@.len(),
            forall|k: int| 0 <= k < props@.len() ==> #[trigger] props_v(props@)[k] == prop_v(props@[k]),
            forall|k: int|
                0 <= k < i ==> !(#[trigger] props_v(props@)[k] is KeyValue && props_v(props@)[k]->KeyValue_0 is Ident && (
                props_v(props@)[k]->KeyValue_0->Ident_0 == "displayName"@ || props_v(props@)[k]->KeyValue_0->Ident_0
                    == "componentId"@)),
        decreases props@.len() - i,
    {
        let hit = match &props[i] {
            PropOrSpread::KeyValue(PropName::Ident(k), _) => str_eq(k.as_str(), "displayName") || str_eq(
                k.as_str(),
                "componentId",
            ),
            _ => false,
        };
        if hit {
            assert(props_v(props@)[i as int] is KeyValue);
            return true;
        }
        i += 1;
    }
    false
}

impl StyledComponents {
    /// Finds the `withConfig(..)` call of `e` and, when it qualifies, adds
    /// the properties to its object; returns the expression and whether a
    /// call was found.
    fn add_to_with_config(&mut self, e: Expr) -> (r: (Expr, bool))
        requires
            old(self).wf(),
            old(self).component_count < usize::MAX,
        ensures
            r.1 == has_with_config(expr_v(e)),
            r.1 && config_qualifies(old(self).styled_bindings.view(), expr_v(e)) ==> {
                &&& expr_v(r.0) == config_added(expr_v(e), old(self).added_props_v())
                &&& old(self).same_but_caches(&*final(self), if old(self).options.ssr { 1 } else { 0 })
            },
            !(r.1 && config_qualifies(old(self).styled_bindings.view(), expr_v(e))) ==> r.0 == e && *final(self)
                == *old(self),
        decreases e,
    {
        let ghost ev = expr_v(e);
        let ghost bv = self.styled_bindings.view();
        match e {
            Expr::Call(c, args) => {
                let ghost cv = expr_v(*c);
                let ghost av = crate::ast_view::args_v(args@);
                assert(ev == ExprV::Call(Box::new(cv), av));
                if is_with_config_member(&*c) {
                    proof {
                        crate::ast_view::lemma_args_v(args@);
                    }
                    let on_styled = match &*c {
                        Expr::Member(m) => {
                            assert(crate::ast_view::member_v(*m).obj == Box::new(expr_v(*m.obj)));
                            self.is_styled(&*m.obj)
                        },
                        _ => false,
                    };
                    let open = args.len() > 0 && match &args[0].expr {
                        Expr::Object(ps) => !has_config_key_exec(ps),
                        _ => false,
                    };
                    if on_styled && open {
                        let mut args = args;
                        let mut a0 = Arg { spread: false, expr: Expr::Invalid };
                        args.set_and_swap(0, &mut a0);
                        let Arg { spread, expr: a0e } = a0;
                        match a0e {
                            Expr::Object(ps) => {
                                let mut ps = ps;
                                let ghost psv = props_v(ps@);
                                self.add_properties(&mut ps);
                                let na = Arg { spread, expr: Expr::Object(ps) };
                                assert(crate::ast_view::arg_v(na) == crate::ast_view::ArgV {
                                    spread: av[0].spread,
                                    expr: ExprV::Object(psv + old(self).added_props_v()),
                                });
                                let ghost before_set = args@;
                                args.set(0, na);
                                proof {
                                    crate::ast_view::lemma_args_v(args@);
                                    let want = av.update(
                                        0,
                                        crate::ast_view::ArgV { spread: av[0].spread, expr: ExprV::Object(psv + old(self).added_props_v()) },
                                    );
                                    assert forall|k: int| 0 <= k < args@.len() implies crate::ast_view::args_v(args@)[k] == want[k] by {
                                        if k != 0 {
                                            assert(args@[k] == before_set[k]);
                                        }
                                    }
                                    assert(crate::ast_view::args_v(args@) =~= want);
                                }
                                (Expr::Call(c, args), true)
                            },
                            other => {
                                args.set(0, Arg { spread, expr: other });
                                (Expr::Call(c, args), true)
                            },
                        }
                    } else {
                        (Expr::Call(c, args), true)
                    }
                } else {
                    let (c2, found) = self.add_to_with_config(*c);
                    (Expr::Call(Box::new(c2), args), found)
                }
            },
            Expr::Member(m) => {
                let ghost mv = crate::ast_view::member_v(m);
                assert(ev == ExprV::Member(mv));
                let MemberExpr { obj, prop } = m;
                let ghost pv = crate::ast_view::member_prop_v(prop);
                let ghost ov = expr_v(*obj);
                assert(mv == crate::ast_view::MemberExprV { obj: Box::new(ov), prop: pv });
                let (o2, found) = self.add_to_with_config(*obj);
                let ghost o2v = expr_v(o2);
                let me = MemberExpr { obj: Box::new(o2), prop };
                assert(crate::ast_view::member_v(me) == crate::ast_view::MemberExprV { obj: Box::new(o2v), prop: pv });
                let r = Expr::Member(me);
                assert(expr_v(r) == ExprV::Member(crate::ast_view::MemberExprV { obj: Box::new(expr_v(o2)), prop: pv }));
                (r, found)
            },
            other => (other, false),
        }
    }

    /// Adds the display name and the component id to a styled component,
    /// as `config_v` says; returns whether the expression is one.
    pub fn add_display_name_and_component_id(&mut self, expr: &mut Expr) -> (r: bool)
        requires
            old(self).wf(),
            old(self).component_count < usize::MAX,
        ensures
            expr_v(*final(expr)) == config_v(*old(self), expr_v(*old(expr))).0,
            r == config_v(*old(self), expr_v(*old(expr))).1,
            config_v(*old(self), expr_v(*old(expr))).2 ==> old(self).same_but_caches(
                &*final(self),
                if old(self).options.ssr { 1 } else { 0 },
            ),
            !config_v(*old(self), expr_v(*old(expr))).2 ==> *final(self) == *old(self) && *final(expr) == *old(expr),
    {
        let e = crate::ast_clone::take_expr(expr);
        let ghost ev = expr_v(e);
        let (e2, found) = self.add_to_with_config(e);
        if found {
            *expr = e2;
            return true;
        }
        if self.is_styled(&e2) {
            let mut props: Vec<PropOrSpread> = Vec::new();
            assert(props_v(props@) =~= Seq::<PropOrSpreadV>::empty());
            self.add_properties(&mut props);
            let ghost psv = props_v(props@);
            assert(psv =~= old(self).added_props_v());
            let obj = Expr::Object(props);
            let callee = crate::ast_build::static_member_expr(e2, "withConfig");
            let call = crate::ast_build::call1(callee, obj);
            *expr = call;
            true
        } else {
            *expr = e2;
            false
        }
    }
}

// ---------------------------------------------------------------------------
// Template literals.

/// `tag(["q0", "q1", ..], e0, e1, ..)`: the call a tagged template becomes,
/// with the raw text of each quasi as a string.
pub open spec fn transpiled_v(tag: ExprV, span: Span, quasis: Seq<TplElementV>, exprs: Seq<ExprV>) -> ExprV {
    call_v(
        tag,
        seq![ExprV::Array(span, quasis.map_values(|q: TplElementV| ExprV::Lit(LitV::Str(utf8_lossy(q.raw)))))]
            + exprs,
    )
}

/// A template literal as the parser makes one: one more quasi than
/// expressions, and raw text that fits in a `u32`.
pub open spec fn within_limits(t: Tpl) -> bool {
    &&& t.quasis@.len() == t.exprs@.len() + 1
    &&& total_raw_len(quasis_v_of(t.quasis@), t.quasis@.len() as int) <= u32::MAX
}

/// Whether a template literal is as the parser makes one, as
/// `within_limits` says.
fn tpl_within_limits(t: &Tpl) -> (b: bool)
    ensures
        b == within_limits(*t),
{
    if t.quasis.len() == 0 || t.quasis.len() - 1 != t.exprs.len() {
        return false;
    }
    let ghost q = quasis_v_of(t.quasis@);
    let mut total: u64 = 0;
    let mut i: usize = 0;
    while i < t.quasis.len()
        invariant
            q == quasis_v_of(t.quasis@),
            i <= t.quasis@.len(),
            total == total_raw_len(q, i as int),
            total <= u32::MAX,
        decreases t.quasis@.len() - i,
    {
        let len = t.quasis[i].raw.len() as u64;
        assert(q[i as int].raw.len() == len);
        if len > 0xffff_ffff - total {
            proof {
                lemma_total_raw_grows(q, i as int + 1, t.quasis@.len() as int);
            }
            return false;
        }
        total = total + len;
        i += 1;
    }
    true
}

/// The raw text of more quasis is no shorter.
proof fn lemma_total_raw_grows(q: Seq<TplElementV>, k: int, n: int)
    requires
        0 <= k <= n,
    ensures
        total_raw_len(q, k) <= total_raw_len(q, n),
    decreases n - k,
{
    if k < n {
        lemma_total_raw_grows(q, k, n - 1);
    }
}

/// A tagged template as a call, as `transpiled_v` says.
pub fn transpile_template_literals(tag: Expr, tpl: Tpl) -> (r: Expr)
    ensures
        expr_v(r) == transpiled_v(expr_v(tag), tpl.span, quasis_v_of(tpl.quasis@), exprs_v(tpl.exprs@)),
{
    let ghost tv = expr_v(tag);
    let Tpl { span, exprs, quasis } = tpl;
    let ghost qv = quasis_v_of(quasis@);
    let ghost strs = qv.map_values(|q: TplElementV| ExprV::Lit(LitV::Str(utf8_lossy(q.raw))));
    let mut elems: Vec<Expr> = Vec::new();
    let mut i: usize = 0;
    while i < quasis.len()
        invariant
            qv == quasis_v_of(quasis@),
            strs == qv.map_values(|q: TplElementV| ExprV::Lit(LitV::Str(utf8_lossy(q.raw)))),
            i <= quasis@.len(),
            elems@.len() == i,
            forall|k: int| 0 <= k < i ==> #[trigger] expr_v(elems@[k]) == strs[k],
        decreases quasis@.len() - i,
    {
        let s = string_from_utf8_lossy(&quasis[i].raw);
        elems.push(Expr::Lit(Lit::Str(s)));
        i += 1;
    }
    proof {
        lemma_exprs_v(elems@);
        assert(exprs_v(elems@) =~= strs);
    }
    let arr = Expr::Array(span, elems);
    let ghost av = expr_v(arr);
    assert(av == ExprV::Array(span, strs));
    let ghost ev = exprs_v(exprs@);
    let ghost want = seq![av] + ev;
    let mut args: Vec<Arg> = Vec::new();
    args.push(Arg { spread: false, expr: arr });
    let mut exprs = exprs;
    let ghost orig = exprs@;
    proof {
        lemma_exprs_v(orig);
    }
    let n = exprs.len();
    let mut j: usize = 0;
    while j < n
        invariant
            n == exprs@.len(),
            n == orig.len(),
            ev == exprs_v(orig),
            ev.len() == n,
            forall|k: int| 0 <= k < n ==> #[trigger] ev[k] == expr_v(orig[k]),
            forall|k: int| j <= k < n ==> #[trigger] exprs@[k] == orig[k],
            want == seq![av] + ev,
            j <= n,
            args@.len() == j + 1,
            forall|k: int| 0 <= k <= j ==> !(#[trigger] args@[k]).spread && expr_v(args@[k].expr) == want[k],
        decreases n - j,
    {
        let mut e = Expr::Invalid;
        exprs.set_and_swap(j, &mut e);
        args.push(Arg { spread: false, expr: e });
        j += 1;
    }
    proof {
        crate::ast_build::lemma_plain_args(args@, want);
    }
    let callee = Box::new(tag);
    Expr::Call(callee, args)
}

/// What the transform makes of the template of a styled component or
/// helper, its tag being `tag1`: the quasis minified, when `minify` is set
/// and the template is as the parser makes one, then the whole made a call
/// when `transpile_template_literals` is set.
pub open spec fn template_v(s: StyledComponents, tag1: ExprV, t: Tpl) -> ExprV {
    let q = quasis_v_of(t.quasis@);
    let q1 = if s.options.minify && within_limits(t) { minified_quasis(q) } else { q };
    let e1 = if s.options.minify && within_limits(t) { exprs_v(kept_exprs(q, t.exprs@)) } else { exprs_v(t.exprs@) };
    if s.options.transpile_template_literals {
        transpiled_v(tag1, t.span, q1, e1)
    } else {
        ExprV::TaggedTpl(Box::new(tag1), TplV { span: t.span, exprs: e1, quasis: q1 })
    }
}

/// What the transform makes of a tagged template, and whether it gave an
/// id or a display name: the tag gets its configuration when display names
/// or ids are on; a template whose tag is neither a styled component nor a
/// helper is left as it is; the others are minified and transpiled as
/// `template_v` says.
pub open spec fn tagged_step_v(s: StyledComponents, tag: Expr, t: Tpl) -> (ExprV, bool) {
    let b = s.styled_bindings.view();
    let tv = expr_v(tag);
    let configured = s.options.display_name || s.options.ssr;
    let tag1 = if configured { config_v(s, tv).0 } else { tv };
    let styled = if configured { config_v(s, tv).1 } else { is_styled_v(b, tv) };
    let added = configured && config_v(s, tv).2;
    if !styled && !(tv is Ident && is_helper_ident_v(b, tv->Ident_0)) {
        (ExprV::TaggedTpl(Box::new(tv), tpl_v(t)), false)
    } else {
        (template_v(s, tag1, t), added)
    }
}

impl StyledComponents {
    /// The name of the component from its context; not inferred.
    fn get_component_name() -> (r: Option<String>)
        ensures
            r is None,
    {
        None
    }

    /// Pure annotations are not added: the transform and the declarator are
    /// left as they are.
    pub fn enter_var_declarator(&mut self, _declarator: &mut VarDeclarator)
        ensures
            *final(self) == *old(self),
            *final(_declarator) == *old(_declarator),
    {
    }

    /// Collects the bindings of the module's styled-components imports.
    pub fn enter_module(&mut self, items: &Vec<ModuleItem>)
        requires
            old(self).wf(),
        ensures
            final(self).wf(),
            final(self).styled_bindings.view() == bind_items(
                old(self).styled_bindings.view(),
                module_items_v(items@),
            ),
            final(self).options == old(self).options,
            final(self).component_count == old(self).component_count,
    {
        self.collect_styled_bindings_from_module(items);
    }

    /// Gives the callee of a call its configuration, as `config_v` says,
    /// when display names or ids are on.
    pub fn enter_call_expr(&mut self, callee: &mut Expr)
        requires
            old(self).wf(),
            old(self).component_count < usize::MAX,
        ensures
            !(old(self).options.display_name || old(self).options.ssr) ==> *final(self) == *old(self)
                && *final(callee) == *old(callee),
            old(self).options.display_name || old(self).options.ssr ==> {
                &&& expr_v(*final(callee)) == config_v(*old(self), expr_v(*old(callee))).0
                &&& config_v(*old(self), expr_v(*old(callee))).2 ==> old(self).same_but_caches(
                    &*final(self),
                    if old(self).options.ssr { 1 } else { 0 },
                )
                &&& !config_v(*old(self), expr_v(*old(callee))).2 ==> *final(self) == *old(self)
            },
    {
        if self.options.display_name || self.options.ssr {
            self.add_display_name_and_component_id(callee);
        }
    }

    /// A tagged template whose tag is a styled component or a helper is
    /// configured, minified and transpiled, as `tagged_step_v` says. Other
    /// expressions are left as they are.
    pub fn enter_expr(&mut self, expr: &mut Expr)
        requires
            old(self).wf(),
            old(self).component_count < usize::MAX,
        ensures
            !(*old(expr) is TaggedTpl) ==> *final(expr) == *old(expr) && *final(self) == *old(self),
            *old(expr) is TaggedTpl ==> {
                let r = tagged_step_v(*old(self), *(*old(expr))->TaggedTpl_0, (*old(expr))->TaggedTpl_1);
                &&& expr_v(*final(expr)) == r.0
                &&& r.1 ==> old(self).same_but_caches(&*final(self), if old(self).options.ssr { 1 } else { 0 })
                &&& !r.1 ==> *final(self) == *old(self)
            },
    {
        if match &*expr {
            Expr::TaggedTpl(_, _) => true,
            _ => false,
        } {
            self.transform_tagged_template_expression(expr);
        }
    }

    /// The tagged template `expr` is configured, minified and transpiled
    /// when its tag is a styled component or a helper, as `tagged_step_v`
    /// says.
    fn transform_tagged_template_expression(&mut self, expr: &mut Expr)
        requires
            old(self).wf(),
            old(self).component_count < usize::MAX,
            *old(expr) is TaggedTpl,
        ensures
            ({
                let r = tagged_step_v(*old(self), *(*old(expr))->TaggedTpl_0, (*old(expr))->TaggedTpl_1);
                &&& expr_v(*final(expr)) == r.0
                &&& r.1 ==> old(self).same_but_caches(&*final(self), if old(self).options.ssr { 1 } else { 0 })
                &&& !r.1 ==> *final(self) == *old(self)
            }),
    {
        let e = crate::ast_clone::take_expr(expr);
        match e {
            Expr::TaggedTpl(tag, tpl) => {
                let ghost tag0 = *tag;
                let ghost tv = expr_v(*tag);
                let ghost s0 = *self;
                let mut tag = tag;
                let configured = self.options.display_name || self.options.ssr;
                let styled = if configured {
                    self.add_display_name_and_component_id(&mut *tag)
                } else {
                    self.is_styled(&*tag)
                };
                let helper = self.is_helper_tag(&*tag);
                proof {
                    if configured && !config_v(s0, tv).2 {
                        assert(*tag == tag0);
                    }
                }
                if !styled && !helper {
                    proof {
                        if configured {
                            assert(!config_v(s0, tv).2);
                        }
                        assert(quasis_v_of(tpl.quasis@) =~= crate::ast_view::quasis_v(tpl.quasis@));
                    }
                    *expr = Expr::TaggedTpl(tag, tpl);
                    return;
                }
                let ghost tag1v = expr_v(*tag);
                assert(self.options == s0.options);
                let mut tpl = tpl;
                let ghost t0 = tpl;
                let ghost q0 = quasis_v_of(t0.quasis@);
                if self.options.minify && tpl_within_limits(&tpl) {
                    minify_template_literal(&mut tpl);
                    assert(quasis_v_of(tpl.quasis@) == minified_quasis(q0));
                    assert(exprs_v(tpl.exprs@) == exprs_v(kept_exprs(q0, t0.exprs@)));
                } else {
                    assert(!(s0.options.minify && within_limits(t0)));
                }
                if self.options.transpile_template_literals {
                    *expr = transpile_template_literals(*tag, tpl);
                } else {
                    proof {
                        assert(quasis_v_of(tpl.quasis@) =~= crate::ast_view::quasis_v(tpl.quasis@));
                        assert(tpl.span == t0.span);
                        assert(tpl_v(tpl) == TplV { span: tpl.span, exprs: exprs_v(tpl.exprs@), quasis: quasis_v_of(tpl.quasis@) });
                    }
                    *expr = Expr::TaggedTpl(tag, tpl);
                }
                assert(expr_v(*expr) == template_v(s0, tag1v, t0));
            },
            other => {
                *expr = other;
            },
        }
    }
}

/// Every component id starts with `sc-`, after `<namespace>__` when a
/// namespace is set, and ends with its count.
pub proof fn lemma_component_id_prefix(sc: StyledComponents, n: nat)
    ensures
        match sc.options.namespace {
            None => (sc.prefix_v() + decimal(n)).take(3) == "sc-"@,
            Some(ns) => (sc.prefix_v() + decimal(n)).take(ns@.len() + 5int) == ns@ + "__sc-"@,
        },
        (sc.prefix_v() + decimal(n)).skip(sc.prefix_v().len() as int) == decimal(n),
{
    reveal_strlit("sc-");
    reveal_strlit("__");
    reveal_strlit("__sc-");
    reveal_strlit("-");
    let id = sc.prefix_v() + decimal(n);
    match sc.options.namespace {
        None => {
            assert(id.take(3) =~= "sc-"@);
        },
        Some(ns) => {
            assert(id.take(ns@.len() + 5int) =~= ns@ + "__sc-"@);
        },
    }
    assert(id.skip(sc.prefix_v().len() as int) =~= decimal(n));
}

/// Component ids are told apart by their count: two ids with the same
/// prefix and different counts differ.
pub proof fn lemma_component_ids_distinct(prefix: Seq<char>, a: nat, b: nat)
    requires
        a != b,
    ensures
        prefix + decimal(a) != prefix + decimal(b),
{
    if prefix + decimal(a) == prefix + decimal(b) {
        assert((prefix + decimal(a)).subrange(prefix.len() as int, (prefix + decimal(a)).len() as int) =~= decimal(a));
        assert((prefix + decimal(b)).subrange(prefix.len() as int, (prefix + decimal(b)).len() as int) =~= decimal(b));
        crate::text::lemma_decimal_injective(a, b);
    }
}

/// A file hash has at most six characters, each a lowercase letter or a
/// digit.
pub proof fn lemma_base36_short(n: nat)
    ensures
        base36_v(n).len() <= 6,
        forall|i: int| 0 <= i < base36_v(n).len() ==> {
            let c = #[trigger] base36_v(n)[i];
            ('a' <= c && c <= 'z') || ('0' <= c && c <= '9')
        },
{
    reveal_with_fuel(vstd::arithmetic::power::pow, 7);
    assert(vstd::arithmetic::power::pow(36, 6) == 2176782336);
    lemma_base36_digits(n % 2176782336, 6);
}

proof fn lemma_base36_digits(n: nat, k: nat)
    requires
        n < vstd::arithmetic::power::pow(36, k),
    ensures
        base36_digits(n).len() <= k,
        forall|i: int| 0 <= i < base36_digits(n).len() ==> {
            let c = #[trigger] base36_digits(n)[i];
            ('a' <= c && c <= 'z') || ('0' <= c && c <= '9')
        },
    decreases n,
{
    reveal(vstd::arithmetic::power::pow);
    if n > 0 {
        if k == 0 {
            assert(vstd::arithmetic::power::pow(36, 0) == 1);
        } else {
            assert(vstd::arithmetic::power::pow(36, k) == 36 * vstd::arithmetic::power::pow(36, (k - 1) as nat));
            assert(n / 36 < vstd::arithmetic::power::pow(36, (k - 1) as nat)) by (nonlinear_arith)
                requires
                    n < 36 * vstd::arithmetic::power::pow(36, (k - 1) as nat),
            ;
            lemma_base36_digits(n / 36, (k - 1) as nat);
            let d = n % 36;
            let c = base36_char(d);
            assert(('a' <= c && c <= 'z') || ('0' <= c && c <= '9'));
            let rest = base36_digits(n / 36);
            assert(base36_digits(n) == seq![c] + rest);
            assert forall|i: int| 0 <= i < base36_digits(n).len() implies {
                let x = #[trigger] base36_digits(n)[i];
                ('a' <= x && x <= 'z') || ('0' <= x && x <= '9')
            } by {
                if i > 0 {
                    assert(base36_digits(n)[i] == rest[i - 1]);
                }
            }
        }
    }
}

} // verus!
