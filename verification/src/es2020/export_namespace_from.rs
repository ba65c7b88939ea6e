//! `export * as ns from "mod"` becomes `import * as _ns from "mod"; export
//! { _ns as ns };`.

use vstd::prelude::*;

use crate::ast::{dummy_sp, ExportSpecifier, Ident, ImportDecl, ImportSpecifier, ModuleDecl, ModuleExportName, ModuleItem, NamedExport, Stmt};
use crate::ast_build::gen_ident;
use crate::ast_clone::{clone_ident, clone_string};
use crate::ast_view::{export_specifier_v, module_export_name_v, module_item_v, module_items_v, named_export_v, ExportSpecifierV, ImportDeclV, ImportSpecifierV, ModuleDeclV, ModuleExportNameV, ModuleItemV, NamedExportV};
use crate::text::{lemma_uid_distinct, make_uid, uid_v};

verus! {

/// Whether `e` is `export * as name from "src"`.
pub open spec fn is_namespace_export(e: NamedExportV) -> bool {
    &&& e.src is Some
    &&& e.specifiers.len() == 1
    &&& e.specifiers[0] is Namespace
}

/// Whether the item is `export * as name from "src"`.
pub open spec fn is_namespace_export_item(i: ModuleItemV) -> bool {
    match i {
        ModuleItemV::ModuleDecl(ModuleDeclV::ExportNamed(e)) => is_namespace_export(e),
        _ => false,
    }
}

/// The name the local binding is made from: the exported identifier, or
/// `ns` for a string name.
pub open spec fn base_name(n: ModuleExportNameV) -> Seq<char> {
    match n {
        ModuleExportNameV::Ident(i) => i.sym,
        ModuleExportNameV::Str(_) => "ns"@,
    }
}

/// The two declarations that `export * as name from "src"` becomes, with
/// the `n`-th generated name.
pub open spec fn namespace_rewrite(e: NamedExportV, n: nat) -> Seq<ModuleDeclV> {
    let name = e.specifiers[0]->Namespace_0;
    let local = gen_ident(uid_v(base_name(name), n));
    seq![
        ModuleDeclV::Import(
            ImportDeclV {
                specifiers: seq![ImportSpecifierV::Namespace(local)],
                src: e.src->Some_0,
                type_only: e.type_only,
                with: e.with,
            },
        ),
        ModuleDeclV::ExportNamed(
            NamedExportV {
                specifiers: seq![ExportSpecifierV::Named(ModuleExportNameV::Ident(local), Some(name))],
                src: None,
                type_only: false,
                with: None,
            },
        ),
    ]
}

/// How many namespace exports stand at or after index `i`.
pub open spec fn count_from(items: Seq<ModuleItemV>, i: int) -> nat
    decreases items.len() - i,
{
    if i < 0 || i >= items.len() {
        0
    } else {
        count_from(items, i + 1) + if is_namespace_export_item(items[i]) { 1nat } else { 0nat }
    }
}

/// What item `i` becomes. Namespace exports are rewritten from the last
/// one back, so the one at `i` takes the counter plus the number of them
/// from `i` on.
pub open spec fn rewrite_item(items: Seq<ModuleItemV>, counter: nat, i: int) -> Seq<ModuleItemV> {
    if is_namespace_export_item(items[i]) {
        let e = items[i]->ModuleDecl_0->ExportNamed_0;
        namespace_rewrite(e, counter + count_from(items, i)).map_values(|d: ModuleDeclV| ModuleItemV::ModuleDecl(d))
    } else {
        seq![items[i]]
    }
}

/// The rewrite of the first `j` items.
pub open spec fn rewrite_prefix(items: Seq<ModuleItemV>, counter: nat, j: int) -> Seq<ModuleItemV>
    decreases j,
{
    if j <= 0 {
        Seq::empty()
    } else {
        rewrite_prefix(items, counter, j - 1) + rewrite_item(items, counter, j - 1)
    }
}

proof fn lemma_count_from_bounds(items: Seq<ModuleItemV>, i: int, j: int)
    requires
        0 <= i <= j <= items.len(),
    ensures
        count_from(items, j) <= count_from(items, i),
    decreases j - i,
{
    if i < j {
        lemma_count_from_bounds(items, i + 1, j);
    }
}

/// The local name that the namespace export at index `i` is imported
/// under, when the counter starts at `counter`.
pub open spec fn namespace_local(items: Seq<ModuleItemV>, counter: nat, i: int) -> Seq<char> {
    let e = items[i]->ModuleDecl_0->ExportNamed_0;
    uid_v(base_name(e.specifiers[0]->Namespace_0), counter + count_from(items, i))
}

/// Two namespace re-exports of one module body under the same name are
/// imported under different local names: the later one takes a smaller
/// number.
pub proof fn lemma_namespace_locals_distinct(items: Seq<ModuleItemV>, counter: nat, i: int, j: int)
    requires
        0 <= i < j < items.len(),
        is_namespace_export_item(items[i]),
        is_namespace_export_item(items[j]),
        base_name(items[i]->ModuleDecl_0->ExportNamed_0.specifiers[0]->Namespace_0)
            == base_name(items[j]->ModuleDecl_0->ExportNamed_0.specifiers[0]->Namespace_0),
    ensures
        count_from(items, j) < count_from(items, i),
        namespace_local(items, counter, i) != namespace_local(items, counter, j),
{
    lemma_count_from_bounds(items, i + 1, j);
    assert(count_from(items, j) >= 1);
    lemma_uid_distinct(
        base_name(items[i]->ModuleDecl_0->ExportNamed_0.specifiers[0]->Namespace_0),
        counter + count_from(items, i),
        counter + count_from(items, j),
    );
}

/// The rewrite of `export * as ns from "mod"`.
pub struct ExportNamespaceFrom {
    pub uid_counter: usize,
}

impl ExportNamespaceFrom {
    pub fn new() -> (s: Self)
        ensures
            s.uid_counter == 0,
    {
        ExportNamespaceFrom { uid_counter: 0 }
    }

    /// The next name made from `name`: `_name`, then `_name2`, `_name3`, ...
    pub fn generate_uid(&mut self, name: &str) -> (s: String)
        requires
            old(self).uid_counter < usize::MAX,
        ensures
            final(self).uid_counter == old(self).uid_counter + 1,
            s@ == uid_v(name@, final(self).uid_counter as nat),
    {
        self.uid_counter = self.uid_counter + 1;
        make_uid(name, self.uid_counter)
    }

    /// The declarations that `export * as name from "src"` becomes; `None`
    /// for other exports.
    pub fn transform_export_namespace(&mut self, named_export: &NamedExport) -> (r: Option<Vec<ModuleDecl>>)
        requires
            old(self).uid_counter < usize::MAX,
        ensures
            is_namespace_export(named_export_v(*named_export)) ==> {
                &&& final(self).uid_counter == old(self).uid_counter + 1
                &&& r is Some
                &&& r->Some_0@.map_values(|d: ModuleDecl| crate::ast_view::module_decl_v(d))
                    == namespace_rewrite(named_export_v(*named_export), final(self).uid_counter as nat)
            },
            !is_namespace_export(named_export_v(*named_export)) ==> {
                &&& final(self).uid_counter == old(self).uid_counter
                &&& r is None
            },
    {
        let ghost nv = named_export_v(*named_export);
        if named_export.specifiers.len() != 1 {
            return None;
        }
        let name = match &named_export.specifiers[0] {
            ExportSpecifier::Namespace(n) => n,
            _ => {
                return None;
            },
        };
        let src = match &named_export.src {
            Some(s) => s,
            None => {
                return None;
            },
        };
        let base: String = match name {
            ModuleExportName::Ident(i) => clone_string(&i.sym),
            ModuleExportName::Str(_) => crate::text::string_of("ns"),
        };
        let ghost namev = module_export_name_v(*name);
        assert(nv.specifiers[0] == export_specifier_v(named_export.specifiers@[0]));
        assert(base@ == base_name(namev));
        let import_name = self.generate_uid(base.as_str());
        let local = Ident { sym: clone_string(&import_name), ctxt: 0, span: dummy_sp() };
        let import_decl = ModuleDecl::Import(
            ImportDecl {
                specifiers: vec![ImportSpecifier::Namespace(local)],
                src: clone_string(src),
                type_only: named_export.type_only,
                with: named_export.with,
            },
        );
        let exported = match name {
            ModuleExportName::Ident(i) => ModuleExportName::Ident(clone_ident(i)),
            ModuleExportName::Str(s) => ModuleExportName::Str(clone_string(s)),
        };
        assert(module_export_name_v(exported) == namev);
        let export_decl = ModuleDecl::ExportNamed(
            NamedExport {
                specifiers: vec![ExportSpecifier::Named(
                    ModuleExportName::Ident(Ident { sym: import_name, ctxt: 0, span: dummy_sp() }),
                    Some(exported),
                )],
                src: None,
                type_only: false,
                with: None,
            },
        );
        let r = vec![import_decl, export_decl];
        proof {
            let rv = r@.map_values(|d: ModuleDecl| crate::ast_view::module_decl_v(d));
            let expect = namespace_rewrite(nv, self.uid_counter as nat);
            assert(rv[0] == expect[0]) by {
                let d = crate::ast_view::module_decl_v(import_decl);
                assert(d->Import_0.specifiers =~= seq![ImportSpecifierV::Namespace(gen_ident(uid_v(base_name(namev), self.uid_counter as nat)))]);
            }
            assert(rv[1] == expect[1]) by {
                let d = crate::ast_view::module_decl_v(export_decl);
                assert(d->ExportNamed_0.specifiers =~= seq![ExportSpecifierV::Named(ModuleExportNameV::Ident(gen_ident(uid_v(base_name(namev), self.uid_counter as nat))), Some(namev))]);
            }
            assert(rv =~= expect);
        }
        Some(r)
    }

    /// Rewrites every `export * as name from "src"` of the module body.
    pub fn exit_module(&mut self, body: &mut Vec<ModuleItem>)
        requires
            old(self).uid_counter + count_from(module_items_v(old(body)@), 0) <= usize::MAX,
        ensures
            ({
                let items = module_items_v(old(body)@);
                &&& module_items_v(final(body)@) == rewrite_prefix(items, old(self).uid_counter as nat, items.len() as int)
                &&& final(self).uid_counter == old(self).uid_counter + count_from(items, 0)
            }),
    {
        let ghost items = module_items_v(body@);
        let start = self.uid_counter;
        let n = body.len();
        let mut total: usize = 0;
        let mut k: usize = n;
        while k > 0
            invariant
                k <= n,
                n == body.len(),
                items == module_items_v(body@),
                total == count_from(items, k as int),
                start + count_from(items, 0) <= usize::MAX,
            decreases k,
        {
            k -= 1;
            proof {
                lemma_count_from_bounds(items, 0, k as int);
                assert(items[k as int] == module_item_v(body@[k as int]));
            }
            if is_namespace_item(&body[k]) {
                total += 1;
            }
        }
        let mut src: Vec<ModuleItem> = Vec::new();
        std::mem::swap(&mut src, body);
        let ghost orig = src@;
        let mut out: Vec<ModuleItem> = Vec::new();
        let mut seen: usize = 0;
        let mut i: usize = 0;
        proof {
            assert(module_items_v(out@) =~= Seq::<ModuleItemV>::empty());
        }
        while i < n
            invariant
                n == src.len(),
                n == orig.len(),
                items == module_items_v(orig),
                total == count_from(items, 0),
                start + total <= usize::MAX,
                i <= n,
                seen + count_from(items, i as int) == total,
                forall|j: int| i <= j < n ==> #[trigger] src@[j] == orig[j],
                module_items_v(out@) == rewrite_prefix(items, start as nat, i as int),
            decreases n - i,
        {
            let mut item = ModuleItem::Stmt(Stmt::Empty(dummy_sp()));
            src.set_and_swap(i, &mut item);
            proof {
                assert(items[i as int] == module_item_v(item));
                lemma_count_from_bounds(items, 0, i as int);
            }
            let ghost prev = out@;
            if is_namespace_item(&item) {
                self.uid_counter = start + (total - seen) - 1;
                let parts = match &item {
                    ModuleItem::ModuleDecl(ModuleDecl::ExportNamed(ne)) => {
                        self.transform_export_namespace(ne)
                    },
                    _ => None,
                };
                seen += 1;
                match parts {
                    Some(decls) => {
                        push_decls(&mut out, decls);
                    },
                    None => {},
                }
            } else {
                out.push(item);
                assert(module_items_v(out@) =~= module_items_v(prev).push(module_item_v(item)));
            }
            i += 1;
        }
        *body = out;
        self.uid_counter = start + total;
    }
}

/// Whether the item is `export * as name from "src"`.
fn is_namespace_item(item: &ModuleItem) -> (b: bool)
    ensures
        b == is_namespace_export_item(module_item_v(*item)),
{
    match item {
        ModuleItem::ModuleDecl(ModuleDecl::ExportNamed(ne)) => {
            let ghost nv = named_export_v(*ne);
            if ne.specifiers.len() != 1 {
                return false;
            }
            assert(nv.specifiers[0] == export_specifier_v(ne.specifiers@[0]));
            let is_ns = match &ne.specifiers[0] {
                ExportSpecifier::Namespace(_) => true,
                _ => false,
            };
            is_ns && ne.src.is_some()
        },
        _ => false,
    }
}

/// Appends the declarations as module items.
fn push_decls(out: &mut Vec<ModuleItem>, decls: Vec<ModuleDecl>)
    ensures
        module_items_v(final(out)@) == module_items_v(old(out)@) + decls@.map_values(
            |d: ModuleDecl| crate::ast_view::module_decl_v(d),
        ).map_values(|d: ModuleDeclV| ModuleItemV::ModuleDecl(d)),
{
    let mut decls = decls;
    let ghost orig = decls@;
    let ghost dv = orig.map_values(|d: ModuleDecl| crate::ast_view::module_decl_v(d)).map_values(|d: ModuleDeclV| ModuleItemV::ModuleDecl(d));
    let n = decls.len();
    let ghost mid = orig.map_values(|d: ModuleDecl| crate::ast_view::module_decl_v(d));
    assert(mid.len() == n);
    assert(dv == mid.map_values(|d: ModuleDeclV| ModuleItemV::ModuleDecl(d)));
    assert(dv.len() == n);
    let mut j: usize = 0;
    while j < n
        invariant
            n == decls.len(),
            n == orig.len(),
            dv.len() == n,
            forall|k: int| 0 <= k < n ==> #[trigger] dv[k] == ModuleItemV::ModuleDecl(crate::ast_view::module_decl_v(orig[k])),
            j <= n,
            forall|k: int| j <= k < n ==> #[trigger] decls@[k] == orig[k],
            module_items_v(out@) == module_items_v(old(out)@) + dv.take(j as int),
        decreases n - j,
    {
        let mut d = ModuleDecl::Opaque(0);
        decls.set_and_swap(j, &mut d);
        let ghost prev = out@;
        assert(d == orig[j as int]);
        assert(dv[j as int] == ModuleItemV::ModuleDecl(crate::ast_view::module_decl_v(orig[j as int])));
        let item = ModuleItem::ModuleDecl(d);
        out.push(item);
        assert(module_items_v(out@) =~= module_items_v(prev).push(module_item_v(item)));
        assert(dv.take(j as int + 1) =~= dv.take(j as int).push(dv[j as int]));
        assert(module_items_v(out@) =~= module_items_v(old(out)@) + dv.take(j as int + 1));
        j += 1;
    }
    assert(dv.take(n as int) =~= dv);
}

impl Default for ExportNamespaceFrom {
    /// As `new`.
    fn default() -> (s: Self)
        ensures
            s.uid_counter == 0,
    {
        Self::new()
    }
}

} // verus!
