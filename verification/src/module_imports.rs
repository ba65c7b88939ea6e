//! `import` declarations, or `require` calls in scripts, that transforms
//! add to the top of the program, grouped by source module.
//!
//! The groups are kept in an `IndexMap` from source to imports, in the
//! order in which the sources were first added, except that an import added
//! at the front moves its source's group first.

use vstd::prelude::*;

use indexmap::IndexMap;

use crate::ast::{dummy_sp, dummy_span, Arg, Decl, Expr, Ident, ImportDecl, ImportSpecifier, Lit, ModuleDecl, ModuleExportName, ModuleItem, Pat, Stmt, VarDecl, VarDeclKind, VarDeclarator};

use crate::ast_view::{ident_v, module_item_v, ArgV, DeclV, ExprV, IdentV, ImportDeclV, ImportSpecifierV, LitV, ModuleDeclV, ModuleExportNameV, ModuleItemV, PatV, StmtV, VarDeclV, VarDeclaratorV};
use crate::text::string_of;

verus! {

#[verifier::external_type_specification]
#[verifier::external_body]
#[verifier::reject_recursive_types(K)]
#[verifier::reject_recursive_types(V)]
#[verifier::reject_recursive_types(S)]
pub struct ExIndexMap<K, V, S>(IndexMap<K, V, S>);

/// `import { imported as local }`.
#[derive(Debug)]
pub struct NamedImport {
    pub imported: String,
    pub local: Ident,
}

/// One import of a source.
#[derive(Debug)]
pub enum Import {
    Named(NamedImport),
    Default(Ident),
}

pub enum ImportV {
    Named(Seq<char>, IdentV),
    Default(IdentV),
}

pub open spec fn import_v(i: Import) -> ImportV {
    match i {
        Import::Named(n) => ImportV::Named(n.imported@, ident_v(n.local)),
        Import::Default(l) => ImportV::Default(ident_v(l)),
    }
}

pub open spec fn imports_v(s: Seq<Import>) -> Seq<ImportV> {
    s.map_values(|i: Import| import_v(i))
}

/// The groups that an `IndexMap` from source to imports holds, in order.
pub uninterp spec fn import_groups(m: IndexMap<String, Vec<Import>>) -> Seq<(Seq<char>, Seq<ImportV>)>;

/// `IndexMap::new`: an empty map.
#[verifier::external_body]
fn groups_new() -> (m: IndexMap<String, Vec<Import>>)
    ensures
        import_groups(m) == Seq::<(Seq<char>, Seq<ImportV>)>::empty(),
{
    IndexMap::new()
}

/// `IndexMap::len`: the number of groups.
#[verifier::external_body]
fn groups_len(m: &IndexMap<String, Vec<Import>>) -> (n: usize)
    ensures
        n == import_groups(*m).len(),
{
    m.len()
}

/// `IndexMap::get_index_of`: the position of the group of `key`.
#[verifier::external_body]
fn groups_index_of(m: &IndexMap<String, Vec<Import>>, key: &String) -> (r: Option<usize>)
    ensures
        match r {
            Some(i) => i < import_groups(*m).len() && import_groups(*m)[i as int].0 == key@,
            None => forall|j: int| 0 <= j < import_groups(*m).len() ==> (#[trigger] import_groups(*m)[j]).0 != key@,
        },
{
    m.get_index_of(key)
}

/// `IndexMap::shift_remove_index`: removes the group at `index`, shifting
/// the later ones down.
#[verifier::external_body]
fn groups_shift_remove_index(m: &mut IndexMap<String, Vec<Import>>, index: usize) -> (r: Option<(String, Vec<Import>)>)
    ensures
        match r {
            Some(p) => index < import_groups(*old(m)).len()
                && p.0@ == import_groups(*old(m))[index as int].0
                && imports_v(p.1@) == import_groups(*old(m))[index as int].1
                && import_groups(*final(m)) == import_groups(*old(m)).remove(index as int),
            None => index >= import_groups(*old(m)).len() && import_groups(*final(m)) == import_groups(*old(m)),
        },
{
    m.shift_remove_index(index)
}

/// `IndexMap::shift_insert` of a key that the map does not hold: inserts
/// the group at `index`, shifting the later ones up.
#[verifier::external_body]
fn groups_shift_insert(m: &mut IndexMap<String, Vec<Import>>, index: usize, key: String, value: Vec<Import>) -> (r: Option<Vec<Import>>)
    requires
        index <= import_groups(*old(m)).len(),
        forall|j: int| 0 <= j < import_groups(*old(m)).len() ==> (#[trigger] import_groups(*old(m))[j]).0 != key@,
    ensures
        r is None,
        import_groups(*final(m)) == import_groups(*old(m)).insert(index as int, (key@, imports_v(value@))),
{
    m.shift_insert(index, key, value)
}

/// `IndexMap::drain(..)`: takes every group out, in order.
#[verifier::external_body]
fn groups_drain(m: &mut IndexMap<String, Vec<Import>>) -> (r: Vec<(String, Vec<Import>)>)
    ensures
        r@.map_values(|p: (String, Vec<Import>)| (p.0@, imports_v(p.1@))) == import_groups(*old(m)),
        import_groups(*final(m)) == Seq::<(Seq<char>, Seq<ImportV>)>::empty(),
{
    m.drain(..).collect()
}

/// Whether no source occurs twice.
pub open spec fn distinct_sources(g: Seq<(Seq<char>, Seq<ImportV>)>) -> bool {
    forall|i: int, j: int| 0 <= i < j < g.len() ==> (#[trigger] g[i]).0 != (#[trigger] g[j]).0
}

/// The groups after adding `imp` for `source`: to its group if there is
/// one, which moves first when `front` holds; else to a new group, first
/// when `front` holds and last otherwise.
pub open spec fn groups_after_add(g: Seq<(Seq<char>, Seq<ImportV>)>, source: Seq<char>, imp: ImportV, front: bool) -> Seq<(Seq<char>, Seq<ImportV>)> {
    if exists|i: int| 0 <= i < g.len() && (#[trigger] g[i]).0 == source {
        let i = choose|i: int| 0 <= i < g.len() && (#[trigger] g[i]).0 == source;
        let e = (source, g[i].1.push(imp));
        if front {
            g.remove(i).insert(0, e)
        } else {
            g.update(i, e)
        }
    } else if front {
        g.insert(0, (source, seq![imp]))
    } else {
        g.push((source, seq![imp]))
    }
}

/// The specifier that an import becomes.
pub open spec fn specifier_v(i: ImportV) -> ImportSpecifierV {
    match i {
        ImportV::Named(imported, local) => ImportSpecifierV::Named(
            local,
            Some(ModuleExportNameV::Ident(IdentV { sym: imported, ctxt: 0, span: dummy_span() })),
        ),
        ImportV::Default(local) => ImportSpecifierV::Default(local),
    }
}

/// `import .. from "source"` for a group.
pub open spec fn import_item_v(source: Seq<char>, imports: Seq<ImportV>) -> ModuleItemV {
    ModuleItemV::ModuleDecl(
        ModuleDeclV::Import(
            ImportDeclV {
                specifiers: imports.map_values(|i: ImportV| specifier_v(i)),
                src: source,
                type_only: false,
                with: None,
            },
        ),
    )
}

/// `var local = require("source")`.
pub open spec fn require_item_v(source: Seq<char>, local: IdentV) -> ModuleItemV {
    ModuleItemV::Stmt(
        StmtV::Decl(
            DeclV::Var(
                VarDeclV {
                    span: dummy_span(),
                    kind: VarDeclKind::Var,
                    decls: seq![
                        VarDeclaratorV {
                            name: PatV::Ident(local),
                            init: Some(
                                Box::new(
                                    ExprV::Call(
                                        Box::new(ExprV::Ident(IdentV { sym: "require"@, ctxt: 0, span: dummy_span() })),
                                        seq![ArgV { spread: false, expr: ExprV::Lit(LitV::Str(source)) }],
                                    ),
                                ),
                            ),
                        },
                    ],
                },
            ),
        ),
    )
}

/// Whether the first import of a group is a default one.
pub open spec fn starts_with_default(imports: Seq<ImportV>) -> bool {
    imports.len() > 0 && imports[0] is Default
}

/// Imports waiting to be added to the program.
pub struct ModuleImportsStore {
    pub imports: IndexMap<String, Vec<Import>>,
}

impl ModuleImportsStore {
    /// The groups, in order.
    pub open spec fn groups(&self) -> Seq<(Seq<char>, Seq<ImportV>)> {
        import_groups(self.imports)
    }

    pub open spec fn wf(&self) -> bool {
        distinct_sources(self.groups())
    }

    pub fn new() -> (s: Self)
        ensures
            s.wf(),
            s.groups() == Seq::<(Seq<char>, Seq<ImportV>)>::empty(),
    {
        ModuleImportsStore { imports: groups_new() }
    }

    /// Whether nothing waits.
    pub fn is_empty(&self) -> (b: bool)
        ensures
            b == (self.groups().len() == 0),
    {
        groups_len(&self.imports) == 0
    }

    /// Adds `import local from "source"` (or, in a script,
    /// `var local = require("source")`); with `front`, its group goes first.
    pub fn add_default_import(&mut self, source: String, local: Ident, front: bool)
        requires
            old(self).wf(),
        ensures
            final(self).wf(),
            final(self).groups() == groups_after_add(old(self).groups(), source@, ImportV::Default(ident_v(local)), front),
    {
        self.add_import(source, Import::Default(local), front);
    }

    /// Adds `import { imported as local } from "source"`; with `front`, its
    /// group goes first.
    pub fn add_named_import(&mut self, source: String, imported: String, local: Ident, front: bool)
        requires
            old(self).wf(),
        ensures
            final(self).wf(),
            final(self).groups() == groups_after_add(old(self).groups(), source@, ImportV::Named(imported@, ident_v(local)), front),
    {
        self.add_import(source, Import::Named(NamedImport { imported, local }), front);
    }

    fn add_import(&mut self, source: String, import: Import, front: bool)
        requires
            old(self).wf(),
        ensures
            final(self).wf(),
            final(self).groups() == groups_after_add(old(self).groups(), source@, import_v(import), front),
    {
        let ghost g = self.groups();
        let ghost iv = import_v(import);
        match groups_index_of(&self.imports, &source) {
            Some(i) => {
                match groups_shift_remove_index(&mut self.imports, i) {
                    Some(p) => {
                        let (key, mut list) = p;
                        let ghost l0 = list@;
                        list.push(import);
                        assert(imports_v(list@) =~= imports_v(l0).push(iv));
                        let at = if front { 0 } else { i };
                        proof {
                            let g1 = g.remove(i as int);
                            assert forall|j: int| 0 <= j < g1.len() implies (#[trigger] g1[j]).0 != key@ by {
                                let j0 = if j < i { j } else { j + 1 };
                                assert(g1[j] == g[j0]);
                                assert(g[i as int].0 == key@);
                            }
                        }
                        let _ = groups_shift_insert(&mut self.imports, at, key, list);
                        proof {
                            let e = (source@, g[i as int].1.push(iv));
                            assert(exists|k: int| 0 <= k < g.len() && (#[trigger] g[k]).0 == source@);
                            let c = choose|k: int| 0 <= k < g.len() && (#[trigger] g[k]).0 == source@;
                            if c != i {
                                assert(g[c].0 == g[i as int].0);
                                if c < i {
                                    assert(g[c].0 != g[i as int].0);
                                } else {
                                    assert(g[i as int].0 != g[c].0);
                                }
                            }
                            if !front {
                                assert(g.remove(i as int).insert(i as int, e) =~= g.update(i as int, e));
                            }
                            let g2 = self.groups();
                            assert forall|a: int, b: int| 0 <= a < b < g2.len() implies (#[trigger] g2[a]).0 != (#[trigger] g2[b]).0 by {
                                let g1 = g.remove(i as int);
                                let ia = if a < at { a } else if a == at { -1 } else { a - 1 };
                                let ib = if b < at { b } else if b == at { -1 } else { b - 1 };
                                if ia >= 0 && ib >= 0 {
                                    let a0 = if ia < i { ia } else { ia + 1 };
                                    let b0 = if ib < i { ib } else { ib + 1 };
                                    assert(g1[ia] == g[a0]);
                                    assert(g1[ib] == g[b0]);
                                } else if ia < 0 {
                                    let b0 = if ib < i { ib } else { ib + 1 };
                                    assert(g1[ib] == g[b0]);
                                    assert(g2[b] == g1[ib]);
                                } else {
                                    let a0 = if ia < i { ia } else { ia + 1 };
                                    assert(g1[ia] == g[a0]);
                                    assert(g2[a] == g1[ia]);
                                }
                            }
                        }
                    },
                    None => {},
                }
            },
            None => {
                let at = if front { 0 } else { groups_len(&self.imports) };
                let list = vec![import];
                assert(imports_v(list@) =~= seq![iv]);
                let _ = groups_shift_insert(&mut self.imports, at, source, list);
                proof {
                    assert(!(exists|k: int| 0 <= k < g.len() && (#[trigger] g[k]).0 == source@));
                    if !front {
                        assert(g.insert(g.len() as int, (source@, seq![iv])) =~= g.push((source@, seq![iv])));
                    }
                    let g2 = self.groups();
                    assert forall|a: int, b: int| 0 <= a < b < g2.len() implies (#[trigger] g2[a]).0 != (#[trigger] g2[b]).0 by {
                        if a != at && b != at {
                            let a0 = if a < at { a } else { a - 1 };
                            let b0 = if b < at { b } else { b - 1 };
                            assert(g2[a] == g[a0] && g2[b] == g[b0]);
                        } else if a == at {
                            let b0 = b - 1;
                            assert(g2[b] == g[b0]);
                        } else {
                            assert(g2[a] == g[a]);
                        }
                    }
                }
            },
        }
    }
}

impl ModuleImportsStore {
    /// The items the groups become, in order: an `import` declaration per
    /// group in a module, a `require` of the first (default) import of each
    /// group in a script.
    pub open spec fn final_items(g: Seq<(Seq<char>, Seq<ImportV>)>, is_module: bool) -> Seq<ModuleItemV> {
        if is_module {
            g.map_values(|e: (Seq<char>, Seq<ImportV>)| import_item_v(e.0, e.1))
        } else {
            g.map_values(|e: (Seq<char>, Seq<ImportV>)| require_item_v(e.0, e.1[0]->Default_0))
        }
    }

    /// Takes the waiting imports out as program items: `import`
    /// declarations for a module, `require` calls for a script, where only
    /// default imports can be required.
    pub fn finalize(&mut self, is_module: bool) -> (items: Vec<ModuleItem>)
        requires
            old(self).wf(),
            !is_module ==> forall|i: int| 0 <= i < old(self).groups().len() ==> starts_with_default(#[trigger] old(self).groups()[i].1),
        ensures
            final(self).wf(),
            final(self).groups().len() == 0,
            items@.map_values(|i: ModuleItem| module_item_v(i)) == Self::final_items(old(self).groups(), is_module),
    {
        let ghost g = self.groups();
        let mut groups = groups_drain(&mut self.imports);
        let ghost gs = groups@;
        assert(gs.len() == g.len());
        let n = groups.len();
        let mut items: Vec<ModuleItem> = Vec::new();
        let mut j: usize = 0;
        while j < n
            invariant
                n == groups.len(),
                n == gs.len(),
                gs.map_values(|p: (String, Vec<Import>)| (p.0@, imports_v(p.1@))) == g,
                !is_module ==> forall|i: int| 0 <= i < g.len() ==> starts_with_default(#[trigger] g[i].1),
                j <= n,
                forall|k: int| j <= k < n ==> #[trigger] groups@[k] == gs[k],
                items@.map_values(|i: ModuleItem| module_item_v(i)) == Self::final_items(g.take(j as int), is_module),
            decreases n - j,
        {
            let mut pair: (String, Vec<Import>) = (String::new(), Vec::new());
            groups.set_and_swap(j, &mut pair);
            let (source, names) = pair;
            proof {
                assert(g[j as int] == (gs[j as int].0@, imports_v(gs[j as int].1@)));
                assert(names@ == gs[j as int].1@);
                if !is_module {
                    assert(starts_with_default(g[j as int].1));
                }
            }
            let item = if is_module {
                Self::create_import_decl(source, names)
            } else {
                Self::create_require_stmt(source, names)
            };
            let ghost prev = items@;
            items.push(item);
            proof {
                assert(g.take(j as int + 1).drop_last() =~= g.take(j as int));
                assert(items@.map_values(|i: ModuleItem| module_item_v(i)) =~= prev.map_values(|i: ModuleItem| module_item_v(i)).push(module_item_v(item)));
                assert(Self::final_items(g.take(j as int + 1), is_module) =~= Self::final_items(g.take(j as int), is_module).push(module_item_v(item)));
            }
            j += 1;
        }
        assert(g.take(n as int) =~= g);
        items
    }

    fn create_import_decl(source: String, names: Vec<Import>) -> (item: ModuleItem)
        ensures
            module_item_v(item) == import_item_v(source@, imports_v(names@)),
    {
        let mut names = names;
        let ghost orig = names@;
        let n = names.len();
        let mut specifiers: Vec<ImportSpecifier> = Vec::new();
        let mut j: usize = 0;
        while j < n
            invariant
                n == names.len(),
                n == orig.len(),
                j <= n,
                forall|k: int| j <= k < n ==> #[trigger] names@[k] == orig[k],
                specifiers@.map_values(|s: ImportSpecifier| crate::ast_view::import_specifier_v(s))
                    == imports_v(orig).take(j as int).map_values(|i: ImportV| specifier_v(i)),
            decreases n - j,
        {
            let mut imp = Import::Default(Ident { sym: String::new(), ctxt: 0, span: dummy_sp() });
            names.set_and_swap(j, &mut imp);
            let spec = match imp {
                Import::Named(named) => ImportSpecifier::Named(
                    named.local,
                    Some(ModuleExportName::Ident(Ident { sym: named.imported, ctxt: 0, span: dummy_sp() })),
                ),
                Import::Default(local) => ImportSpecifier::Default(local),
            };
            let ghost prev = specifiers@;
            specifiers.push(spec);
            proof {
                assert(imports_v(orig)[j as int] == import_v(orig[j as int]));
                assert(crate::ast_view::import_specifier_v(spec) == specifier_v(import_v(orig[j as int])));
                assert(specifiers@.map_values(|s: ImportSpecifier| crate::ast_view::import_specifier_v(s)) =~= prev.map_values(|s: ImportSpecifier| crate::ast_view::import_specifier_v(s)).push(crate::ast_view::import_specifier_v(spec)));
                assert(imports_v(orig).take(j as int + 1).map_values(|i: ImportV| specifier_v(i)) =~= imports_v(orig).take(j as int).map_values(|i: ImportV| specifier_v(i)).push(specifier_v(imports_v(orig)[j as int])));
            }
            j += 1;
        }
        assert(imports_v(orig).take(n as int) =~= imports_v(orig));
        ModuleItem::ModuleDecl(ModuleDecl::Import(ImportDecl { specifiers, src: source, type_only: false, with: None }))
    }

    fn create_require_stmt(source: String, names: Vec<Import>) -> (item: ModuleItem)
        requires
            starts_with_default(imports_v(names@)),
        ensures
            module_item_v(item) == require_item_v(source@, imports_v(names@)[0]->Default_0),
    {
        let mut names = names;
        let ghost first = imports_v(names@)[0];
        let mut imp = Import::Default(Ident { sym: String::new(), ctxt: 0, span: dummy_sp() });
        names.set_and_swap(0, &mut imp);
        let local = match imp {
            Import::Default(l) => l,
            Import::Named(n) => n.local,
        };
        let callee = Expr::Ident(Ident { sym: string_of("require"), ctxt: 0, span: dummy_sp() });
        let args = vec![Arg { spread: false, expr: Expr::Lit(Lit::Str(source)) }];
        proof {
            let a = args@;
            assert(a.subrange(0, a.len() - 1) =~= Seq::<Arg>::empty());
            assert(crate::ast_view::args_v(Seq::<Arg>::empty()) =~= Seq::<ArgV>::empty());
            assert(crate::ast_view::args_v(a) =~= seq![crate::ast_view::arg_v(a[0])]);
        }
        let ghost av = args@;
        assert(crate::ast_view::arg_v(av[0]) == (ArgV { spread: false, expr: ExprV::Lit(LitV::Str(source@)) }));
        let call = Expr::Call(Box::new(callee), args);
        let declarator = VarDeclarator { name: Pat::Ident(local), init: Some(Box::new(call)) };
        let decls = vec![declarator];
        proof {
            let d = decls@;
            assert(d.subrange(0, d.len() - 1) =~= Seq::<VarDeclarator>::empty());
            assert(crate::ast_view::declarators_v(Seq::<VarDeclarator>::empty()) =~= Seq::<VarDeclaratorV>::empty());
            assert(crate::ast_view::declarators_v(d) =~= seq![crate::ast_view::declarator_v(d[0])]);
        }
        ModuleItem::Stmt(Stmt::Decl(Decl::Var(VarDecl { span: dummy_sp(), kind: VarDeclKind::Var, decls })))
    }
}

impl Default for ModuleImportsStore {
    /// As `new`.
    fn default() -> (s: Self)
        ensures
            s.wf(),
            s.groups() == Seq::<(Seq<char>, Seq<ImportV>)>::empty(),
    {
        Self::new()
    }
}

} // verus!
