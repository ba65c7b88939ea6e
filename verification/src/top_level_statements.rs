//! Statements that transforms add to the top of the program, right after
//! its leading imports.

use vstd::prelude::*;

use crate::ast::{dummy_sp, ModuleDecl, ModuleItem, Program, Stmt};
use crate::ast_view::{module_item_v, module_items_v, stmt_v, ModuleDeclV, ModuleItemV, StmtV};
use crate::statement_injector::svs;

verus! {

/// The view of a program.
pub enum ProgramV {
    Module(Seq<ModuleItemV>),
    Script(Seq<StmtV>),
}

pub open spec fn program_v(p: Program) -> ProgramV {
    match p {
        Program::Module(b) => ProgramV::Module(module_items_v(b@)),
        Program::Script(b) => ProgramV::Script(svs(b@)),
    }
}

/// Whether a module item is an `import` declaration.
pub open spec fn is_import_v(i: ModuleItemV) -> bool {
    i matches ModuleItemV::ModuleDecl(ModuleDeclV::Import(_))
}

/// Whether a module item is an `import` declaration, as `is_import_v`
/// says.
fn is_import_decl(item: &ModuleItem) -> (b: bool)
    ensures
        b == is_import_v(module_item_v(*item)),
{
    match item {
        ModuleItem::ModuleDecl(ModuleDecl::Import(_)) => true,
        _ => false,
    }
}

/// The index of the first item that is not an import declaration, or the
/// length.
pub open spec fn first_non_import(items: Seq<ModuleItemV>) -> int
    decreases items.len(),
{
    if items.len() == 0 {
        0
    } else if !is_import_v(items[0]) {
        0
    } else {
        1 + first_non_import(items.drop_first())
    }
}

/// Statements as module items.
pub open spec fn as_items(s: Seq<StmtV>) -> Seq<ModuleItemV> {
    s.map_values(|x: StmtV| ModuleItemV::Stmt(x))
}

/// `program` with `stmts` added at its top: in a module after the leading
/// import declarations, in a script at the start.
pub open spec fn with_top_level(program: ProgramV, stmts: Seq<StmtV>) -> ProgramV {
    match program {
        ProgramV::Module(items) => {
            let k = first_non_import(items);
            ProgramV::Module(items.take(k) + as_items(stmts) + items.skip(k))
        },
        ProgramV::Script(body) => ProgramV::Script(stmts + body),
    }
}

proof fn lemma_first_non_import_bounds(items: Seq<ModuleItemV>)
    ensures
        0 <= first_non_import(items) <= items.len(),
    decreases items.len(),
{
    if items.len() > 0 {
        lemma_first_non_import_bounds(items.drop_first());
    }
}

proof fn lemma_first_non_import(items: Seq<ModuleItemV>, k: int)
    requires
        0 <= k <= items.len(),
        forall|j: int| 0 <= j < k ==> is_import_v(#[trigger] items[j]),
        k == items.len() || !is_import_v(items[k]),
    ensures
        first_non_import(items) == k,
    decreases k,
{
    if k > 0 {
        let t = items.drop_first();
        assert(is_import_v(items[0]));
        assert forall|j: int| 0 <= j < k - 1 implies is_import_v(#[trigger] t[j]) by {
            assert(t[j] == items[j + 1]);
        }
        if k < items.len() {
            assert(t[k - 1] == items[k]);
        }
        lemma_first_non_import(t, k - 1);
    }
}

/// Statements waiting to be added at the top of the program.
pub struct TopLevelStatementsStore {
    pub stmts: Vec<Stmt>,
}

impl TopLevelStatementsStore {
    pub fn new() -> (s: Self)
        ensures
            svs(s.stmts@) == Seq::<StmtV>::empty(),
    {
        let s = TopLevelStatementsStore { stmts: Vec::new() };
        assert(svs(s.stmts@) =~= Seq::<StmtV>::empty());
        s
    }

    /// Adds a statement behind the waiting ones.
    pub fn insert_statement(&mut self, stmt: Stmt)
        ensures
            svs(final(self).stmts@) == svs(old(self).stmts@).push(stmt_v(stmt)),
    {
        self.stmts.push(stmt);
        assert(svs(self.stmts@) =~= svs(old(self).stmts@).push(stmt_v(stmt)));
    }

    /// Adds statements, in order, behind the waiting ones.
    pub fn insert_statements(&mut self, stmts: Vec<Stmt>)
        ensures
            svs(final(self).stmts@) == svs(old(self).stmts@) + svs(stmts@),
    {
        let mut stmts = stmts;
        let ghost s0 = stmts@;
        self.stmts.append(&mut stmts);
        assert(svs(self.stmts@) =~= svs(old(self).stmts@) + svs(s0));
    }

    /// Whether nothing waits.
    pub fn is_empty(&self) -> (b: bool)
        ensures
            b == (self.stmts@.len() == 0),
    {
        self.stmts.len() == 0
    }

    /// How many statements wait.
    pub fn len(&self) -> (n: usize)
        ensures
            n == self.stmts@.len(),
    {
        self.stmts.len()
    }

    /// Forgets the waiting statements.
    pub fn clear(&mut self)
        ensures
            final(self).stmts@.len() == 0,
    {
        self.stmts.clear();
    }

    /// Adds the waiting statements at the top of `program` and forgets them.
    pub fn insert_into_program(&mut self, program: &mut Program)
        ensures
            final(self).stmts@.len() == 0,
            program_v(*final(program)) == with_top_level(program_v(*old(program)), svs(old(self).stmts@)),
    {
        if self.stmts.len() == 0 {
            proof {
                match *old(program) {
                    Program::Module(b) => {
                        let items = module_items_v(b@);
                        let k = first_non_import(items);
                        lemma_first_non_import_bounds(items);
                        assert(items.take(k) + as_items(Seq::empty()) + items.skip(k) =~= items);
                    },
                    Program::Script(b) => {
                        assert(Seq::<StmtV>::empty() + svs(b@) =~= svs(b@));
                    },
                }
                assert(svs(old(self).stmts@) =~= Seq::<StmtV>::empty());
            }
            return;
        }
        let mut pending: Vec<Stmt> = Vec::new();
        std::mem::swap(&mut pending, &mut self.stmts);
        let ghost pv = svs(pending@);
        let ghost p0 = pending@;
        match program {
            Program::Module(body) => {
                let mut k: usize = 0;
                while k < body.len()
                    invariant
                        k <= body.len(),
                        forall|j: int| 0 <= j < k ==> is_import_v(#[trigger] module_items_v(body@)[j]),
                    ensures
                        k <= body.len(),
                        forall|j: int| 0 <= j < k ==> is_import_v(#[trigger] module_items_v(body@)[j]),
                        k == body.len() || !is_import_v(module_items_v(body@)[k as int]),
                    decreases body.len() - k,
                {
                    let is_ie = is_import_decl(&body[k]);
                    assert(module_items_v(body@)[k as int] == module_item_v(body@[k as int]));
                    if !is_ie {
                        break;
                    }
                    k += 1;
                }
                proof {
                    lemma_first_non_import(module_items_v(body@), k as int);
                }
                let ghost items0 = body@;
                let mut tail = body.split_off(k);
                let ghost head = body@;
                let ghost tl = tail@;
                let n = pending.len();
                let mut j: usize = 0;
                while j < n
                    invariant
                        n == pending.len(),
                        n == p0.len(),
                        j <= n,
                        pv == svs(p0),
                        forall|i: int| j <= i < n ==> #[trigger] pending@[i] == p0[i],
                        module_items_v(body@) == module_items_v(head) + as_items(pv.take(j as int)),
                    decreases n - j,
                {
                    let mut s = Stmt::Empty(dummy_sp());
                    pending.set_and_swap(j, &mut s);
                    let ghost prev = body@;
                    body.push(ModuleItem::Stmt(s));
                    proof {
                        assert(stmt_v(s) == pv[j as int]);
                        assert(module_items_v(body@) =~= module_items_v(prev).push(ModuleItemV::Stmt(stmt_v(s))));
                        assert(as_items(pv.take(j as int + 1)) =~= as_items(pv.take(j as int)).push(ModuleItemV::Stmt(pv[j as int])));
                    }
                    j += 1;
                }
                let ghost mid = body@;
                body.append(&mut tail);
                proof {
                    let items = module_items_v(items0);
                    assert(pv.take(n as int) =~= pv);
                    assert(module_items_v(head) =~= items.take(k as int));
                    assert(module_items_v(tl) =~= items.skip(k as int));
                    assert(module_items_v(body@) =~= module_items_v(mid) + module_items_v(tl));
                }
            },
            Program::Script(body) => {
                let ghost b0 = body@;
                pending.append(body);
                std::mem::swap(&mut pending, body);
                assert(svs(body@) =~= pv + svs(b0));
            },
        }
    }
}

impl Default for TopLevelStatementsStore {
    /// As `new`.
    fn default() -> (s: Self)
        ensures
            svs(s.stmts@) == Seq::<StmtV>::empty(),
    {
        Self::new()
    }
}

} // verus!
