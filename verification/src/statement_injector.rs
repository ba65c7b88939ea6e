//! Statements to be inserted immediately before or after a target
//! statement, found again by the span of the target.
//!
//! Transforms record insertions against the id of a statement; when the
//! statement list that holds the target is visited,
//! `insert_into_statements` puts them in place and forgets them.

use vstd::prelude::*;

use crate::ast::{dummy_sp, Decl, Span, Stmt};
use crate::ast_view::{stmt_v, DeclV, StmtV};

verus! {

/// Identifies a statement by the start and end of its span.
pub type StatementId = (u32, u32);

/// The span of a statement.
pub open spec fn stmt_span_v(s: StmtV) -> Span {
    match s {
        StmtV::Expr(sp, _) => sp,
        StmtV::Block(sp, _) => sp,
        StmtV::Empty(sp) => sp,
        StmtV::Return(sp, _) => sp,
        StmtV::Decl(d) => match d {
            DeclV::Var(v) => v.span,
            DeclV::Using(u) => u.span,
            DeclV::Fn(_, f) => f.span,
            DeclV::Class(_, c) => c.span,
            DeclV::Opaque(sp, _) => sp,
        },
        StmtV::Try(sp, _, _, _) => sp,
        StmtV::Switch(sp, _, _) => sp,
        StmtV::ForOf(f) => f.span,
        StmtV::Opaque(sp, _) => sp,
    }
}

/// The id of a statement.
pub open spec fn stmt_id_v(s: StmtV) -> StatementId {
    (stmt_span_v(s).lo, stmt_span_v(s).hi)
}

/// Things that stand for a statement.
pub trait GetStatementId {
    spec fn spec_statement_id(&self) -> StatementId;

    fn statement_id(&self) -> (id: StatementId)
        ensures
            id == self.spec_statement_id(),
    ;
}

impl GetStatementId for Stmt {
    open spec fn spec_statement_id(&self) -> StatementId {
        stmt_id_v(stmt_v(*self))
    }

    fn statement_id(&self) -> (id: StatementId) {
        let sp = match self {
            Stmt::Expr(sp, _) => *sp,
            Stmt::Block(sp, _) => *sp,
            Stmt::Empty(sp) => *sp,
            Stmt::Return(sp, _) => *sp,
            Stmt::Decl(d) => match d {
                Decl::Var(v) => v.span,
                Decl::Using(u) => u.span,
                Decl::Fn(_, f) => f.span,
                Decl::Class(_, c) => c.span,
                Decl::Opaque(sp, _) => *sp,
            },
            Stmt::Try(sp, _, _, _) => *sp,
            Stmt::Switch(sp, _, _) => *sp,
            Stmt::ForOf(f) => f.span,
            Stmt::Opaque(sp, _) => *sp,
        };
        proof {
            match self {
                Stmt::Decl(d) => {
                    match d {
                        Decl::Fn(_, f) => {
                            assert(crate::ast_view::function_v(*f).span == f.span);
                        },
                        Decl::Class(_, c) => {
                            assert(crate::ast_view::class_v(*c).span == c.span);
                        },
                        _ => {},
                    }
                },
                Stmt::ForOf(f) => {
                    assert(crate::ast_view::for_of_v(*f).span == f.span);
                },
                _ => {},
            }
            assert(stmt_span_v(stmt_v(*self)) == sp);
        }
        (sp.lo, sp.hi)
    }
}

/// On which side of the target a statement goes.
#[derive(Clone, Copy, Debug, PartialEq, Eq, Structural)]
pub enum Direction {
    Before,
    After,
}

/// A statement waiting to be inserted next to its target.
#[derive(Debug)]
pub struct AdjacentStatement {
    pub stmt: Stmt,
    pub direction: Direction,
}

/// A waiting statement, and whether it goes after the target.
pub struct AdjacentV {
    pub stmt: StmtV,
    pub after: bool,
}

pub open spec fn adj_v(a: AdjacentStatement) -> AdjacentV {
    AdjacentV { stmt: stmt_v(a.stmt), after: a.direction == Direction::After }
}

pub open spec fn adjs_v(s: Seq<AdjacentStatement>) -> Seq<AdjacentV> {
    s.map_values(|a: AdjacentStatement| adj_v(a))
}

/// The views of a sequence of statements.
pub open spec fn svs(s: Seq<Stmt>) -> Seq<StmtV> {
    s.map_values(|x: Stmt| stmt_v(x))
}

/// The statements of waiting entries.
pub open spec fn adj_stmts(s: Seq<AdjacentV>) -> Seq<StmtV> {
    s.map_values(|a: AdjacentV| a.stmt)
}

/// The index of the first entry that goes after the target, or the length.
pub open spec fn first_after(s: Seq<AdjacentV>) -> int
    decreases s.len(),
{
    if s.len() == 0 {
        0
    } else if s[0].after {
        0
    } else {
        1 + first_after(s.drop_first())
    }
}

/// The target with its waiting statements: those before the first one that
/// goes after it, the target, then the rest.
pub open spec fn expand(adj: Seq<AdjacentV>, s: StmtV) -> Seq<StmtV> {
    let k = first_after(adj);
    adj_stmts(adj.take(k)) + seq![s] + adj_stmts(adj.skip(k))
}

/// The entries of `a` and then `b`, each keeping its side: the entries of
/// both that go before the target (those ahead of the first one that goes
/// after it), then the entries of both that go after it.
pub open spec fn merge_sides(a: Seq<AdjacentV>, b: Seq<AdjacentV>) -> Seq<AdjacentV> {
    a.take(first_after(a)) + b.take(first_after(b)) + a.skip(first_after(a)) + b.skip(first_after(b))
}

/// Statements entered on one side of a target.
pub open spec fn wrap_v(s: Seq<StmtV>, after: bool) -> Seq<AdjacentV> {
    Seq::new(s.len(), |i: int| AdjacentV { stmt: s[i], after })
}

/// Statements entered before a target.
pub open spec fn befores(s: Seq<StmtV>) -> Seq<AdjacentV> {
    wrap_v(s, false)
}

/// Statements entered after a target.
pub open spec fn afters(s: Seq<StmtV>) -> Seq<AdjacentV> {
    wrap_v(s, true)
}

/// What is waiting for `k`, empty when nothing is.
pub open spec fn waiting(m: Map<StatementId, Seq<AdjacentV>>, k: StatementId) -> Seq<AdjacentV> {
    if m.contains_key(k) { m[k] } else { Seq::empty() }
}

/// Inserting into `stmts`, left to right: each statement whose id has an
/// entry takes its waiting statements around it, and the entry is removed.
pub open spec fn inject(stmts: Seq<StmtV>, m: Map<StatementId, Seq<AdjacentV>>) -> (Seq<StmtV>, Map<StatementId, Seq<AdjacentV>>)
    decreases stmts.len(),
{
    if stmts.len() == 0 {
        (Seq::empty(), m)
    } else {
        let prev = inject(stmts.drop_last(), m);
        let s = stmts.last();
        let id = stmt_id_v(s);
        if prev.1.contains_key(id) {
            (prev.0 + expand(prev.1[id], s), prev.1.remove(id))
        } else {
            (prev.0.push(s), prev.1)
        }
    }
}

/// Whether some statement of `stmts` has a non-empty entry.
pub open spec fn has_pending(stmts: Seq<StmtV>, m: Map<StatementId, Seq<AdjacentV>>) -> bool {
    exists|i: int| 0 <= i < stmts.len() && m.contains_key(stmt_id_v(#[trigger] stmts[i]))
        && m[stmt_id_v(stmts[i])].len() > 0
}

/// Insertions waiting for their targets.
pub struct StatementInjectorStore {
    pub ids: Vec<StatementId>,
    pub lists: Vec<Vec<AdjacentStatement>>,
}

impl StatementInjectorStore {
    /// Each target has at most one entry.
    pub open spec fn wf(&self) -> bool {
        &&& self.ids.len() == self.lists.len()
        &&& self.ids@.no_duplicates()
    }

    /// The waiting statements of each target.
    pub open spec fn map_v(&self) -> Map<StatementId, Seq<AdjacentV>> {
        Map::new(
            |k: StatementId| self.ids@.contains(k),
            |k: StatementId| adjs_v(self.lists@[self.ids@.index_of(k)]@),
        )
    }

    /// An empty store.
    pub fn new() -> (s: Self)
        ensures
            s.wf(),
            s.map_v() == Map::<StatementId, Seq<AdjacentV>>::empty(),
    {
        let s = StatementInjectorStore { ids: Vec::new(), lists: Vec::new() };
        assert(s.map_v() =~= Map::<StatementId, Seq<AdjacentV>>::empty());
        s
    }

    /// Whether nothing waits.
    pub fn is_empty(&self) -> (b: bool)
        requires
            self.wf(),
        ensures
            b == self.map_v().is_empty(),
    {
        proof {
            if self.ids.len() > 0 {
                assert(self.map_v().contains_key(self.ids@[0]));
            } else {
                assert(self.map_v() =~= Map::<StatementId, Seq<AdjacentV>>::empty());
            }
        }
        self.ids.len() == 0
    }

    /// The index of `id`, if it has an entry.
    fn find(&self, id: StatementId) -> (r: Option<usize>)
        requires
            self.wf(),
        ensures
            match r {
                Some(i) => i < self.ids.len() && self.ids@[i as int] == id,
                None => !self.ids@.contains(id),
            },
    {
        let mut i: usize = 0;
        while i < self.ids.len()
            invariant
                i <= self.ids.len(),
                forall|j: int| 0 <= j < i ==> self.ids@[j] != id,
            decreases self.ids.len() - i,
        {
            if self.ids[i].0 == id.0 && self.ids[i].1 == id.1 {
                return Some(i);
            }
            i += 1;
        }
        None
    }

    proof fn lemma_index_of(&self, i: int)
        requires
            self.wf(),
            0 <= i < self.ids.len(),
        ensures
            self.ids@.index_of(self.ids@[i]) == i,
            self.map_v().contains_key(self.ids@[i]),
            self.map_v()[self.ids@[i]] == adjs_v(self.lists@[i]@),
    {
        let k = self.ids@[i];
        assert(self.ids@.contains(k));
        let j = self.ids@.index_of(k);
        assert(0 <= j < self.ids.len() && self.ids@[j] == k);
    }

    /// Takes the list of `id` out, creating an empty entry if there is none;
    /// returns its index.
    fn entry(&mut self, id: StatementId) -> (i: usize)
        requires
            old(self).wf(),
        ensures
            final(self).wf(),
            i < final(self).ids.len(),
            final(self).ids@[i as int] == id,
            adjs_v(final(self).lists@[i as int]@) == waiting(old(self).map_v(), id),
            final(self).map_v() == old(self).map_v().insert(id, waiting(old(self).map_v(), id)),
    {
        match self.find(id) {
            Some(i) => {
                proof {
                    self.lemma_index_of(i as int);
                    assert(self.map_v() =~= self.map_v().insert(id, waiting(self.map_v(), id)));
                }
                i
            },
            None => {
                let ghost m0 = self.map_v();
                let ghost ids0 = self.ids@;
                self.ids.push(id);
                self.lists.push(Vec::new());
                let i = self.ids.len() - 1;
                proof {
                    assert forall|a: int, b: int| 0 <= a < self.ids.len() && 0 <= b < self.ids.len() && a != b
                        implies self.ids@[a] != self.ids@[b] by {
                        if a < i && b < i {
                            assert(ids0[a] != ids0[b]);
                        } else if a == i {
                            assert(ids0.contains(ids0[b]));
                        } else {
                            assert(ids0.contains(ids0[a]));
                        }
                    }
                    assert(adjs_v(self.lists@[i as int]@) =~= Seq::<AdjacentV>::empty());
                    assert forall|k: StatementId| #[trigger] self.map_v().contains_key(k) == m0.insert(id, Seq::empty()).contains_key(k) by {
                        if self.ids@.contains(k) && k != id {
                            let j = choose|j: int| 0 <= j < self.ids.len() && self.ids@[j] == k;
                            assert(ids0[j] == k);
                        }
                        if ids0.contains(k) {
                            let j = choose|j: int| 0 <= j < ids0.len() && ids0[j] == k;
                            assert(self.ids@[j] == k);
                        }
                        if k == id {
                            assert(self.ids@[i as int] == id);
                        }
                    }
                    assert forall|k: StatementId| #[trigger] self.map_v().contains_key(k) implies self.map_v()[k] == m0.insert(id, Seq::empty())[k] by {
                        if k == id {
                            self.lemma_index_of(i as int);
                        } else {
                            let j = choose|j: int| 0 <= j < ids0.len() && ids0[j] == k;
                            assert(self.ids@[j] == k);
                            self.lemma_index_of(j);
                        }
                    }
                    assert(self.map_v() =~= m0.insert(id, waiting(m0, id)));
                }
                i
            },
        }
    }

    /// Replaces the list at index `i`.
    fn put(&mut self, i: usize, list: Vec<AdjacentStatement>)
        requires
            old(self).wf(),
            i < old(self).ids.len(),
        ensures
            final(self).wf(),
            final(self).ids@ == old(self).ids@,
            final(self).map_v() == old(self).map_v().insert(old(self).ids@[i as int], adjs_v(list@)),
    {
        let ghost m0 = self.map_v();
        let ghost k0 = self.ids@[i as int];
        let mut l = list;
        self.lists.set_and_swap(i, &mut l);
        proof {
            assert forall|k: StatementId| #[trigger] self.map_v().contains_key(k) implies self.map_v()[k] == m0.insert(k0, adjs_v(list@))[k] by {
                let j = self.ids@.index_of(k);
                if k != k0 {
                    assert(j != i);
                }
                if k == k0 {
                    self.lemma_index_of(i as int);
                }
            }
            assert(self.map_v() =~= m0.insert(k0, adjs_v(list@)));
        }
    }

    /// Takes the list at index `i` out, leaving an empty one.
    fn take_list(&mut self, i: usize) -> (list: Vec<AdjacentStatement>)
        requires
            old(self).wf(),
            i < old(self).ids.len(),
        ensures
            final(self).wf(),
            final(self).ids@ == old(self).ids@,
            adjs_v(list@) == old(self).map_v()[old(self).ids@[i as int]],
            final(self).map_v() == old(self).map_v().insert(old(self).ids@[i as int], Seq::empty()),
    {
        proof {
            self.lemma_index_of(i as int);
        }
        let mut l: Vec<AdjacentStatement> = Vec::new();
        self.lists.set_and_swap(i, &mut l);
        proof {
            let k0 = old(self).ids@[i as int];
            let m0 = old(self).map_v();
            assert forall|k: StatementId| #[trigger] self.map_v().contains_key(k) implies self.map_v()[k] == m0.insert(k0, Seq::empty())[k] by {
                let j = self.ids@.index_of(k);
                if k == k0 {
                    self.lemma_index_of(i as int);
                    assert(adjs_v(self.lists@[i as int]@) =~= Seq::<AdjacentV>::empty());
                }
            }
            assert(self.map_v() =~= m0.insert(k0, Seq::empty()));
        }
        l
    }

    /// Removes the entry at index `i` and returns its list.
    fn remove_entry(&mut self, i: usize) -> (list: Vec<AdjacentStatement>)
        requires
            old(self).wf(),
            i < old(self).ids.len(),
        ensures
            final(self).wf(),
            adjs_v(list@) == old(self).map_v()[old(self).ids@[i as int]],
            final(self).map_v() == old(self).map_v().remove(old(self).ids@[i as int]),
    {
        proof {
            self.lemma_index_of(i as int);
        }
        let ghost ids0 = self.ids@;
        let ghost m0 = self.map_v();
        let ghost k0 = ids0[i as int];
        self.ids.remove(i);
        let list = self.lists.remove(i);
        proof {
            assert forall|a: int, b: int| 0 <= a < self.ids.len() && 0 <= b < self.ids.len() && a != b
                implies self.ids@[a] != self.ids@[b] by {
                let a0 = if a < i { a } else { a + 1 };
                let b0 = if b < i { b } else { b + 1 };
                assert(self.ids@[a] == ids0[a0]);
                assert(self.ids@[b] == ids0[b0]);
            }
            assert forall|k: StatementId| #[trigger] self.map_v().contains_key(k) == m0.remove(k0).contains_key(k) by {
                if self.ids@.contains(k) {
                    let j = choose|j: int| 0 <= j < self.ids.len() && self.ids@[j] == k;
                    let j0 = if j < i { j } else { j + 1 };
                    assert(ids0[j0] == k);
                    assert(j0 != i);
                }
                if ids0.contains(k) && k != k0 {
                    let j = choose|j: int| 0 <= j < ids0.len() && ids0[j] == k;
                    assert(j != i);
                    let j1 = if j < i { j } else { j - 1 };
                    assert(self.ids@[j1] == k);
                }
            }
            assert forall|k: StatementId| #[trigger] self.map_v().contains_key(k) implies self.map_v()[k] == m0.remove(k0)[k] by {
                let j = choose|j: int| 0 <= j < self.ids.len() && self.ids@[j] == k;
                let j0 = if j < i { j } else { j + 1 };
                assert(ids0[j0] == k);
                self.lemma_index_of(j);
                old(self).lemma_index_of(j0);
            }
            assert(self.map_v() =~= m0.remove(k0));
        }
        list
    }
}

impl StatementInjectorStore {
    /// Adds `stmt` to go immediately before the target, after the statements
    /// already waiting before it.
    pub fn insert_before<S: GetStatementId>(&mut self, target: &S, stmt: Stmt)
        requires
            old(self).wf(),
        ensures
            final(self).wf(),
            ({
                let id = target.spec_statement_id();
                let w = waiting(old(self).map_v(), id);
                final(self).map_v() == old(self).map_v().insert(
                    id,
                    w.insert(first_after(w), AdjacentV { stmt: stmt_v(stmt), after: false }),
                )
            }),
    {
        let id = target.statement_id();
        self.insert_before_id(id, stmt);
    }

    fn insert_before_id(&mut self, id: StatementId, stmt: Stmt)
        requires
            old(self).wf(),
        ensures
            final(self).wf(),
            ({
                let w = waiting(old(self).map_v(), id);
                final(self).map_v() == old(self).map_v().insert(
                    id,
                    w.insert(first_after(w), AdjacentV { stmt: stmt_v(stmt), after: false }),
                )
            }),
    {
        let ghost w = waiting(self.map_v(), id);
        let i = self.entry(id);
        let mut list = self.take_list(i);
        let k = first_after_index(&list);
        let ghost l0 = list@;
        list.insert(k, AdjacentStatement { stmt, direction: Direction::Before });
        assert(adjs_v(list@) =~= w.insert(k as int, AdjacentV { stmt: stmt_v(stmt), after: false }));
        self.put(i, list);
        assert(self.map_v() =~= old(self).map_v().insert(id, w.insert(first_after(w), AdjacentV { stmt: stmt_v(stmt), after: false })));
    }

    /// Adds `stmt` to go immediately after the target, after the statements
    /// already waiting after it.
    pub fn insert_after<S: GetStatementId>(&mut self, target: &S, stmt: Stmt)
        requires
            old(self).wf(),
        ensures
            final(self).wf(),
            ({
                let id = target.spec_statement_id();
                final(self).map_v() == old(self).map_v().insert(
                    id,
                    waiting(old(self).map_v(), id).push(AdjacentV { stmt: stmt_v(stmt), after: true }),
                )
            }),
    {
        let id = target.statement_id();
        self.insert_after_id(id, stmt);
    }

    fn insert_after_id(&mut self, id: StatementId, stmt: Stmt)
        requires
            old(self).wf(),
        ensures
            final(self).wf(),
            final(self).map_v() == old(self).map_v().insert(
                id,
                waiting(old(self).map_v(), id).push(AdjacentV { stmt: stmt_v(stmt), after: true }),
            ),
    {
        let ghost w = waiting(self.map_v(), id);
        let i = self.entry(id);
        let mut list = self.take_list(i);
        list.push(AdjacentStatement { stmt, direction: Direction::After });
        assert(adjs_v(list@) =~= w.push(AdjacentV { stmt: stmt_v(stmt), after: true }));
        self.put(i, list);
        assert(self.map_v() =~= old(self).map_v().insert(id, w.push(AdjacentV { stmt: stmt_v(stmt), after: true })));
    }

    /// Adds `stmts`, in order, to go before the target, ahead of every
    /// statement already waiting for it.
    pub fn insert_many_before<S: GetStatementId>(&mut self, target: &S, stmts: Vec<Stmt>)
        requires
            old(self).wf(),
        ensures
            final(self).wf(),
            ({
                let id = target.spec_statement_id();
                final(self).map_v() == old(self).map_v().insert(
                    id,
                    befores(svs(stmts@)) + waiting(old(self).map_v(), id),
                )
            }),
    {
        let id = target.statement_id();
        self.insert_many_before_id(id, stmts);
    }

    fn insert_many_before_id(&mut self, id: StatementId, stmts: Vec<Stmt>)
        requires
            old(self).wf(),
        ensures
            final(self).wf(),
            final(self).map_v() == old(self).map_v().insert(
                id,
                befores(svs(stmts@)) + waiting(old(self).map_v(), id),
            ),
    {
        let ghost w = waiting(self.map_v(), id);
        let i = self.entry(id);
        let mut old_list = self.take_list(i);
        let mut list = wrap_all(stmts, Direction::Before);
        let ghost l1 = list@;
        let ghost l2 = old_list@;
        list.append(&mut old_list);
        assert(adjs_v(list@) =~= adjs_v(l1) + adjs_v(l2));
        self.put(i, list);
    }

    /// Adds `stmts`, in order, to go after the target, behind every
    /// statement already waiting for it.
    pub fn insert_many_after<S: GetStatementId>(&mut self, target: &S, stmts: Vec<Stmt>)
        requires
            old(self).wf(),
        ensures
            final(self).wf(),
            ({
                let id = target.spec_statement_id();
                final(self).map_v() == old(self).map_v().insert(
                    id,
                    waiting(old(self).map_v(), id) + afters(svs(stmts@)),
                )
            }),
    {
        let id = target.statement_id();
        self.insert_many_after_id(id, stmts);
    }

    fn insert_many_after_id(&mut self, id: StatementId, stmts: Vec<Stmt>)
        requires
            old(self).wf(),
        ensures
            final(self).wf(),
            final(self).map_v() == old(self).map_v().insert(
                id,
                waiting(old(self).map_v(), id) + afters(svs(stmts@)),
            ),
    {
        let i = self.entry(id);
        let mut list = self.take_list(i);
        let mut more = wrap_all(stmts, Direction::After);
        let ghost l1 = list@;
        let ghost l2 = more@;
        list.append(&mut more);
        assert(adjs_v(list@) =~= adjs_v(l1) + adjs_v(l2));
        self.put(i, list);
    }

    /// Moves what waits for `old_target` to `new_target`, each statement
    /// keeping its side: those that went before the old target go before the
    /// new one, behind those already waiting before it, and those that went
    /// after it go after the new one, behind those already waiting after it,
    /// as `merge_sides` says; nothing happens when nothing waits for
    /// `old_target`.
    pub fn move_insertions<S1: GetStatementId, S2: GetStatementId>(&mut self, old_target: &S1, new_target: &S2)
        requires
            old(self).wf(),
        ensures
            final(self).wf(),
            ({
                let m = old(self).map_v();
                let o = old_target.spec_statement_id();
                let n = new_target.spec_statement_id();
                if m.contains_key(o) {
                    let m1 = m.remove(o);
                    final(self).map_v() == m1.insert(n, merge_sides(waiting(m1, n), m[o]))
                } else {
                    final(self).map_v() == m
                }
            }),
    {
        let o = old_target.statement_id();
        let n = new_target.statement_id();
        self.move_insertions_id(o, n);
    }

    fn move_insertions_id(&mut self, old_id: StatementId, new_id: StatementId)
        requires
            old(self).wf(),
        ensures
            final(self).wf(),
            ({
                let m = old(self).map_v();
                if m.contains_key(old_id) {
                    let m1 = m.remove(old_id);
                    final(self).map_v() == m1.insert(new_id, merge_sides(waiting(m1, new_id), m[old_id]))
                } else {
                    final(self).map_v() == m
                }
            }),
    {
        match self.find(old_id) {
            None => {
                assert(!self.map_v().contains_key(old_id));
            },
            Some(i) => {
                let mut moved = self.remove_entry(i);
                let j = self.entry(new_id);
                let mut list = self.take_list(j);
                let ghost l1 = adjs_v(list@);
                let ghost l2 = adjs_v(moved@);
                let k1 = first_after_index(&list);
                let k2 = first_after_index(&moved);
                let mut list_after = list.split_off(k1);
                let mut moved_after = moved.split_off(k2);
                assert(adjs_v(list@) =~= l1.take(k1 as int));
                assert(adjs_v(list_after@) =~= l1.skip(k1 as int));
                assert(adjs_v(moved@) =~= l2.take(k2 as int));
                assert(adjs_v(moved_after@) =~= l2.skip(k2 as int));
                list.append(&mut moved);
                list.append(&mut list_after);
                list.append(&mut moved_after);
                assert(adjs_v(list@) =~= merge_sides(l1, l2));
                self.put(j, list);
                proof {
                    let m = old(self).map_v();
                    let m1 = m.remove(old_id);
                    assert(self.map_v() =~= m1.insert(new_id, merge_sides(waiting(m1, new_id), m[old_id])));
                }
            },
        }
    }

    /// Whether some statement of `stmts` has statements waiting for it.
    fn any_pending(&self, stmts: &Vec<Stmt>) -> (b: bool)
        requires
            self.wf(),
        ensures
            b == has_pending(svs(stmts@), self.map_v()),
    {
        let mut i: usize = 0;
        while i < stmts.len()
            invariant
                self.wf(),
                i <= stmts.len(),
                forall|j: int| 0 <= j < i ==> !(self.map_v().contains_key(stmt_id_v(#[trigger] svs(stmts@)[j])) && self.map_v()[stmt_id_v(svs(stmts@)[j])].len() > 0),
            decreases stmts.len() - i,
        {
            let id = stmts[i].statement_id();
            assert(svs(stmts@)[i as int] == stmt_v(stmts@[i as int]));
            match self.find(id) {
                Some(k) => {
                    proof {
                        self.lemma_index_of(k as int);
                    }
                    if self.lists[k].len() > 0 {
                        return true;
                    }
                },
                None => {},
            }
            i += 1;
        }
        false
    }

    /// Puts the waiting statements around their targets in `statements`,
    /// and forgets them; a target that occurs twice takes them at its
    /// first occurrence. When nothing waits for any of the statements, the
    /// store is left as it is.
    pub fn insert_into_statements(&mut self, statements: &mut Vec<Stmt>)
        requires
            old(self).wf(),
        ensures
            final(self).wf(),
            ({
                let m = old(self).map_v();
                let sv = svs(old(statements)@);
                if m.is_empty() || !has_pending(sv, m) {
                    &&& *final(statements) == *old(statements)
                    &&& final(self).map_v() == m
                } else {
                    &&& svs(final(statements)@) == inject(sv, m).0
                    &&& final(self).map_v() == inject(sv, m).1
                }
            }),
    {
        if self.is_empty() {
            return;
        }
        if !self.any_pending(statements) {
            return;
        }
        let ghost m = self.map_v();
        let ghost sv = svs(statements@);
        let ghost orig = statements@;
        let mut src: Vec<Stmt> = Vec::new();
        std::mem::swap(&mut src, statements);
        let mut out: Vec<Stmt> = Vec::new();
        let n = src.len();
        let mut j: usize = 0;
        proof {
            assert(sv.take(0) =~= Seq::<StmtV>::empty());
            assert(svs(out@) =~= Seq::<StmtV>::empty());
        }
        while j < n
            invariant
                self.wf(),
                n == src.len(),
                n == orig.len(),
                sv == svs(orig),
                j <= n,
                forall|k: int| j <= k < n ==> #[trigger] src@[k] == orig[k],
                svs(out@) == inject(sv.take(j as int), m).0,
                self.map_v() == inject(sv.take(j as int), m).1,
            decreases n - j,
        {
            let mut s = Stmt::Empty(dummy_sp());
            src.set_and_swap(j, &mut s);
            let id = s.statement_id();
            proof {
                assert(sv.take(j as int + 1).drop_last() =~= sv.take(j as int));
                assert(sv.take(j as int + 1).last() == stmt_v(s));
            }
            match self.find(id) {
                Some(i) => {
                    proof {
                        self.lemma_index_of(i as int);
                    }
                    let adj = self.remove_entry(i);
                    emit(&mut out, adj, s);
                },
                None => {
                    let ghost prev = out@;
                    out.push(s);
                    assert(svs(out@) =~= svs(prev).push(stmt_v(s)));
                },
            }
            j += 1;
        }
        assert(sv.take(n as int) =~= sv);
        *statements = out;
    }

    /// Whether no insertion is left; transforms check this once the whole
    /// program has been visited.
    pub fn assert_no_insertions_remaining(&self) -> (b: bool)
        requires
            self.wf(),
        ensures
            b == self.map_v().is_empty(),
    {
        self.is_empty()
    }
}

/// Wraps each statement with the direction `d`.
fn wrap_all(stmts: Vec<Stmt>, d: Direction) -> (r: Vec<AdjacentStatement>)
    ensures
        adjs_v(r@) == wrap_v(svs(stmts@), d == Direction::After),
{
    let mut stmts = stmts;
    let ghost orig = stmts@;
    let n = stmts.len();
    let mut r: Vec<AdjacentStatement> = Vec::new();
    let mut j: usize = 0;
    while j < n
        invariant
            n == stmts.len(),
            n == orig.len(),
            j <= n,
            forall|k: int| j <= k < n ==> #[trigger] stmts@[k] == orig[k],
            r.len() == j,
            adjs_v(r@) == wrap_v(svs(orig).take(j as int), d == Direction::After),
        decreases n - j,
    {
        let mut s = Stmt::Empty(dummy_sp());
        stmts.set_and_swap(j, &mut s);
        let ghost prev = r@;
        r.push(AdjacentStatement { stmt: s, direction: d });
        proof {
            assert(s == orig[j as int]);
            let t1 = svs(orig).take(j as int + 1);
            assert forall|k: int| 0 <= k < j + 1 implies #[trigger] adjs_v(r@)[k] == wrap_v(t1, d == Direction::After)[k] by {
                if k < j {
                    assert(r@[k] == prev[k]);
                    assert(adjs_v(prev)[k] == wrap_v(svs(orig).take(j as int), d == Direction::After)[k]);
                }
            }
            assert(adjs_v(r@) =~= wrap_v(t1, d == Direction::After));
        }
        j += 1;
    }
    assert(svs(orig).take(n as int) =~= svs(orig));
    r
}

/// `first_after` is the index of the first entry that goes after, or the
/// length when there is none.
proof fn lemma_first_after(s: Seq<AdjacentV>, k: int)
    requires
        0 <= k <= s.len(),
        forall|j: int| 0 <= j < k ==> !(#[trigger] s[j]).after,
        k == s.len() || s[k].after,
    ensures
        first_after(s) == k,
    decreases k,
{
    if k > 0 {
        assert(!s[0].after);
        let t = s.drop_first();
        assert forall|j: int| 0 <= j < k - 1 implies !(#[trigger] t[j]).after by {
            assert(t[j] == s[j + 1]);
        }
        if k < s.len() {
            assert(t[k - 1] == s[k]);
        }
        lemma_first_after(t, k - 1);
    }
}

/// Where the first entry that goes after stands in `list`.
fn first_after_index(list: &Vec<AdjacentStatement>) -> (k: usize)
    ensures
        k as int == first_after(adjs_v(list@)),
        k <= list.len(),
{
    let mut k: usize = 0;
    while k < list.len()
        invariant
            k <= list.len(),
            forall|j: int| 0 <= j < k ==> !(#[trigger] adjs_v(list@)[j]).after,
        ensures
            k <= list.len(),
            forall|j: int| 0 <= j < k ==> !(#[trigger] adjs_v(list@)[j]).after,
            k == list.len() || adjs_v(list@)[k as int].after,
        decreases list.len() - k,
    {
        match list[k].direction {
            Direction::After => {
                break;
            },
            Direction::Before => {},
        }
        k += 1;
    }
    proof {
        lemma_first_after(adjs_v(list@), k as int);
    }
    k
}

/// Appends the statements of `adj[from..to]` to `out`, leaving dummies.
fn emit_range(out: &mut Vec<Stmt>, adj: &mut Vec<AdjacentStatement>, from: usize, to: usize)
    requires
        from <= to <= old(adj).len(),
    ensures
        final(adj).len() == old(adj).len(),
        forall|j: int| 0 <= j < from || to <= j < old(adj).len() ==> #[trigger] final(adj)@[j] == old(adj)@[j],
        svs(final(out)@) == svs(old(out)@) + adj_stmts(adjs_v(old(adj)@).subrange(from as int, to as int)),
{
    let mut j = from;
    while j < to
        invariant
            from <= j <= to,
            to <= adj.len(),
            adj.len() == old(adj).len(),
            forall|i: int| 0 <= i < j || to <= i < old(adj).len() ==> #[trigger] adj@[i] == old(adj)@[i] || i >= from && i < j,
            forall|i: int| j <= i < old(adj).len() ==> #[trigger] adj@[i] == old(adj)@[i],
            svs(out@) == svs(old(out)@) + adj_stmts(adjs_v(old(adj)@).subrange(from as int, j as int)),
        decreases to - j,
    {
        let mut a = AdjacentStatement { stmt: Stmt::Empty(dummy_sp()), direction: Direction::Before };
        adj.set_and_swap(j, &mut a);
        let ghost prev = out@;
        out.push(a.stmt);
        proof {
            assert(svs(out@) =~= svs(prev).push(stmt_v(a.stmt)));
            assert(adj_stmts(adjs_v(old(adj)@).subrange(from as int, j + 1)) =~= adj_stmts(adjs_v(old(adj)@).subrange(from as int, j as int)).push(stmt_v(old(adj)@[j as int].stmt)));
        }
        j += 1;
    }
}

/// Appends the target `s` with its waiting statements `adj` to `out`.
fn emit(out: &mut Vec<Stmt>, adj: Vec<AdjacentStatement>, s: Stmt)
    ensures
        svs(final(out)@) == svs(old(out)@) + expand(adjs_v(adj@), stmt_v(s)),
{
    let ghost a0 = adjs_v(adj@);
    let k = first_after_index(&adj);
    let n = adj.len();
    let mut adj = adj;
    emit_range(out, &mut adj, 0, k);
    let ghost mid = out@;
    out.push(s);
    assert(svs(out@) =~= svs(mid).push(stmt_v(s)));
    let ghost adj1 = adj@;
    emit_range(out, &mut adj, k, n);
    proof {
        assert(adjs_v(adj1).subrange(k as int, n as int) == a0.subrange(k as int, n as int)) by {
            assert(adjs_v(adj1).subrange(k as int, n as int) =~= a0.subrange(k as int, n as int));
        }
        assert(a0.subrange(0, k as int) =~= a0.take(k as int));
        assert(a0.subrange(k as int, n as int) =~= a0.skip(k as int));
    }
    assert(svs(out@) =~= svs(old(out)@) + expand(a0, stmt_v(s)));
}

// ---------------------------------------------------------------------------
// Inserted statements land around their target.

/// Statements that nothing waits for pass through unchanged.
proof fn lemma_inject_untouched(stmts: Seq<StmtV>, m: Map<StatementId, Seq<AdjacentV>>)
    requires
        forall|i: int| 0 <= i < stmts.len() ==> !m.contains_key(stmt_id_v(#[trigger] stmts[i])),
    ensures
        inject(stmts, m) == (stmts, m),
    decreases stmts.len(),
{
    if stmts.len() > 0 {
        lemma_inject_untouched(stmts.drop_last(), m);
        assert(stmts.drop_last().push(stmts.last()) =~= stmts);
    }
}

/// Injecting into two runs, one after the other, is injecting into both.
proof fn lemma_inject_append(a: Seq<StmtV>, b: Seq<StmtV>, m: Map<StatementId, Seq<AdjacentV>>)
    ensures
        inject(a + b, m) == ({
            let p = inject(a, m);
            let q = inject(b, p.1);
            (p.0 + q.0, q.1)
        }),
    decreases b.len(),
{
    if b.len() == 0 {
        assert(a + b =~= a);
        assert(inject(a, m).0 + Seq::<StmtV>::empty() =~= inject(a, m).0);
    } else {
        lemma_inject_append(a, b.drop_last(), m);
        assert((a + b).drop_last() =~= a + b.drop_last());
        assert((a + b).last() == b.last());
        let p = inject(a, m);
        let q = inject(b.drop_last(), p.1);
        let id = stmt_id_v(b.last());
        if q.1.contains_key(id) {
            assert(p.0 + q.0 + expand(q.1[id], b.last()) =~= p.0 + (q.0 + expand(q.1[id], b.last())));
        } else {
            assert((p.0 + q.0).push(b.last()) =~= p.0 + q.0.push(b.last()));
        }
    }
}

/// No entry that goes before the target stands behind one that goes after
/// it.
pub open spec fn sided(w: Seq<AdjacentV>) -> bool {
    forall|i: int, j: int| #![trigger w[i], w[j]] 0 <= i < j < w.len() && w[i].after ==> w[j].after
}

proof fn lemma_first_after_bounds(s: Seq<AdjacentV>)
    ensures
        0 <= first_after(s) <= s.len(),
        forall|j: int| 0 <= j < first_after(s) ==> !(#[trigger] s[j]).after,
        first_after(s) < s.len() ==> s[first_after(s)].after,
    decreases s.len(),
{
    if s.len() > 0 && !s[0].after {
        lemma_first_after_bounds(s.drop_first());
        assert forall|j: int| 0 <= j < first_after(s) implies !(#[trigger] s[j]).after by {
            if j > 0 {
                assert(s[j] == s.drop_first()[j - 1]);
            }
        }
    }
}

/// Whatever sequence of insertions and moves made a list of waiting
/// statements, those entered before the target come first and those
/// entered after it come last: each operation keeps a list sided, and in a
/// sided list the entries up to `first_after` are exactly those that go
/// before the target, so that `expand` puts each statement on its side.
pub proof fn lemma_sides_kept(w: Seq<AdjacentV>, a: Seq<AdjacentV>, b: Seq<AdjacentV>, xs: Seq<StmtV>, x: StmtV)
    requires
        sided(w),
        sided(a),
        sided(b),
    ensures
        sided(Seq::<AdjacentV>::empty()),
        sided(w.insert(first_after(w), AdjacentV { stmt: x, after: false })),
        sided(w.push(AdjacentV { stmt: x, after: true })),
        sided(befores(xs) + w),
        sided(w + afters(xs)),
        sided(merge_sides(a, b)),
        forall|i: int| 0 <= i < w.len() ==> (i < first_after(w) <==> !(#[trigger] w[i]).after),
{
    lemma_first_after_bounds(w);
    lemma_first_after_bounds(a);
    lemma_first_after_bounds(b);
    let k = first_after(w);
    let n = AdjacentV { stmt: x, after: false };
    let w1 = w.insert(k, n);
    assert forall|i: int, j: int| #![trigger w1[i], w1[j]] 0 <= i < j < w1.len() && w1[i].after implies w1[j].after by {
        if i < k {
        } else if i == k {
        } else {
            assert(w1[i] == w[i - 1]);
            assert(w1[j] == w[j - 1]);
        }
    }
    let w2 = w.push(AdjacentV { stmt: x, after: true });
    assert forall|i: int, j: int| #![trigger w2[i], w2[j]] 0 <= i < j < w2.len() && w2[i].after implies w2[j].after by {
        if j < w.len() {
            assert(w2[i] == w[i] && w2[j] == w[j]);
        }
    }
    let w3 = befores(xs) + w;
    assert forall|i: int, j: int| #![trigger w3[i], w3[j]] 0 <= i < j < w3.len() && w3[i].after implies w3[j].after by {
        if i >= xs.len() {
            assert(w3[i] == w[i - xs.len()] && w3[j] == w[j - xs.len()]);
        }
    }
    let w4 = w + afters(xs);
    assert forall|i: int, j: int| #![trigger w4[i], w4[j]] 0 <= i < j < w4.len() && w4[i].after implies w4[j].after by {
        if j < w.len() {
            assert(w4[i] == w[i] && w4[j] == w[j]);
        }
    }
    let m = merge_sides(a, b);
    let ka = first_after(a);
    let kb = first_after(b);
    assert forall|i: int, j: int| #![trigger m[i], m[j]] 0 <= i < j < m.len() && m[i].after implies m[j].after by {
        // m = a.take(ka) + b.take(kb) + a.skip(ka) + b.skip(kb)
        let p1 = ka;
        let p2 = ka + kb;
        let p3 = ka + kb + (a.len() - ka);
        if i < p2 {
            if i < p1 {
                assert(m[i] == a[i]);
            } else {
                assert(m[i] == b[i - p1]);
            }
        } else {
            if j < p3 {
                assert(m[j] == a[j - kb]);
            } else {
                assert(m[j] == b[j - p3 + kb]);
            }
        }
    }
    assert forall|i: int| 0 <= i < w.len() implies (i < first_after(w) <==> !(#[trigger] w[i]).after) by {
        if i >= k {
            assert(w[k].after);
            if i > k {
                assert(w[k].after ==> w[i].after);
            }
        }
    }
}

/// One call that enters statements for a target, as its contract states
/// it: `insert_before`, `insert_after`, `insert_many_before` or
/// `insert_many_after`.
pub enum InsertCall {
    Before(StatementId, StmtV),
    After(StatementId, StmtV),
    ManyBefore(StatementId, Seq<StmtV>),
    ManyAfter(StatementId, Seq<StmtV>),
}

/// What waits after `call`, given what waited before it.
pub open spec fn apply_call(m: Map<StatementId, Seq<AdjacentV>>, call: InsertCall) -> Map<StatementId, Seq<AdjacentV>> {
    match call {
        InsertCall::Before(id, x) => {
            let w = waiting(m, id);
            m.insert(id, w.insert(first_after(w), AdjacentV { stmt: x, after: false }))
        },
        InsertCall::After(id, x) => m.insert(id, waiting(m, id).push(AdjacentV { stmt: x, after: true })),
        InsertCall::ManyBefore(id, xs) => m.insert(id, befores(xs) + waiting(m, id)),
        InsertCall::ManyAfter(id, xs) => m.insert(id, waiting(m, id) + afters(xs)),
    }
}

/// What waits after the calls `calls`, made in turn on a fresh store.
pub open spec fn history(calls: Seq<InsertCall>) -> Map<StatementId, Seq<AdjacentV>>
    decreases calls.len(),
{
    if calls.len() == 0 {
        Map::empty()
    } else {
        apply_call(history(calls.drop_last()), calls.last())
    }
}

/// The statements entered before `id` by `calls`: single ones in call
/// order, each batch ahead of all that came earlier.
pub open spec fn entered_before(calls: Seq<InsertCall>, id: StatementId) -> Seq<StmtV>
    decreases calls.len(),
{
    if calls.len() == 0 {
        Seq::empty()
    } else {
        let b = entered_before(calls.drop_last(), id);
        match calls.last() {
            InsertCall::Before(i, x) => if i == id { b.push(x) } else { b },
            InsertCall::ManyBefore(i, xs) => if i == id { xs + b } else { b },
            _ => b,
        }
    }
}

/// The statements entered after `id` by `calls`, in call order.
pub open spec fn entered_after(calls: Seq<InsertCall>, id: StatementId) -> Seq<StmtV>
    decreases calls.len(),
{
    if calls.len() == 0 {
        Seq::empty()
    } else {
        let a = entered_after(calls.drop_last(), id);
        match calls.last() {
            InsertCall::After(i, x) => if i == id { a.push(x) } else { a },
            InsertCall::ManyAfter(i, xs) => if i == id { a + xs } else { a },
            _ => a,
        }
    }
}

proof fn lemma_first_after_sides(b: Seq<StmtV>, a: Seq<StmtV>)
    ensures
        first_after(befores(b) + afters(a)) == b.len(),
{
    let w = befores(b) + afters(a);
    assert forall|j: int| 0 <= j < b.len() implies !(#[trigger] w[j]).after by {}
    if a.len() > 0 {
        assert(w[b.len() as int].after);
    }
    lemma_first_after(w, b.len() as int);
}

/// After any calls that enter statements (no moves), what waits for a
/// target is what was entered before it, then what was entered after it;
/// so the target ends up with the first right in front of it and the
/// second right behind it.
pub proof fn lemma_history(calls: Seq<InsertCall>, id: StatementId, s: StmtV)
    ensures
        waiting(history(calls), id) == befores(entered_before(calls, id)) + afters(entered_after(calls, id)),
        expand(waiting(history(calls), id), s) == entered_before(calls, id) + seq![s] + entered_after(calls, id),
    decreases calls.len(),
{
    let b = entered_before(calls, id);
    let a = entered_after(calls, id);
    if calls.len() == 0 {
        assert(waiting(history(calls), id) =~= Seq::<AdjacentV>::empty());
        assert(befores(b) + afters(a) =~= Seq::<AdjacentV>::empty());
    } else {
        let prev = calls.drop_last();
        lemma_history(prev, id, s);
        let b0 = entered_before(prev, id);
        let a0 = entered_after(prev, id);
        let m0 = history(prev);
        lemma_first_after_sides(b0, a0);
        match calls.last() {
            InsertCall::Before(i, x) => {
                if i == id {
                    let w = waiting(m0, id);
                    assert(w.insert(b0.len() as int, AdjacentV { stmt: x, after: false }) =~= befores(b0.push(x)) + afters(a0));
                } else {
                    assert(waiting(history(calls), id) == waiting(m0, id));
                }
            },
            InsertCall::After(i, x) => {
                if i == id {
                    assert(waiting(m0, id).push(AdjacentV { stmt: x, after: true }) =~= befores(b0) + afters(a0.push(x)));
                } else {
                    assert(waiting(history(calls), id) == waiting(m0, id));
                }
            },
            InsertCall::ManyBefore(i, xs) => {
                if i == id {
                    assert(befores(xs) + waiting(m0, id) =~= befores(xs + b0) + afters(a0));
                } else {
                    assert(waiting(history(calls), id) == waiting(m0, id));
                }
            },
            InsertCall::ManyAfter(i, xs) => {
                if i == id {
                    assert(waiting(m0, id) + afters(xs) =~= befores(b0) + afters(a0 + xs));
                } else {
                    assert(waiting(history(calls), id) == waiting(m0, id));
                }
            },
        }
    }
    let w = waiting(history(calls), id);
    lemma_first_after_sides(b, a);
    assert(adj_stmts(w.take(b.len() as int)) =~= b);
    assert(adj_stmts(w.skip(b.len() as int)) =~= a);
}

/// Whether some statement of `stmts` has the id `k`.
pub open spec fn has_id(stmts: Seq<StmtV>, k: StatementId) -> bool {
    exists|i: int| 0 <= i < stmts.len() && stmt_id_v(#[trigger] stmts[i]) == k
}

/// Each statement of `stmts` with what waits for it in `m` around it.
pub open spec fn around(stmts: Seq<StmtV>, m: Map<StatementId, Seq<AdjacentV>>) -> Seq<StmtV>
    decreases stmts.len(),
{
    if stmts.len() == 0 {
        Seq::empty()
    } else {
        around(stmts.drop_last(), m) + expand(waiting(m, stmt_id_v(stmts.last())), stmts.last())
    }
}

/// Each statement of `stmts` with the statements `calls` entered before
/// and after it around it.
pub open spec fn surrounded(stmts: Seq<StmtV>, calls: Seq<InsertCall>) -> Seq<StmtV>
    decreases stmts.len(),
{
    if stmts.len() == 0 {
        Seq::empty()
    } else {
        let s = stmts.last();
        surrounded(stmts.drop_last(), calls) + (entered_before(calls, stmt_id_v(s)) + seq![s] + entered_after(
            calls,
            stmt_id_v(s),
        ))
    }
}

proof fn lemma_inject_distinct(stmts: Seq<StmtV>, m: Map<StatementId, Seq<AdjacentV>>)
    requires
        forall|i: int, j: int| 0 <= i < j < stmts.len() ==> stmt_id_v(#[trigger] stmts[i]) != stmt_id_v(#[trigger] stmts[j]),
    ensures
        inject(stmts, m).0 == around(stmts, m),
        forall|k: StatementId| #[trigger] inject(stmts, m).1.contains_key(k) == (m.contains_key(k) && !has_id(stmts, k)),
        forall|k: StatementId| #[trigger] inject(stmts, m).1.contains_key(k) ==> inject(stmts, m).1[k] == m[k],
    decreases stmts.len(),
{
    if stmts.len() > 0 {
        let rest = stmts.drop_last();
        let s = stmts.last();
        let id = stmt_id_v(s);
        assert forall|i: int, j: int| 0 <= i < j < rest.len() implies stmt_id_v(#[trigger] rest[i]) != stmt_id_v(#[trigger] rest[j]) by {
            assert(rest[i] == stmts[i] && rest[j] == stmts[j]);
        }
        lemma_inject_distinct(rest, m);
        let prev = inject(rest, m);
        assert(!has_id(rest, id)) by {
            if has_id(rest, id) {
                let i = choose|i: int| 0 <= i < rest.len() && stmt_id_v(#[trigger] rest[i]) == id;
                assert(stmts[i] == rest[i]);
                assert(stmts[stmts.len() - 1] == s);
            }
        }
        assert(prev.1.contains_key(id) == m.contains_key(id));
        if !m.contains_key(id) {
            let e = Seq::<AdjacentV>::empty();
            assert(waiting(m, id) =~= e);
            assert(first_after(e) == 0);
            assert(adj_stmts(e.take(0)) =~= Seq::<StmtV>::empty());
            assert(adj_stmts(e.skip(0)) =~= Seq::<StmtV>::empty());
            assert(expand(e, s) =~= seq![s]);
            assert(prev.0.push(s) =~= prev.0 + seq![s]);
        }
        let cur = inject(stmts, m);
        assert forall|k: StatementId| #[trigger] cur.1.contains_key(k) == (m.contains_key(k) && !has_id(stmts, k)) by {
            if has_id(stmts, k) && !has_id(rest, k) {
                let i = choose|i: int| 0 <= i < stmts.len() && stmt_id_v(#[trigger] stmts[i]) == k;
                if i < rest.len() {
                    assert(rest[i] == stmts[i]);
                }
            }
            if has_id(rest, k) {
                let i = choose|i: int| 0 <= i < rest.len() && stmt_id_v(#[trigger] rest[i]) == k;
                assert(stmts[i] == rest[i]);
            }
            if k == id {
                assert(stmts[stmts.len() - 1] == s);
            }
        }
    }
}

proof fn lemma_around_history(stmts: Seq<StmtV>, calls: Seq<InsertCall>)
    ensures
        around(stmts, history(calls)) == surrounded(stmts, calls),
    decreases stmts.len(),
{
    if stmts.len() > 0 {
        lemma_around_history(stmts.drop_last(), calls);
        lemma_history(calls, stmt_id_v(stmts.last()), stmts.last());
    }
}

/// The law of the injector over a history of calls: after any calls that
/// enter statements (no moves) on a fresh store, inserting into statements
/// whose ids differ puts, around each statement, what was entered before
/// it in front and what was entered after it behind; the entries of those
/// ids are gone and every other entry still waits, unchanged.
pub proof fn lemma_insert_after_history(stmts: Seq<StmtV>, calls: Seq<InsertCall>)
    requires
        forall|i: int, j: int| 0 <= i < j < stmts.len() ==> stmt_id_v(#[trigger] stmts[i]) != stmt_id_v(#[trigger] stmts[j]),
    ensures
        inject(stmts, history(calls)).0 == surrounded(stmts, calls),
        forall|k: StatementId| #[trigger] inject(stmts, history(calls)).1.contains_key(k)
            == (history(calls).contains_key(k) && !has_id(stmts, k)),
        forall|k: StatementId| #[trigger] inject(stmts, history(calls)).1.contains_key(k)
            ==> inject(stmts, history(calls)).1[k] == history(calls)[k],
{
    lemma_inject_distinct(stmts, history(calls));
    lemma_around_history(stmts, calls);
}

/// A target that occurs once, among statements nothing waits for, takes
/// its waiting statements around it, and its entry is removed.
pub proof fn lemma_inject_single_target(
    pre: Seq<StmtV>,
    t: StmtV,
    post: Seq<StmtV>,
    m: Map<StatementId, Seq<AdjacentV>>,
)
    requires
        m.contains_key(stmt_id_v(t)),
        forall|i: int| 0 <= i < pre.len() ==> !m.contains_key(stmt_id_v(#[trigger] pre[i])),
        forall|i: int| 0 <= i < post.len() ==> !m.contains_key(stmt_id_v(#[trigger] post[i])),
    ensures
        inject(pre + seq![t] + post, m) == (
            pre + expand(m[stmt_id_v(t)], t) + post,
            m.remove(stmt_id_v(t)),
        ),
{
    let id = stmt_id_v(t);
    lemma_inject_untouched(pre, m);
    lemma_inject_append(pre, seq![t], m);
    assert(seq![t].drop_last() =~= Seq::<StmtV>::empty());
    assert(seq![t].last() == t);
    reveal_with_fuel(inject, 2);
    assert(inject(seq![t], m) == (Seq::<StmtV>::empty() + expand(m[id], t), m.remove(id)));
    assert(Seq::<StmtV>::empty() + expand(m[id], t) =~= expand(m[id], t));
    let m1 = m.remove(id);
    assert forall|i: int| 0 <= i < post.len() implies !m1.contains_key(stmt_id_v(#[trigger] post[i])) by {}
    lemma_inject_untouched(post, m1);
    lemma_inject_append(pre + seq![t], post, m);
}

/// What the injector is for: in a fresh store, a statement entered before
/// a target and one entered after it end up immediately before and after
/// that target, when it occurs once among statements nothing waits for;
/// afterwards nothing waits any more.
pub proof fn lemma_inserted_around_target(
    pre: Seq<StmtV>,
    t: StmtV,
    post: Seq<StmtV>,
    before: StmtV,
    after: StmtV,
)
    requires
        forall|i: int| 0 <= i < pre.len() ==> stmt_id_v(#[trigger] pre[i]) != stmt_id_v(t),
        forall|i: int| 0 <= i < post.len() ==> stmt_id_v(#[trigger] post[i]) != stmt_id_v(t),
    ensures
        ({
            let id = stmt_id_v(t);
            let m0 = Map::<StatementId, Seq<AdjacentV>>::empty();
            let w0 = waiting(m0, id);
            let m1 = m0.insert(id, w0.insert(first_after(w0), AdjacentV { stmt: before, after: false }));
            let m2 = m1.insert(id, waiting(m1, id).push(AdjacentV { stmt: after, after: true }));
            inject(pre + seq![t] + post, m2) == (pre + seq![before, t, after] + post, m0)
        }),
{
    let id = stmt_id_v(t);
    let m0 = Map::<StatementId, Seq<AdjacentV>>::empty();
    let w0 = waiting(m0, id);
    assert(w0 =~= Seq::<AdjacentV>::empty());
    let b = AdjacentV { stmt: before, after: false };
    let a = AdjacentV { stmt: after, after: true };
    let m1 = m0.insert(id, w0.insert(first_after(w0), b));
    assert(w0.insert(0, b) =~= seq![b]);
    let m2 = m1.insert(id, waiting(m1, id).push(a));
    assert(waiting(m1, id).push(a) =~= seq![b, a]);
    assert(m2.dom() =~= set![id]);
    lemma_inject_single_target(pre, t, post, m2);
    let w = seq![b, a];
    assert(w.drop_first() =~= seq![a]);
    assert(first_after(w.drop_first()) == 0);
    assert(first_after(w) == 1);
    assert(adj_stmts(w.take(1)) =~= seq![before]);
    assert(adj_stmts(w.skip(1)) =~= seq![after]);
    assert(expand(w, t) =~= seq![before, t, after]);
    assert(pre + expand(w, t) + post =~= pre + seq![before, t, after] + post);
    assert(m2.remove(id) =~= m0);
}

impl Default for StatementInjectorStore {
    /// As `new`.
    fn default() -> (s: Self)
        ensures
            s.wf(),
            s.map_v() == Map::<StatementId, Seq<AdjacentV>>::empty(),
    {
        Self::new()
    }
}

} // verus!
