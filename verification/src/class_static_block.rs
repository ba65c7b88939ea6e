//! ES2022 class static blocks become static private fields.
//!
//! `static { foo }` turns into `static #_ = foo`, and later blocks of the
//! same class into `#_2`, `#_3`, ...; a name that the class already uses for
//! a member is never taken. A block of more than one statement becomes an
//! arrow function called at once: `static #_ = (() => { foo; bar; })()`.

use vstd::prelude::*;

use crate::ast::{ArrowBody, ArrowExpr, Class, ClassMember, Expr, Key, PrivateProp, PropName, Span, Stmt};
use crate::ast_build::call_v;
use crate::ast_view::{class_member_v, expr_v, lemma_members_v, lemma_stmts_v, members_v, stmts_v, ArrowBodyV, ArrowExprV, ClassMemberV, ExprV, KeyV, PrivatePropV, PropNameV, StmtV};
use crate::text::{strs_v, decimal, lemma_decimal_injective, lemma_decimal_leading, lemma_decimal_len, push_char, push_str};

verus! {

/// `itoa::Buffer::format`: the decimal representation of `n`.
#[verifier::external_body]
fn format_u32(n: u32) -> (s: String)
    ensures
        s@ == decimal(n as nat),
{
    let mut buffer = itoa::Buffer::new();
    buffer.format(n).to_string()
}

/// Whether `c` is a digit from `1` to `9`.
pub open spec fn is_nonzero_digit(c: char) -> bool {
    '1' <= c && c <= '9'
}

/// The names of the members of one class that have the shape of a generated
/// key: whether `_` is among them, and the suffixes after `_` of those of
/// the form `_[1-9]...`.
#[derive(Debug)]
pub struct Keys {
    pub underscore: bool,
    pub numbered: Vec<String>,
}

impl Default for Keys {
    fn default() -> (k: Self)
        ensures
            k.wf(),
            !k.underscore,
            k.numbered_v() == Seq::<Seq<char>>::empty(),
    {
        Keys::new()
    }
}

impl Keys {
    /// The suffixes held, as character sequences.
    pub open spec fn numbered_v(&self) -> Seq<Seq<char>> {
        strs_v(self.numbered@)
    }

    /// Every suffix is non-empty.
    pub open spec fn wf(&self) -> bool {
        forall|j: int| 0 <= j < self.numbered@.len() ==> #[trigger] self.numbered_v()[j].len() > 0
    }

    /// Whether `key` is known to be taken.
    pub open spec fn holds(&self, key: Seq<char>) -> bool {
        ||| self.underscore && key == seq!['_']
        ||| key.len() > 0 && key[0] == '_' && self.numbered_v().contains(key.drop_first())
    }

    /// A store with no key.
    pub fn new() -> (k: Keys)
        ensures
            k.wf(),
            !k.underscore,
            k.numbered_v() == Seq::<Seq<char>>::empty(),
    {
        let k = Keys { underscore: false, numbered: Vec::new() };
        assert(k.numbered_v() =~= Seq::<Seq<char>>::empty());
        k
    }

    /// Records `key` when it is `_` or starts with `_` and a digit from 1
    /// to 9; other keys cannot clash with a generated one and are ignored.
    pub fn reserve(&mut self, key: &str)
        requires
            old(self).wf(),
        ensures
            final(self).wf(),
            ({
                let k = key@;
                if k.len() == 1 && k[0] == '_' {
                    &&& final(self).underscore
                    &&& final(self).numbered_v() == old(self).numbered_v()
                } else if k.len() >= 2 && k[0] == '_' && is_nonzero_digit(k[1]) {
                    &&& final(self).underscore == old(self).underscore
                    &&& final(self).numbered_v() == old(self).numbered_v().push(k.drop_first())
                } else {
                    &&& final(self).underscore == old(self).underscore
                    &&& final(self).numbered_v() == old(self).numbered_v()
                }
            }),
    {
        let chars = crate::text::chars_of(key);
        if chars.len() == 0 || chars[0] != '_' {
            return;
        }
        if chars.len() == 1 {
            let ghost ns = self.numbered_v();
            self.underscore = true;
            assert(self.numbered_v() == ns);
            return;
        }
        let c = chars[1];
        if '1' <= c && c <= '9' {
            let mut rest = String::new();
            let mut i: usize = 1;
            while i < chars.len()
                invariant
                    1 <= i <= chars.len(),
                    rest@ == chars@.subrange(1, i as int),
                decreases chars.len() - i,
            {
                push_char(&mut rest, chars[i]);
                i += 1;
                assert(rest@ =~= chars@.subrange(1, i as int));
            }
            assert(rest@ =~= key@.drop_first());
            let ghost before = self.numbered@;
            self.numbered.push(rest);
            assert(self.numbered_v() =~= strs_v(before).push(key@.drop_first()));
            assert forall|j: int| 0 <= j < self.numbered@.len() implies #[trigger] self.numbered_v()[j].len() > 0 by {
                if j < before.len() {
                    assert(before == old(self).numbered@);
                    assert(strs_v(before)[j] == old(self).numbered_v()[j]);
                    assert(self.numbered_v()[j] == strs_v(before)[j]);
                } else {
                    assert(key@.len() >= 2);
                    assert(self.numbered_v()[j] == key@.drop_first());
                }
            }
        }
    }

    /// Whether `s` is among the suffixes.
    fn contains_numbered(&self, s: &String) -> (b: bool)
        ensures
            b == self.numbered_v().contains(s@),
    {
        let mut i: usize = 0;
        while i < self.numbered.len()
            invariant
                0 <= i <= self.numbered.len(),
                forall|j: int| 0 <= j < i ==> self.numbered_v()[j] != s@,
            decreases self.numbered.len() - i,
        {
            if self.numbered[i] == *s {
                assert(self.numbered_v()[i as int] == s@);
                return true;
            }
            i += 1;
        }
        false
    }

    /// A key that is not taken, which is then taken: `_` if it is free,
    /// else `_` followed by the least number from 2 up whose numeral is not
    /// among the suffixes.
    pub fn get_unique(&mut self) -> (key: String)
        requires
            old(self).wf(),
            old(self).numbered.len() + 3 <= u32::MAX,
        ensures
            final(self).wf(),
            !old(self).holds(key@),
            final(self).holds(key@),
            forall|k: Seq<char>| old(self).holds(k) ==> final(self).holds(k),
            final(self).underscore,
            !old(self).underscore ==> key@ == seq!['_'] && final(self).numbered_v() == old(
                self,
            ).numbered_v(),
            old(self).underscore ==> exists|n: nat|
                {
                    &&& n >= 2
                    &&& key@ == seq!['_'] + decimal(n)
                    &&& !old(self).numbered_v().contains(decimal(n))
                    &&& forall|m: nat|
                        2 <= m < n ==> old(self).numbered_v().contains(#[trigger] decimal(m))
                    &&& final(self).numbered_v() == old(self).numbered_v().push(decimal(n))
                },
    {
        if !self.underscore {
            self.underscore = true;
            let mut key = String::new();
            push_char(&mut key, '_');
            proof {
                assert(key@ =~= seq!['_']);
                assert forall|k: Seq<char>| old(self).holds(k) implies self.holds(k) by {
                    assert(self.numbered_v() == old(self).numbered_v());
                }
                if old(self).numbered_v().contains(key@.drop_first()) {
                    assert(key@.drop_first().len() == 0);
                    let j = choose|j: int| 0 <= j < old(self).numbered_v().len() && old(self).numbered_v()[j] == key@.drop_first();
                    assert(old(self).numbered_v()[j].len() > 0);
                }
            }
            key
        } else {
            self.get_unique_slow()
        }
    }

    fn get_unique_slow(&mut self) -> (key: String)
        requires
            old(self).wf(),
            old(self).underscore,
            old(self).numbered.len() + 3 <= u32::MAX,
        ensures
            final(self).wf(),
            !old(self).holds(key@),
            final(self).holds(key@),
            forall|k: Seq<char>| old(self).holds(k) ==> final(self).holds(k),
            final(self).underscore,
            exists|n: nat|
                {
                    &&& n >= 2
                    &&& key@ == seq!['_'] + decimal(n)
                    &&& !old(self).numbered_v().contains(decimal(n))
                    &&& forall|m: nat|
                        2 <= m < n ==> old(self).numbered_v().contains(#[trigger] decimal(m))
                    &&& final(self).numbered_v() == old(self).numbered_v().push(decimal(n))
                },
    {
        let ghost ns = self.numbered_v();
        let mut i: u32 = 2;
        let mut num = format_u32(i);
        proof {
            lemma_numerals_fit(ns, 2);
        }
        while self.contains_numbered(&num)
            invariant
                2 <= i,
                i <= ns.len() + 2,
                self.numbered_v() == ns,
                self.numbered.len() + 3 <= u32::MAX,
                num@ == decimal(i as nat),
                forall|m: nat| 2 <= m < i ==> ns.contains(#[trigger] decimal(m)),
            decreases ns.len() + 2 - i,
        {
            proof {
                assert(forall|m: nat| 2 <= m < i + 1 ==> ns.contains(#[trigger] decimal(m)));
                lemma_numerals_fit(ns, i as int + 1);
            }
            i = i + 1;
            num = format_u32(i);
        }
        let mut key = String::new();
        push_char(&mut key, '_');
        push_str(&mut key, num.as_str());
        let ghost before = self.numbered@;
        self.numbered.push(num);
        proof {
            let n = i as nat;
            assert(key@ =~= seq!['_'] + decimal(n));
            assert(self.numbered_v() =~= strs_v(before).push(decimal(n)));
            assert(key@.drop_first() =~= decimal(n));
            lemma_decimal_len(n);
            assert(self.numbered_v()[ns.len() as int] == decimal(n));
            assert forall|j: int| 0 <= j < self.numbered@.len() implies #[trigger] self.numbered_v()[j].len() > 0 by {
                if j < before.len() {
                    assert(self.numbered_v()[j] == strs_v(before)[j]);
                }
            }
            assert forall|k: Seq<char>| old(self).holds(k) implies self.holds(k) by {
                if k.len() > 0 && k[0] == '_' && ns.contains(k.drop_first()) {
                    let j = choose|j: int| 0 <= j < ns.len() && ns[j] == k.drop_first();
                    assert(self.numbered_v()[j] == k.drop_first());
                }
            }
        }
        key
    }
}

/// When the numerals of `2..hi` are all among `ns`, there are no more of
/// them than elements of `ns`.
proof fn lemma_numerals_fit(ns: Seq<Seq<char>>, hi: int)
    requires
        2 <= hi,
        forall|m: nat| 2 <= m < hi ==> ns.contains(#[trigger] decimal(m)),
    ensures
        hi - 2 <= ns.len(),
{
    let x = vstd::set_lib::set_int_range(2, hi);
    let f = |j: int| decimal(j as nat);
    vstd::set_lib::lemma_int_range(2, hi);
    assert(vstd::relations::injective_on(f, x)) by {
        assert forall|a: int, b: int| x.contains(a) && x.contains(b) && #[trigger] f(a) == #[trigger] f(b)
            implies a == b by {
            lemma_decimal_injective(a as nat, b as nat);
        }
    }
    let y = x.map(f);
    vstd::set_lib::lemma_map_size(x, y, f);
    assert(y.subset_of(ns.to_set())) by {
        assert forall|s: Seq<char>| y.contains(s) implies ns.to_set().contains(s) by {
            let j = choose|j: int| x.contains(j) && f(j) == s;
            assert(ns.contains(decimal(j as nat)));
        }
    }
    ns.lemma_cardinality_of_set();
    vstd::set_lib::lemma_len_subset(y, ns.to_set());
}

// ---------------------------------------------------------------------------
// The class transform.

/// The keys taken so far: whether `_` is, and the suffixes of the numbered
/// ones.
pub type KeyState = (bool, Seq<Seq<char>>);

/// `Keys::reserve` on states.
pub open spec fn reserve_v(st: KeyState, k: Seq<char>) -> KeyState {
    if k.len() == 1 && k[0] == '_' {
        (true, st.1)
    } else if k.len() >= 2 && k[0] == '_' && is_nonzero_digit(k[1]) {
        (st.0, st.1.push(k.drop_first()))
    } else {
        st
    }
}

/// Whether `n` is the least number from 2 up whose numeral is not in `ns`.
pub open spec fn is_least_free(ns: Seq<Seq<char>>, n: nat) -> bool {
    &&& n >= 2
    &&& !ns.contains(decimal(n))
    &&& forall|m: nat| 2 <= m < n ==> ns.contains(#[trigger] decimal(m))
}

/// The least number from 2 up whose numeral is not in `ns`.
pub open spec fn least_free(ns: Seq<Seq<char>>) -> nat {
    choose|n: nat| is_least_free(ns, n)
}

/// `Keys::get_unique` on states: the key it gives and the state after.
pub open spec fn unique_v(st: KeyState) -> (Seq<char>, KeyState) {
    if !st.0 {
        (seq!['_'], (true, st.1))
    } else {
        let n = least_free(st.1);
        (seq!['_'] + decimal(n), (true, st.1.push(decimal(n))))
    }
}

/// The name a class member is known by, if it has one: the key of a
/// method, property or accessor that is an identifier or a private name.
pub open spec fn member_key(m: ClassMemberV) -> Option<Seq<char>> {
    match m {
        ClassMemberV::Method(PropNameV::Ident(k), _) => Some(k),
        ClassMemberV::PrivateMethod(k, _) => Some(k),
        ClassMemberV::ClassProp(PropNameV::Ident(k), _) => Some(k),
        ClassMemberV::PrivateProp(p) => Some(p.key),
        ClassMemberV::AutoAccessor(KeyV::Private(k), _) => Some(k),
        ClassMemberV::AutoAccessor(KeyV::Public(PropNameV::Ident(k)), _) => Some(k),
        _ => None,
    }
}

/// The state after reserving the names of `ms`, in order.
pub open spec fn reserved_state(ms: Seq<ClassMemberV>) -> KeyState
    decreases ms.len(),
{
    if ms.len() == 0 {
        (false, Seq::empty())
    } else {
        let st = reserved_state(ms.drop_last());
        match member_key(ms.last()) {
            Some(k) => reserve_v(st, k),
            None => st,
        }
    }
}

/// `(() => { stmts })()`, the arrow function having the span `span`.
pub open spec fn stmts_iife_v(stmts: Seq<StmtV>, span: Span) -> ExprV {
    call_v(
        ExprV::Arrow(
            ArrowExprV {
                span,
                params: Seq::empty(),
                body: ArrowBodyV::Block(stmts),
                is_async: false,
                is_generator: false,
            },
        ),
        Seq::empty(),
    )
}

/// The value of the field a static block becomes: the expression of a
/// block that is one expression statement, else the block called as an
/// arrow function.
pub open spec fn block_expr(stmts: Seq<StmtV>, span: Span) -> ExprV {
    if stmts.len() == 1 && stmts[0] is Expr {
        *stmts[0]->Expr_1
    } else {
        stmts_iife_v(stmts, span)
    }
}

/// `static #key = value`, with the span of the block it replaces.
pub open spec fn static_field(span: Span, key: Seq<char>, value: ExprV) -> ClassMemberV {
    ClassMemberV::PrivateProp(PrivatePropV { span, key, value: Some(Box::new(value)), is_static: true, rest: None })
}

/// The key state after converting the static blocks of `ms` from `st`.
pub open spec fn keys_after(ms: Seq<ClassMemberV>, st: KeyState) -> KeyState
    decreases ms.len(),
{
    if ms.len() == 0 {
        st
    } else {
        let s0 = keys_after(ms.drop_last(), st);
        if ms.last() is StaticBlock {
            unique_v(s0).1
        } else {
            s0
        }
    }
}

/// `ms` with each static block made a static private field, the keys taken
/// in order from `st`.
pub open spec fn converted(ms: Seq<ClassMemberV>, st: KeyState) -> Seq<ClassMemberV>
    decreases ms.len(),
{
    if ms.len() == 0 {
        Seq::empty()
    } else {
        let m = ms.last();
        converted(ms.drop_last(), st).push(
            match m {
                ClassMemberV::StaticBlock(sp, b) => static_field(
                    sp,
                    unique_v(keys_after(ms.drop_last(), st)).0,
                    block_expr(b, sp),
                ),
                _ => m,
            },
        )
    }
}

pub open spec fn has_static_block(ms: Seq<ClassMemberV>) -> bool {
    exists|k: int| 0 <= k < ms.len() && #[trigger] ms[k] is StaticBlock
}

/// The members of a class after the transform: when it has a static block,
/// each static block made a field, the keys taken after reserving the names
/// of all members; else the members as they are.
pub open spec fn class_converted(ms: Seq<ClassMemberV>) -> Seq<ClassMemberV> {
    if has_static_block(ms) {
        converted(ms, reserved_state(ms))
    } else {
        ms
    }
}

/// The least free number is unique.
proof fn lemma_least_free(ns: Seq<Seq<char>>, n: nat)
    requires
        is_least_free(ns, n),
    ensures
        least_free(ns) == n,
{
    let m = least_free(ns);
    assert(is_least_free(ns, m));
    if m < n {
        assert(ns.contains(decimal(m)));
    } else if n < m {
        assert(ns.contains(decimal(n)));
    }
}

impl Keys {
    /// The state the store stands for.
    pub open spec fn state(&self) -> KeyState {
        (self.underscore, self.numbered_v())
    }

    /// `get_unique`, stated over states.
    fn take_unique(&mut self) -> (key: String)
        requires
            old(self).wf(),
            old(self).numbered.len() + 3 <= u32::MAX,
        ensures
            final(self).wf(),
            final(self).numbered.len() <= old(self).numbered.len() + 1,
            (key@, final(self).state()) == unique_v(old(self).state()),
    {
        let ghost st = self.state();
        let key = self.get_unique();
        proof {
            if st.0 {
                let n = choose|n: nat|
                    {
                        &&& n >= 2
                        &&& key@ == seq!['_'] + decimal(n)
                        &&& !old(self).numbered_v().contains(decimal(n))
                        &&& forall|m: nat| 2 <= m < n ==> old(self).numbered_v().contains(#[trigger] decimal(m))
                        &&& self.numbered_v() == old(self).numbered_v().push(decimal(n))
                    };
                assert(is_least_free(st.1, n));
                lemma_least_free(st.1, n);
            }
            assert(self.numbered@.len() == self.numbered_v().len());
            assert(old(self).numbered@.len() == old(self).numbered_v().len());
        }
        key
    }
}

/// `(() => { stmts })()`.
pub fn wrap_statements_in_arrow_function_iife(stmts: Vec<Stmt>, span: Span) -> (e: Expr)
    ensures
        expr_v(e) == stmts_iife_v(stmts_v(stmts@), span),
{
    let ghost sv = stmts_v(stmts@);
    let arrow = ArrowExpr { span, params: Vec::new(), body: ArrowBody::Block(stmts), is_async: false, is_generator: false };
    proof {
        assert(crate::ast_view::pats_v(arrow.params@) =~= Seq::empty());
        assert(crate::ast_view::arrow_v(arrow) == ArrowExprV {
            span,
            params: Seq::empty(),
            body: ArrowBodyV::Block(sv),
            is_async: false,
            is_generator: false,
        });
    }
    let callee = Expr::Arrow(arrow);
    assert(expr_v(callee) == ExprV::Arrow(
        ArrowExprV { span, params: Seq::empty(), body: ArrowBodyV::Block(sv), is_async: false, is_generator: false },
    ));
    crate::ast_build::call0(callee)
}

/// The name a class member is known by, as `member_key` says.
fn member_key_of(m: &ClassMember) -> (k: Option<&String>)
    ensures
        match member_key(class_member_v(*m)) {
            Some(x) => k is Some && k->Some_0@ == x,
            None => k is None,
        },
{
    match m {
        ClassMember::Method(PropName::Ident(k), _) => Some(k),
        ClassMember::PrivateMethod(k, _) => Some(k),
        ClassMember::ClassProp(PropName::Ident(k), _) => Some(k),
        ClassMember::PrivateProp(p) => Some(&p.key),
        ClassMember::AutoAccessor(Key::Private(k), _) => Some(k),
        ClassMember::AutoAccessor(Key::Public(PropName::Ident(k)), _) => Some(k),
        _ => None,
    }
}

/// Static class blocks become static private fields.
pub struct ClassStaticBlock {}

impl ClassStaticBlock {
    pub fn new() -> (s: Self) {
        ClassStaticBlock {}
    }

    /// The static private field that the block `static { stmts }` becomes:
    /// its key is the next unique key of `keys`, its value the block's
    /// expression.
    fn convert_block_to_private_field(stmts: Vec<Stmt>, span: Span, keys: &mut Keys) -> (m: ClassMember)
        requires
            old(keys).wf(),
            old(keys).numbered.len() + 3 <= u32::MAX,
        ensures
            final(keys).wf(),
            final(keys).numbered.len() <= old(keys).numbered.len() + 1,
            final(keys).state() == unique_v(old(keys).state()).1,
            class_member_v(m) == static_field(span, unique_v(old(keys).state()).0, block_expr(stmts_v(stmts@), span)),
    {
        let e = Self::convert_block_to_expression(stmts, span);
        let key = keys.take_unique();
        let ghost ev = expr_v(e);
        let field = ClassMember::PrivateProp(
            PrivateProp { span, key, value: Some(Box::new(e)), is_static: true, rest: None },
        );
        assert(class_member_v(field) == static_field(span, key@, ev));
        field
    }

    /// The value of the field a static block becomes, as `block_expr` says.
    fn convert_block_to_expression(stmts: Vec<Stmt>, span: Span) -> (e: Expr)
        ensures
            expr_v(e) == block_expr(stmts_v(stmts@), span),
    {
        proof {
            lemma_stmts_v(stmts@);
        }
        let single = stmts.len() == 1 && match &stmts[0] {
            Stmt::Expr(_, _) => true,
            _ => false,
        };
        if single {
            let mut stmts = stmts;
            let ghost s0 = stmts@[0];
            let s = stmts.pop();
            match s {
                Some(Stmt::Expr(_, e)) => *e,
                _ => Expr::Invalid,
            }
        } else {
            wrap_statements_in_arrow_function_iife(stmts, span)
        }
    }
}

proof fn lemma_members_v_push(s: Seq<ClassMember>, x: ClassMember)
    ensures
        members_v(s.push(x)) == members_v(s).push(class_member_v(x)),
        members_v(Seq::<ClassMember>::empty()) == Seq::<ClassMemberV>::empty(),
{
    assert(s.push(x).subrange(0, s.len() as int) =~= s);
    assert(members_v(Seq::<ClassMember>::empty()) =~= Seq::<ClassMemberV>::empty());
}

proof fn lemma_reserve_step(mv: Seq<ClassMemberV>, i: int)
    requires
        0 <= i < mv.len(),
    ensures
        reserved_state(mv.take(i + 1)) == match member_key(mv[i]) {
            Some(k) => reserve_v(reserved_state(mv.take(i)), k),
            None => reserved_state(mv.take(i)),
        },
        has_static_block(mv.take(i + 1)) == (has_static_block(mv.take(i)) || mv[i] is StaticBlock),
{
    let t = mv.take(i + 1);
    assert(t.drop_last() =~= mv.take(i));
    assert(t.last() == mv[i]);
    if has_static_block(t) {
        let k = choose|k: int| 0 <= k < t.len() && #[trigger] t[k] is StaticBlock;
        if k < i {
            assert(mv.take(i)[k] is StaticBlock);
        }
    }
    if has_static_block(mv.take(i)) {
        let k = choose|k: int| 0 <= k < i && #[trigger] mv.take(i)[k] is StaticBlock;
        assert(t[k] is StaticBlock);
    }
    if mv[i] is StaticBlock {
        assert(t[i] is StaticBlock);
    }
}

proof fn lemma_convert_step(mv: Seq<ClassMemberV>, st: KeyState, j: int)
    requires
        0 <= j < mv.len(),
    ensures
        keys_after(mv.take(j + 1), st) == if mv[j] is StaticBlock {
            unique_v(keys_after(mv.take(j), st)).1
        } else {
            keys_after(mv.take(j), st)
        },
        converted(mv.take(j + 1), st) == converted(mv.take(j), st).push(
            match mv[j] {
                ClassMemberV::StaticBlock(sp, b) => static_field(
                    sp,
                    unique_v(keys_after(mv.take(j), st)).0,
                    block_expr(b, sp),
                ),
                _ => mv[j],
            },
        ),
{
    let t = mv.take(j + 1);
    assert(t.drop_last() =~= mv.take(j));
    assert(t.last() == mv[j]);
}

impl ClassStaticBlock {
    /// Reserves the names of the members of a class, and tells whether it
    /// has a static block.
    fn reserve_member_keys(body: &Vec<ClassMember>) -> (r: (Keys, bool))
        ensures
            r.0.wf(),
            r.0.numbered.len() <= body.len(),
            r.0.state() == reserved_state(members_v(body@)),
            r.1 == has_static_block(members_v(body@)),
    {
        let ghost mv = members_v(body@);
        proof {
            lemma_members_v(body@);
            assert(mv.take(0) =~= Seq::<ClassMemberV>::empty());
            assert(strs_v(Seq::<String>::empty()) =~= Seq::<Seq<char>>::empty());
        }
        let n = body.len();
        let mut keys = Keys::new();
        let mut found = false;
        let mut i: usize = 0;
        while i < n
            invariant
                n == body@.len(),
                mv == members_v(body@),
                mv.len() == n,
                forall|k: int| 0 <= k < n ==> #[trigger] mv[k] == class_member_v(body@[k]),
                i <= n,
                keys.wf(),
                keys.numbered.len() <= i,
                keys.state() == reserved_state(mv.take(i as int)),
                found == has_static_block(mv.take(i as int)),
            decreases n - i,
        {
            let is_block = match &body[i] {
                ClassMember::StaticBlock(_, _) => true,
                _ => false,
            };
            if is_block {
                found = true;
            }
            proof {
                lemma_reserve_step(mv, i as int);
            }
            let ghost before = keys.state();
            match member_key_of(&body[i]) {
                Some(k) => {
                    keys.reserve(k.as_str());
                    assert(keys.state() == reserve_v(before, k@));
                },
                None => {},
            }
            proof {
                assert(keys.numbered@.len() == keys.numbered_v().len());
            }
            i += 1;
        }
        proof {
            assert(mv.take(n as int) =~= mv);
        }
        (keys, found)
    }

    /// Each static block of a class becomes a static private field, as
    /// `class_converted` says: the key is `_` if no member takes it, else
    /// `_` and the least free number from 2, and the value is the block's
    /// expression or the block called as an arrow function. A class
    /// without static blocks is left as it is.
    pub fn enter_class(&mut self, class: &mut Class)
        requires
            2 * old(class).body.len() + 3 <= u32::MAX,
        ensures
            final(class).span == old(class).span,
            final(class).rest == old(class).rest,
            members_v(final(class).body@) == class_converted(members_v(old(class).body@)),
            !has_static_block(members_v(old(class).body@)) ==> *final(class) == *old(class),
    {
        let ghost mv = members_v(class.body@);
        let (keys, found) = Self::reserve_member_keys(&class.body);
        if !found {
            return;
        }
        let mut keys = keys;
        let ghost st0 = keys.state();
        let mut src: Vec<ClassMember> = Vec::new();
        std::mem::swap(&mut src, &mut class.body);
        let ghost orig = src@;
        let n = src.len();
        let mut out: Vec<ClassMember> = Vec::new();
        proof {
            lemma_members_v(orig);
            lemma_members_v_push(out@, ClassMember::Other(0));
            assert(mv.take(0) =~= Seq::<ClassMemberV>::empty());
        }
        let mut j: usize = 0;
        while j < n
            invariant
                n == src@.len(),
                n == orig.len(),
                mv == members_v(orig),
                mv.len() == n,
                2 * n + 3 <= u32::MAX,
                forall|k: int| 0 <= k < n ==> #[trigger] mv[k] == class_member_v(orig[k]),
                forall|k: int| j <= k < n ==> #[trigger] src@[k] == orig[k],
                j <= n,
                keys.wf(),
                keys.numbered.len() <= n + j,
                keys.state() == keys_after(mv.take(j as int), st0),
                members_v(out@) == converted(mv.take(j as int), st0),
            decreases n - j,
        {
            let mut m = ClassMember::Other(0);
            src.set_and_swap(j, &mut m);
            assert(class_member_v(m) == mv[j as int]);
            proof {
                lemma_convert_step(mv, st0, j as int);
            }
            match m {
                ClassMember::StaticBlock(sp, b) => {
                    let field = Self::convert_block_to_private_field(b, sp, &mut keys);
                    proof {
                        lemma_members_v_push(out@, field);
                    }
                    out.push(field);
                },
                other => {
                    proof {
                        lemma_members_v_push(out@, other);
                    }
                    out.push(other);
                },
            }
            j += 1;
        }
        proof {
            assert(mv.take(n as int) =~= mv);
        }
        class.body = out;
    }
}

// ---------------------------------------------------------------------------
// Generated keys are fresh.

/// Whether the state takes the key `k`.
pub open spec fn takes(st: KeyState, k: Seq<char>) -> bool {
    ||| st.0 && k == seq!['_']
    ||| k.len() > 0 && k[0] == '_' && st.1.contains(k.drop_first())
}

/// Whether a key has the shape of a generated one: `_`, or `_` and a digit
/// from 1 to 9 first.
pub open spec fn key_shaped(k: Seq<char>) -> bool {
    ||| k.len() == 1 && k[0] == '_'
    ||| k.len() >= 2 && k[0] == '_' && is_nonzero_digit(k[1])
}

/// Every suffix held is non-empty.
pub open spec fn state_wf(st: KeyState) -> bool {
    forall|j: int| 0 <= j < st.1.len() ==> #[trigger] st.1[j].len() > 0
}

/// The key that static block `i` of `ms` gets.
pub open spec fn block_key(ms: Seq<ClassMemberV>, i: int) -> Seq<char> {
    unique_v(keys_after(ms.take(i), reserved_state(ms))).0
}

proof fn lemma_reserve_takes(st: KeyState, k: Seq<char>)
    requires
        state_wf(st),
    ensures
        state_wf(reserve_v(st, k)),
        forall|x: Seq<char>| takes(st, x) ==> takes(reserve_v(st, k), x),
        key_shaped(k) ==> takes(reserve_v(st, k), k),
{
    let r = reserve_v(st, k);
    if k.len() == 1 && k[0] == '_' {
        assert(k =~= seq!['_']);
    }
    if k.len() >= 2 && k[0] == '_' && is_nonzero_digit(k[1]) && !(k.len() == 1) {
        assert(r.1 == st.1.push(k.drop_first()));
        assert(r.1[st.1.len() as int] == k.drop_first());
        assert(r.1.contains(k.drop_first()));
        assert forall|x: Seq<char>| takes(st, x) implies takes(r, x) by {
            if x.len() > 0 && x[0] == '_' && st.1.contains(x.drop_first()) {
                let j = choose|j: int| 0 <= j < st.1.len() && st.1[j] == x.drop_first();
                assert(r.1[j] == x.drop_first());
            }
        }
    }
}

/// Some least number from 2 up has its numeral outside `ns`.
proof fn lemma_least_free_exists(ns: Seq<Seq<char>>)
    ensures
        is_least_free(ns, least_free(ns)),
{
    let hi = ns.len() + 3;
    if forall|m: nat| 2 <= m < hi ==> ns.contains(#[trigger] decimal(m)) {
        lemma_numerals_fit(ns, hi as int);
        assert(false);
    }
    let m = choose|m: nat| 2 <= m < hi && !ns.contains(#[trigger] decimal(m));
    lemma_least_below(ns, m);
}

proof fn lemma_least_below(ns: Seq<Seq<char>>, m: nat)
    requires
        m >= 2,
        !ns.contains(decimal(m)),
    ensures
        exists|n: nat| is_least_free(ns, n),
    decreases m,
{
    if forall|k: nat| 2 <= k < m ==> ns.contains(#[trigger] decimal(k)) {
        assert(is_least_free(ns, m));
    } else {
        let k = choose|k: nat| 2 <= k < m && !ns.contains(#[trigger] decimal(k));
        lemma_least_below(ns, k);
    }
}

proof fn lemma_unique_takes(st: KeyState)
    requires
        state_wf(st),
    ensures
        state_wf(unique_v(st).1),
        !takes(st, unique_v(st).0),
        takes(unique_v(st).1, unique_v(st).0),
        key_shaped(unique_v(st).0),
        forall|x: Seq<char>| takes(st, x) ==> takes(unique_v(st).1, x),
{
    let (key, st2) = unique_v(st);
    if !st.0 {
        assert(key == seq!['_']);
        if st.1.contains(key.drop_first()) {
            let j = choose|j: int| 0 <= j < st.1.len() && st.1[j] == key.drop_first();
            assert(st.1[j].len() > 0);
        }
    } else {
        lemma_least_free_exists(st.1);
        let n = least_free(st.1);
        lemma_decimal_leading(n);
        assert(key == seq!['_'] + decimal(n));
        assert(key.drop_first() =~= decimal(n));
        assert(key[1] == decimal(n)[0]);
        assert(st2.1[st.1.len() as int] == decimal(n));
        assert forall|x: Seq<char>| takes(st, x) implies takes(st2, x) by {
            if x.len() > 0 && x[0] == '_' && st.1.contains(x.drop_first()) {
                let j = choose|j: int| 0 <= j < st.1.len() && st.1[j] == x.drop_first();
                assert(st2.1[j] == x.drop_first());
            }
        }
        assert forall|j: int| 0 <= j < st2.1.len() implies #[trigger] st2.1[j].len() > 0 by {
            if j == st.1.len() {
                lemma_decimal_len(n);
            }
        }
    }
}

/// Reserving the names of `ms` takes every name of the shape of a
/// generated key.
proof fn lemma_reserved_takes(ms: Seq<ClassMemberV>)
    ensures
        state_wf(reserved_state(ms)),
        forall|j: int| 0 <= j < ms.len() && (#[trigger] member_key(ms[j])) is Some && key_shaped(member_key(ms[j])->Some_0)
            ==> takes(reserved_state(ms), member_key(ms[j])->Some_0),
    decreases ms.len(),
{
    if ms.len() > 0 {
        let init = ms.drop_last();
        lemma_reserved_takes(init);
        let st = reserved_state(init);
        match member_key(ms.last()) {
            Some(k) => lemma_reserve_takes(st, k),
            None => {},
        }
        assert forall|j: int| 0 <= j < ms.len() && (#[trigger] member_key(ms[j])) is Some && key_shaped(member_key(ms[j])->Some_0)
            implies takes(reserved_state(ms), member_key(ms[j])->Some_0) by {
            if j < ms.len() - 1 {
                assert(ms[j] == init[j]);
            }
        }
    }
}

/// Converting more members takes no fewer keys.
proof fn lemma_keys_after_grows(ms: Seq<ClassMemberV>, st: KeyState, a: int, b: int)
    requires
        state_wf(st),
        0 <= a <= b <= ms.len(),
    ensures
        state_wf(keys_after(ms.take(b), st)),
        forall|x: Seq<char>| takes(keys_after(ms.take(a), st), x) ==> takes(keys_after(ms.take(b), st), x),
    decreases b,
{
    if b == 0 {
        assert(ms.take(0) =~= Seq::<ClassMemberV>::empty());
    } else {
        let t = ms.take(b);
        assert(t.drop_last() =~= ms.take(b - 1));
        if a == b {
            lemma_keys_after_grows(ms, st, b - 1, b - 1);
        } else {
            lemma_keys_after_grows(ms, st, a, b - 1);
        }
        let s0 = keys_after(ms.take(b - 1), st);
        if t.last() is StaticBlock {
            lemma_unique_takes(s0);
        }
    }
}

/// Member `i` after converting, by position.
proof fn lemma_converted_at(ms: Seq<ClassMemberV>, st: KeyState, i: int)
    requires
        0 <= i < ms.len(),
    ensures
        converted(ms, st).len() == ms.len(),
        converted(ms, st)[i] == match ms[i] {
            ClassMemberV::StaticBlock(sp, b) => static_field(sp, unique_v(keys_after(ms.take(i), st)).0, block_expr(b, sp)),
            _ => ms[i],
        },
    decreases ms.len(),
{
    lemma_converted_len(ms, st);
    if i < ms.len() - 1 {
        let init = ms.drop_last();
        lemma_converted_at(init, st, i);
        assert(init.take(i) =~= ms.take(i));
        assert(init[i] == ms[i]);
    } else {
        assert(ms.drop_last() =~= ms.take(i));
    }
}

proof fn lemma_converted_len(ms: Seq<ClassMemberV>, st: KeyState)
    ensures
        converted(ms, st).len() == ms.len(),
    decreases ms.len(),
{
    if ms.len() > 0 {
        lemma_converted_len(ms.drop_last(), st);
    }
}

/// The fields that static blocks become get keys that no member of the
/// class is named by, and no two of them the same key: block `i` becomes
/// `static #k = ..` with `k` the key `block_key(ms, i)`.
pub proof fn lemma_static_block_keys_fresh(ms: Seq<ClassMemberV>)
    requires
        has_static_block(ms),
    ensures
        class_converted(ms).len() == ms.len(),
        forall|i: int| 0 <= i < ms.len() && #[trigger] ms[i] is StaticBlock ==> class_converted(ms)[i] == static_field(
            ms[i]->StaticBlock_0,
            block_key(ms, i),
            block_expr(ms[i]->StaticBlock_1, ms[i]->StaticBlock_0),
        ),
        forall|i: int, j: int|
            0 <= i < ms.len() && 0 <= j < ms.len() && #[trigger] ms[i] is StaticBlock && (#[trigger] member_key(ms[j])) is Some
                ==> block_key(ms, i) != member_key(ms[j])->Some_0,
        forall|i: int, j: int|
            0 <= i < j < ms.len() && #[trigger] ms[i] is StaticBlock && #[trigger] ms[j] is StaticBlock ==> block_key(ms, i)
                != block_key(ms, j),
{
    let st0 = reserved_state(ms);
    lemma_reserved_takes(ms);
    lemma_converted_len(ms, st0);
    assert forall|i: int| 0 <= i < ms.len() && #[trigger] ms[i] is StaticBlock implies class_converted(ms)[i] == static_field(
        ms[i]->StaticBlock_0,
        block_key(ms, i),
        block_expr(ms[i]->StaticBlock_1, ms[i]->StaticBlock_0),
    ) by {
        lemma_converted_at(ms, st0, i);
    }
    assert forall|i: int, j: int|
        0 <= i < ms.len() && 0 <= j < ms.len() && #[trigger] ms[i] is StaticBlock && (#[trigger] member_key(ms[j])) is Some
        implies block_key(ms, i) != member_key(ms[j])->Some_0 by {
        let si = keys_after(ms.take(i), st0);
        lemma_keys_after_grows(ms, st0, 0, i);
        assert(ms.take(0) =~= Seq::<ClassMemberV>::empty());
        lemma_unique_takes(si);
        let k = member_key(ms[j])->Some_0;
        if key_shaped(k) {
            assert(takes(st0, k));
        }
    }
    assert forall|i: int, j: int|
        0 <= i < j < ms.len() && #[trigger] ms[i] is StaticBlock && #[trigger] ms[j] is StaticBlock implies block_key(ms, i)
        != block_key(ms, j) by {
        let si = keys_after(ms.take(i), st0);
        let sj = keys_after(ms.take(j), st0);
        lemma_keys_after_grows(ms, st0, 0, i);
        assert(ms.take(0) =~= Seq::<ClassMemberV>::empty());
        lemma_unique_takes(si);
        let t = ms.take(i + 1);
        assert(t.drop_last() =~= ms.take(i));
        assert(keys_after(ms.take(i + 1), st0) == unique_v(si).1);
        lemma_keys_after_grows(ms, st0, i + 1, j);
        lemma_keys_after_grows(ms, st0, 0, j);
        lemma_unique_takes(sj);
    }
}

} // verus!
