//! Text helpers: reading the characters of a string, building strings, and
//! decimal numerals.

use vstd::prelude::*;
use vstd::std_specs::iter::IteratorSpec;

verus! {

broadcast use vstd::string::group_string_axioms;

/// The views of a sequence of strings.
pub open spec fn strs_v(s: Seq<String>) -> Seq<Seq<char>> {
    s.map_values(|x: String| x@)
}

/// The character of a decimal digit.
pub open spec fn digit_char(d: nat) -> char {
    if d == 0 { '0' }
    else if d == 1 { '1' }
    else if d == 2 { '2' }
    else if d == 3 { '3' }
    else if d == 4 { '4' }
    else if d == 5 { '5' }
    else if d == 6 { '6' }
    else if d == 7 { '7' }
    else if d == 8 { '8' }
    else { '9' }
}

/// The decimal numeral of `n`, without leading zeros.
pub open spec fn decimal(n: nat) -> Seq<char>
    decreases n,
{
    if n < 10 {
        seq![digit_char(n)]
    } else {
        decimal(n / 10).push(digit_char(n % 10))
    }
}

/// Distinct numbers have distinct numerals.
pub proof fn lemma_decimal_injective(a: nat, b: nat)
    requires
        decimal(a) == decimal(b),
    ensures
        a == b,
    decreases a,
{
    lemma_decimal_len(a);
    lemma_decimal_len(b);
    if a >= 10 && b >= 10 {
        assert(decimal(a) == decimal(a / 10).push(digit_char(a % 10)));
        assert(decimal(b) == decimal(b / 10).push(digit_char(b % 10)));
        assert(decimal(a).drop_last() == decimal(b).drop_last());
        assert(decimal(a).drop_last() =~= decimal(a / 10));
        assert(decimal(b).drop_last() =~= decimal(b / 10));
        lemma_decimal_injective(a / 10, b / 10);
        assert(decimal(a).last() == digit_char(a % 10));
        assert(decimal(b).last() == digit_char(b % 10));
        lemma_digit_char_injective(a % 10, b % 10);
    } else if a < 10 && b < 10 {
        assert(decimal(a) == seq![digit_char(a)]);
        assert(decimal(b) == seq![digit_char(b)]);
        assert(decimal(a)[0] == digit_char(a));
        assert(decimal(b)[0] == digit_char(b));
        lemma_digit_char_injective(a, b);
    } else if a < 10 {
        lemma_decimal_len(b / 10);
    } else {
        lemma_decimal_len(a / 10);
    }
}

proof fn lemma_digit_char_injective(a: nat, b: nat)
    requires
        a < 10,
        b < 10,
        digit_char(a) == digit_char(b),
    ensures
        a == b,
{
}

/// A numeral has at least one digit, and only one below ten.
pub proof fn lemma_decimal_len(n: nat)
    ensures
        decimal(n).len() >= 1,
        (decimal(n).len() == 1) == (n < 10),
    decreases n,
{
    if n >= 10 {
        lemma_decimal_len(n / 10);
    }
}

/// The numeral of a positive number starts with a digit from 1 to 9.
pub proof fn lemma_decimal_leading(n: nat)
    requires
        n >= 1,
    ensures
        decimal(n).len() >= 1,
        '1' <= decimal(n)[0] && decimal(n)[0] <= '9',
    decreases n,
{
    lemma_decimal_len(n);
    if n >= 10 {
        lemma_decimal_leading(n / 10);
        lemma_decimal_len(n / 10);
        assert(decimal(n)[0] == decimal(n / 10)[0]);
    }
}

/// `String::push`: appends one character.
#[verifier::external_body]
pub(crate) fn push_char(s: &mut String, c: char)
    ensures
        final(s)@ == old(s)@.push(c),
{
    s.push(c);
}

/// The characters of `s`, in order.
pub fn chars_of(s: &str) -> (v: Vec<char>)
    ensures
        v@ == s@,
{
    let mut v: Vec<char> = Vec::new();
    let mut it = s.chars();
    loop
        invariant
            v@ + it.remaining() == s@,
            it.decrease() is Some,
        ensures
            v@ == s@,
        decreases it.decrease()->0,
    {
        let ghost before = it.remaining();
        match it.next() {
            Some(c) => {
                v.push(c);
                assert(v@ + it.remaining() =~= s@) by {
                    assert(before =~= seq![c] + it.remaining());
                }
            },
            None => {
                assert(v@ =~= s@);
                break;
            },
        }
    }
    v
}

/// Appends the characters of `v`.
pub fn push_chars(s: &mut String, v: &Vec<char>)
    ensures
        final(s)@ == old(s)@ + v@,
{
    let mut i: usize = 0;
    while i < v.len()
        invariant
            0 <= i <= v.len(),
            s@ == old(s)@ + v@.take(i as int),
        decreases v.len() - i,
    {
        push_char(s, v[i]);
        i += 1;
        assert(s@ =~= old(s)@ + v@.take(i as int));
    }
    assert(v@.take(v.len() as int) =~= v@);
}

/// Appends `t`.
pub fn push_str(s: &mut String, t: &str)
    ensures
        final(s)@ == old(s)@ + t@,
{
    let v = chars_of(t);
    push_chars(s, &v);
}

/// A string equal to `t`.
pub fn string_of(t: &str) -> (s: String)
    ensures
        s@ == t@,
{
    let mut s = String::new();
    push_str(&mut s, t);
    assert(s@ =~= t@);
    s
}

fn digit(d: u64) -> (c: char)
    requires
        d < 10,
    ensures
        c == digit_char(d as nat),
{
    if d == 0 { '0' }
    else if d == 1 { '1' }
    else if d == 2 { '2' }
    else if d == 3 { '3' }
    else if d == 4 { '4' }
    else if d == 5 { '5' }
    else if d == 6 { '6' }
    else if d == 7 { '7' }
    else if d == 8 { '8' }
    else { '9' }
}

/// Appends the decimal numeral of `n`.
pub fn push_decimal(s: &mut String, n: u64)
    ensures
        final(s)@ == old(s)@ + decimal(n as nat),
    decreases n,
{
    if n >= 10 {
        push_decimal(s, n / 10);
    }
    push_char(s, digit(n % 10));
    proof {
        if n >= 10 {
            assert(decimal(n as nat) == decimal((n / 10) as nat).push(digit_char((n % 10) as nat)));
        }
    }
    assert(s@ =~= old(s)@ + decimal(n as nat));
}

/// How a span is printed: `lo..hi`.
pub open spec fn span_text(lo: u32, hi: u32) -> Seq<char> {
    decimal(lo as nat) + ".."@ + decimal(hi as nat)
}

/// Appends `lo..hi`.
pub fn push_span(s: &mut String, lo: u32, hi: u32)
    ensures
        final(s)@ == old(s)@ + span_text(lo, hi),
{
    push_decimal(s, lo as u64);
    push_str(s, "..");
    push_decimal(s, hi as u64);
    assert(s@ =~= old(s)@ + span_text(lo, hi));
}

/// The name generated from `base` by the `n`-th request of a counter:
/// `_base`, then `_base2`, `_base3`, ...
pub open spec fn uid_v(base: Seq<char>, n: nat) -> Seq<char> {
    seq!['_'] + base + if n > 1 { decimal(n) } else { Seq::empty() }
}

/// Generated names are unique: two different requests (numbered from 1)
/// of a counter-driven generator give different names for one base.
pub proof fn lemma_uid_distinct(base: Seq<char>, m: nat, n: nat)
    requires
        1 <= m,
        1 <= n,
        m != n,
    ensures
        uid_v(base, m) != uid_v(base, n),
{
    let p = seq!['_'] + base;
    lemma_decimal_len(m);
    lemma_decimal_len(n);
    if m > 1 && n > 1 {
        if uid_v(base, m) == uid_v(base, n) {
            assert(uid_v(base, m).skip(p.len() as int) =~= decimal(m));
            assert(uid_v(base, n).skip(p.len() as int) =~= decimal(n));
            lemma_decimal_injective(m, n);
        }
    } else if m > 1 {
        assert(uid_v(base, m).len() > uid_v(base, n).len());
    } else {
        assert(uid_v(base, n).len() > uid_v(base, m).len());
    }
}

/// The name generated from `base` by the `n`-th request of a counter.
pub fn make_uid(base: &str, n: usize) -> (s: String)
    ensures
        s@ == uid_v(base@, n as nat),
{
    let mut s = String::new();
    push_char(&mut s, '_');
    push_str(&mut s, base);
    if n > 1 {
        push_decimal(&mut s, n as u64);
    }
    assert(s@ =~= uid_v(base@, n as nat));
    s
}

/// Whether two strings are the same.
pub fn str_eq(a: &str, b: &str) -> (r: bool)
    ensures
        r == (a@ == b@),
{
    let x = chars_of(a);
    let y = chars_of(b);
    if x.len() != y.len() {
        return false;
    }
    let mut i: usize = 0;
    while i < x.len()
        invariant
            x@ == a@,
            y@ == b@,
            x.len() == y.len(),
            i <= x.len(),
            forall|k: int| 0 <= k < i ==> x@[k] == y@[k],
        decreases x.len() - i,
    {
        if x[i] != y[i] {
            return false;
        }
        i += 1;
    }
    assert(a@ =~= b@);
    true
}

/// What `String::from_utf8_lossy` makes of `bytes`: the characters they
/// encode in UTF-8, with U+FFFD in place of each invalid sequence.
pub uninterp spec fn utf8_lossy(bytes: Seq<u8>) -> Seq<char>;

/// `String::from_utf8_lossy`: the text of `bytes`, as `utf8_lossy` names
/// it; a function of the bytes alone.
#[verifier::external_body]
pub(crate) fn string_from_utf8_lossy(bytes: &Vec<u8>) -> (s: String)
    ensures
        s@ == utf8_lossy(bytes@),
{
    String::from_utf8_lossy(bytes.as_slice()).into_owned()
}

} // verus!
