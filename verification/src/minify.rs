//! Minification of the CSS held in a styled-components template literal.
//!
//! The raw text of each quasi is scanned byte by byte: strings are kept as
//! they are, comments and runs of whitespace become at most one space, spaces
//! next to `:` `{` `}` `,` `;` are dropped, and escaped newlines outside
//! strings count as whitespace. A comment may run across an interpolation:
//! then the interpolation is inside the comment, and it is dropped together
//! with the quasi before it, whose text is merged into the next one.

use vstd::prelude::*;

use crate::ast::{Expr, Span, Tpl, TplElement};
use crate::ast_view::{tpl_element_v, TplElementV};

verus! {

// ---------------------------------------------------------------------------
// Specification.

/// `u8::is_ascii_whitespace`: space, tab, line feed, form feed, carriage return.
pub open spec fn is_ascii_ws(c: u8) -> bool {
    c == 0x20 || c == 0x09 || c == 0x0A || c == 0x0C || c == 0x0D
}

/// Bytes after which a following space can always be dropped.
pub open spec fn absorbs_space(c: u8) -> bool {
    c == 0x20 || c == 0x3A || c == 0x7B || c == 0x7D || c == 0x2C || c == 0x3B
}

/// Appends a space unless the byte before makes it unnecessary; at the
/// start of the first quasi no space is kept, at the start of a later one
/// the space separates the text from the interpolation before it.
pub open spec fn ins_space(out: Seq<u8>, is_first: bool) -> Seq<u8> {
    if out.len() > 0 {
        if absorbs_space(out.last()) {
            out
        } else {
            out.push(0x20)
        }
    } else if is_first {
        out
    } else {
        out.push(0x20)
    }
}

/// First `k >= j` with `b[k..k+2] == "*/"`.
pub open spec fn find_block_end(b: Seq<u8>, j: int) -> Option<int>
    decreases b.len() - j,
{
    if j < 0 || j + 1 >= b.len() {
        None
    } else if b[j] == 0x2A && b[j + 1] == 0x2F {
        Some(j)
    } else {
        find_block_end(b, j + 1)
    }
}

/// First `k >= j` with `b[k]` a line feed or carriage return.
pub open spec fn find_newline(b: Seq<u8>, j: int) -> Option<int>
    decreases b.len() - j,
{
    if j < 0 || j >= b.len() {
        None
    } else if b[j] == 0x0A || b[j] == 0x0D {
        Some(j)
    } else {
        find_newline(b, j + 1)
    }
}

/// State of the scanner: the comment left open at the end of the scanned
/// text (`Some(true)` block, `Some(false)` line), the quote of the string
/// being read (0 outside strings), the parenthesis depth and the output.
pub struct ScanState {
    pub comment: Option<bool>,
    pub quote: u8,
    pub depth: int,
    pub out: Seq<u8>,
}

/// Scans `b` from position `i` to its end, or to a comment that the text
/// leaves open.
pub open spec fn scan(b: Seq<u8>, i: int, quote: u8, depth: int, out: Seq<u8>, first: bool) -> ScanState
    decreases b.len() - i,
{
    if i < 0 || i >= b.len() {
        ScanState { comment: None, quote, depth, out }
    } else {
        let c = b[i];
        if c == 0x22 || c == 0x27 {
            let q = if quote == 0 { c } else if c == quote { 0u8 } else { quote };
            scan(b, i + 1, q, depth, out.push(c), first)
        } else if c == 0x5C && i + 1 < b.len() && (b[i + 1] == 0x5C || b[i + 1] == 0x22 || b[i + 1] == 0x27) {
            scan(b, i + 2, quote, depth, out.push(0x5C).push(b[i + 1]), first)
        } else if c == 0x5C && i + 1 < b.len() && (b[i + 1] == 0x6E || b[i + 1] == 0x72) && quote == 0 {
            scan(b, i + 2, quote, depth, ins_space(out, first), first)
        } else if c == 0x5C || quote != 0 {
            scan(b, i + 1, quote, depth, out.push(c), first)
        } else if c == 0x28 {
            scan(b, i + 1, quote, depth + 1, out.push(c), first)
        } else if c == 0x29 {
            scan(b, i + 1, quote, depth - 1, out.push(c), first)
        } else if c == 0x2F && i + 1 < b.len() && b[i + 1] == 0x2A && i + 2 >= b.len() {
            ScanState { comment: Some(true), quote, depth, out }
        } else if c == 0x2F && i + 1 < b.len() && b[i + 1] == 0x2A && b[i + 2] != 0x21 {
            match find_block_end(b, i + 2) {
                Some(k) => {
                    proof {
                        lemma_find_block_end(b, i + 2);
                    }
                    scan(b, k + 2, quote, depth, ins_space(out, first), first)
                },
                None => ScanState { comment: Some(true), quote, depth, out },
            }
        } else if c == 0x2F && i + 1 < b.len() && b[i + 1] == 0x2F && depth == 0 && (i == 0 || b[i - 1] != 0x3A) {
            match find_newline(b, i + 2) {
                Some(k) => {
                    proof {
                        lemma_find_newline(b, i + 2);
                    }
                    scan(b, k + 1, quote, depth, ins_space(out, first), first)
                },
                None => ScanState { comment: Some(false), quote, depth, out },
            }
        } else if c == 0x2F {
            scan(b, i + 1, quote, depth, out.push(c), first)
        } else if is_ascii_ws(c) {
            scan(b, i + 1, quote, depth, ins_space(out, first), first)
        } else if c == 0x7B || c == 0x7D || c == 0x2C || c == 0x3B {
            let o = if out.len() > 0 && out.last() == 0x20 { out.drop_last() } else { out };
            scan(b, i + 1, quote, depth, o.push(c), first)
        } else {
            scan(b, i + 1, quote, depth, out.push(c), first)
        }
    }
}

/// State after some quasis: the scanner state, whether the current output
/// belongs to the first output quasi, and per quasi seen whether it is
/// dropped, its span and its final text.
pub struct QuasiState {
    pub comment: Option<bool>,
    pub quote: u8,
    pub depth: int,
    pub first: bool,
    pub out: Seq<u8>,
    pub removed: Seq<bool>,
    pub spans: Seq<Span>,
    pub raws: Seq<Seq<u8>>,
}

pub open spec fn initial_quasi_state() -> QuasiState {
    QuasiState {
        comment: None,
        quote: 0,
        depth: 0,
        first: true,
        out: Seq::empty(),
        removed: Seq::empty(),
        spans: Seq::empty(),
        raws: Seq::empty(),
    }
}

/// Where the text of a quasi that continues an open comment resumes.
pub open spec fn comment_resume(b: Seq<u8>, is_block: bool) -> Option<int> {
    if is_block {
        match find_block_end(b, 0) {
            Some(k) => Some(k + 2),
            None => None,
        }
    } else {
        match find_newline(b, 0) {
            Some(k) => Some(k + 1),
            None => None,
        }
    }
}

/// Folds the scanner over the first `n` quasis.
pub open spec fn process_quasis(q: Seq<TplElementV>, n: int) -> QuasiState
    decreases n,
{
    if n <= 0 {
        initial_quasi_state()
    } else {
        process_quasi(process_quasis(q, n - 1), q[n - 1])
    }
}

/// One quasi, given the state after the ones before it.
pub open spec fn process_quasi(st: QuasiState, qe: TplElementV) -> QuasiState {
    let qi = st.removed.len();
    let b = qe.raw;
    if qi > 0 && st.comment is Some {
        let is_block = st.comment->Some_0;
        let span = Span { lo: st.spans[qi - 1].lo, hi: qe.span.hi };
        let removed = st.removed.update(qi - 1, true).push(false);
        let spans = st.spans.push(span);
        let raws = st.raws.push(Seq::empty());
        match comment_resume(b, is_block) {
            None => QuasiState { removed, spans, raws, ..st },
            Some(start) => {
                let s = scan(b, start, st.quote, st.depth, ins_space(st.out, st.first), st.first);
                QuasiState {
                    comment: s.comment,
                    quote: s.quote,
                    depth: s.depth,
                    out: s.out,
                    removed,
                    spans,
                    raws,
                    ..st
                }
            },
        }
    } else {
        let raws0 = if qi > 0 { st.raws.update(qi - 1, st.out) } else { st.raws };
        let first = if qi > 0 { false } else { st.first };
        let s = scan(b, 0, st.quote, st.depth, if qi > 0 { Seq::empty() } else { st.out }, first);
        QuasiState {
            comment: s.comment,
            quote: s.quote,
            depth: s.depth,
            first,
            out: s.out,
            removed: st.removed.push(false),
            spans: st.spans.push(qe.span),
            raws: raws0.push(Seq::empty()),
        }
    }
}

/// Drops a trailing space.
pub open spec fn trim_trailing_space(out: Seq<u8>) -> Seq<u8> {
    if out.len() > 0 && out.last() == 0x20 { out.drop_last() } else { out }
}

/// The final text of each quasi, the last one included.
pub open spec fn final_raws(q: Seq<TplElementV>) -> Seq<Seq<u8>> {
    let st = process_quasis(q, q.len() as int);
    st.raws.update(q.len() - 1, trim_trailing_space(st.out))
}

/// Quasi `j` after minification.
pub open spec fn minified_quasi(q: Seq<TplElementV>, j: int) -> TplElementV {
    let st = process_quasis(q, q.len() as int);
    TplElementV { span: st.spans[j], tail: q[j].tail, cooked: q[j].cooked, raw: final_raws(q)[j] }
}

/// The kept elements of `s`, in order: those whose index `j` has `!dropped[j]`.
pub open spec fn keep<A>(s: Seq<A>, dropped: Seq<bool>) -> Seq<A>
    decreases s.len(),
{
    if s.len() == 0 {
        Seq::empty()
    } else {
        let rest = keep(s.drop_last(), dropped);
        if dropped[s.len() - 1] { rest } else { rest.push(s.last()) }
    }
}

/// The views of a sequence of quasis.
pub open spec fn quasis_v_of(s: Seq<TplElement>) -> Seq<TplElementV> {
    s.map_values(|q: TplElement| tpl_element_v(q))
}

/// The minified quasis, dropped ones left out.
pub open spec fn minified_quasis(q: Seq<TplElementV>) -> Seq<TplElementV> {
    keep(
        Seq::new(q.len(), |j: int| minified_quasi(q, j)),
        process_quasis(q, q.len() as int).removed,
    )
}

/// The interpolations that stay: those after a quasi that is not dropped.
pub open spec fn kept_exprs(q: Seq<TplElementV>, exprs: Seq<Expr>) -> Seq<Expr> {
    keep(exprs, process_quasis(q, q.len() as int).removed)
}

/// The total length of the raw text of the first `n` quasis.
pub open spec fn total_raw_len(q: Seq<TplElementV>, n: int) -> int
    decreases n,
{
    if n <= 0 { 0 } else { total_raw_len(q, n - 1) + q[n - 1].raw.len() }
}

// ---------------------------------------------------------------------------
// Lemmas.

proof fn lemma_scan_depth(b: Seq<u8>, i: int, quote: u8, depth: int, out: Seq<u8>, first: bool)
    requires
        0 <= i,
    ensures
        ({
            let s = scan(b, i, quote, depth, out, first);
            let n = if i < b.len() { b.len() - i } else { 0 };
            depth - n <= s.depth <= depth + n
        }),
    decreases b.len() - i,
{
    if i < b.len() {
        let c = b[i];
        if c == 0x22 || c == 0x27 {
            let q = if quote == 0 { c } else if c == quote { 0u8 } else { quote };
            lemma_scan_depth(b, i + 1, q, depth, out.push(c), first);
        } else if c == 0x5C && i + 1 < b.len() && (b[i + 1] == 0x5C || b[i + 1] == 0x22 || b[i + 1] == 0x27) {
            lemma_scan_depth(b, i + 2, quote, depth, out.push(0x5C).push(b[i + 1]), first);
        } else if c == 0x5C && i + 1 < b.len() && (b[i + 1] == 0x6E || b[i + 1] == 0x72) && quote == 0 {
            lemma_scan_depth(b, i + 2, quote, depth, ins_space(out, first), first);
        } else if c == 0x5C || quote != 0 {
            lemma_scan_depth(b, i + 1, quote, depth, out.push(c), first);
        } else if c == 0x28 {
            lemma_scan_depth(b, i + 1, quote, depth + 1, out.push(c), first);
        } else if c == 0x29 {
            lemma_scan_depth(b, i + 1, quote, depth - 1, out.push(c), first);
        } else if c == 0x2F && i + 1 < b.len() && b[i + 1] == 0x2A && i + 2 >= b.len() {
        } else if c == 0x2F && i + 1 < b.len() && b[i + 1] == 0x2A && b[i + 2] != 0x21 {
            match find_block_end(b, i + 2) {
                Some(k) => {
                    lemma_find_block_end(b, i + 2);
                    lemma_scan_depth(b, k + 2, quote, depth, ins_space(out, first), first);
                },
                None => {},
            }
        } else if c == 0x2F && i + 1 < b.len() && b[i + 1] == 0x2F && depth == 0 && (i == 0 || b[i - 1] != 0x3A) {
            match find_newline(b, i + 2) {
                Some(k) => {
                    lemma_find_newline(b, i + 2);
                    lemma_scan_depth(b, k + 1, quote, depth, ins_space(out, first), first);
                },
                None => {},
            }
        } else if c == 0x2F {
            lemma_scan_depth(b, i + 1, quote, depth, out.push(c), first);
        } else if is_ascii_ws(c) {
            lemma_scan_depth(b, i + 1, quote, depth, ins_space(out, first), first);
        } else if c == 0x7B || c == 0x7D || c == 0x2C || c == 0x3B {
            let o = if out.len() > 0 && out.last() == 0x20 { out.drop_last() } else { out };
            lemma_scan_depth(b, i + 1, quote, depth, o.push(c), first);
        } else {
            lemma_scan_depth(b, i + 1, quote, depth, out.push(c), first);
        }
    }
}

pub proof fn lemma_find_block_end(b: Seq<u8>, j: int)
    ensures
        find_block_end(b, j) matches Some(k) ==> 0 <= j <= k && k + 1 < b.len() && b[k] == 0x2A
            && b[k + 1] == 0x2F,
    decreases b.len() - j,
{
    if !(j < 0 || j + 1 >= b.len()) && !(b[j] == 0x2A && b[j + 1] == 0x2F) {
        lemma_find_block_end(b, j + 1);
    }
}

pub proof fn lemma_find_newline(b: Seq<u8>, j: int)
    ensures
        find_newline(b, j) matches Some(k) ==> 0 <= j <= k < b.len() && (b[k] == 0x0A || b[k] == 0x0D),
    decreases b.len() - j,
{
    if !(j < 0 || j >= b.len()) && !(b[j] == 0x0A || b[j] == 0x0D) {
        lemma_find_newline(b, j + 1);
    }
}

proof fn lemma_process_quasis_shape(q: Seq<TplElementV>, n: int)
    requires
        0 <= n <= q.len(),
    ensures
        process_quasis(q, n).removed.len() == n,
        process_quasis(q, n).spans.len() == n,
        process_quasis(q, n).raws.len() == n,
        n > 0 ==> !process_quasis(q, n).removed[n - 1],
        n > 0 ==> process_quasis(q, n).spans[n - 1].hi == q[n - 1].span.hi,
        ({
            let st = process_quasis(q, n);
            -total_raw_len(q, n) <= st.depth <= total_raw_len(q, n)
        }),
    decreases n,
{
    if n > 0 {
        lemma_process_quasis_shape(q, n - 1);
        let st = process_quasis(q, n - 1);
        let qe = q[n - 1];
        let b = qe.raw;
        let qi = st.removed.len();
        if qi > 0 && st.comment is Some {
            match comment_resume(b, st.comment->Some_0) {
                None => {},
                Some(start) => {
                    if st.comment->Some_0 {
                        lemma_find_block_end(b, 0);
                    } else {
                        lemma_find_newline(b, 0);
                    }
                    lemma_scan_depth(b, start, st.quote, st.depth, ins_space(st.out, st.first), st.first);
                },
            }
        } else {
            let first = if qi > 0 { false } else { st.first };
            lemma_scan_depth(b, 0, st.quote, st.depth, if qi > 0 { Seq::empty() } else { st.out }, first);
        }
    }
}

// ---------------------------------------------------------------------------
// Implementation.

/// Appends a space unless the byte before makes it unnecessary.
pub fn insert_space_if_required(output: &mut Vec<u8>, is_first_output: bool)
    ensures
        final(output)@ == ins_space(old(output)@, is_first_output),
{
    let n = output.len();
    if n > 0 {
        let last = output[n - 1];
        if last == 0x20 || last == 0x3A || last == 0x7B || last == 0x7D || last == 0x2C || last == 0x3B {
            return;
        }
    } else if is_first_output {
        return;
    }
    output.push(0x20);
}

fn find_block_end_from(b: &Vec<u8>, j: usize) -> (r: Option<usize>)
    ensures
        r matches Some(k) ==> find_block_end(b@, j as int) == Some(k as int),
        r is None ==> find_block_end(b@, j as int) is None,
{
    let mut k = j;
    while k < b.len() && k + 1 < b.len()
        invariant
            j <= k,
            find_block_end(b@, j as int) == find_block_end(b@, k as int),
        decreases b.len() - k,
    {
        if b[k] == 0x2A && b[k + 1] == 0x2F {
            return Some(k);
        }
        k += 1;
    }
    None
}

fn find_newline_from(b: &Vec<u8>, j: usize) -> (r: Option<usize>)
    ensures
        r matches Some(k) ==> find_newline(b@, j as int) == Some(k as int),
        r is None ==> find_newline(b@, j as int) is None,
{
    let mut k = j;
    while k < b.len()
        invariant
            j <= k,
            find_newline(b@, j as int) == find_newline(b@, k as int),
        decreases b.len() - k,
    {
        if b[k] == 0x0A || b[k] == 0x0D {
            return Some(k);
        }
        k += 1;
    }
    None
}

/// Scans `b` from `start`, as `scan` says.
fn scan_quasi(
    b: &Vec<u8>,
    start: usize,
    quote: &mut u8,
    depth: &mut i64,
    out: &mut Vec<u8>,
    first: bool,
) -> (comment: Option<bool>)
    requires
        start <= b.len(),
        -(i64::MAX - b.len()) <= *old(depth) <= i64::MAX - b.len(),
    ensures
        ({
            let s = scan(b@, start as int, *old(quote), *old(depth) as int, old(out)@, first);
            &&& comment == s.comment
            &&& *final(quote) == s.quote
            &&& *final(depth) as int == s.depth
            &&& final(out)@ == s.out
        }),
{
    let ghost target = scan(b@, start as int, *quote, *depth as int, out@, first);
    let ghost depth0 = *depth as int;
    let len = b.len();
    let mut i = start;
    let mut result: Option<bool> = None;
    while i < len
        invariant_except_break
            result is None,
            scan(b@, i as int, *quote, *depth as int, out@, first) == target,
        invariant
            len == b.len(),
            start <= i <= len,
            depth0 - (i - start) <= *depth <= depth0 + (i - start),
            -(i64::MAX - b.len()) <= depth0 <= i64::MAX - b.len(),
        ensures
            target == (ScanState { comment: result, quote: *quote, depth: *depth as int, out: out@ }),
        decreases len - i,
    {
        let c = b[i];
        if c == 0x22 || c == 0x27 {
            if *quote == 0 {
                *quote = c;
            } else if c == *quote {
                *quote = 0;
            }
            out.push(c);
            i += 1;
        } else if c == 0x5C && i + 1 < len && (b[i + 1] == 0x5C || b[i + 1] == 0x22 || b[i + 1] == 0x27) {
            out.push(0x5C);
            out.push(b[i + 1]);
            i += 2;
        } else if c == 0x5C && i + 1 < len && (b[i + 1] == 0x6E || b[i + 1] == 0x72) && *quote == 0 {
            insert_space_if_required(out, first);
            i += 2;
        } else if c == 0x5C || *quote != 0 {
            out.push(c);
            i += 1;
        } else if c == 0x28 {
            *depth = *depth + 1;
            out.push(c);
            i += 1;
        } else if c == 0x29 {
            *depth = *depth - 1;
            out.push(c);
            i += 1;
        } else if c == 0x2F && i + 1 < len && b[i + 1] == 0x2A && i + 2 >= len {
            result = Some(true);
            break;
        } else if c == 0x2F && i + 1 < len && b[i + 1] == 0x2A && b[i + 2] != 0x21 {
            match find_block_end_from(b, i + 2) {
                Some(k) => {
                    proof {
                        lemma_find_block_end(b@, i + 2);
                    }
                    insert_space_if_required(out, first);
                    i = k + 2;
                },
                None => {
                    result = Some(true);
                    break;
                },
            }
        } else if c == 0x2F && i + 1 < len && b[i + 1] == 0x2F && *depth == 0 && (i == 0 || b[i - 1] != 0x3A) {
            match find_newline_from(b, i + 2) {
                Some(k) => {
                    proof {
                        lemma_find_newline(b@, i + 2);
                    }
                    insert_space_if_required(out, first);
                    i = k + 1;
                },
                None => {
                    result = Some(false);
                    break;
                },
            }
        } else if c == 0x2F {
            out.push(c);
            i += 1;
        } else if c == 0x20 || c == 0x09 || c == 0x0A || c == 0x0C || c == 0x0D {
            insert_space_if_required(out, first);
            i += 1;
        } else if c == 0x7B || c == 0x7D || c == 0x2C || c == 0x3B {
            let n = out.len();
            if n > 0 && out[n - 1] == 0x20 {
                out.pop();
            }
            out.push(c);
            i += 1;
        } else {
            out.push(c);
            i += 1;
        }
    }
    result
}

proof fn lemma_total_mono(q: Seq<TplElementV>, k: int, n: int)
    requires
        0 <= k <= n,
    ensures
        total_raw_len(q, k) <= total_raw_len(q, n),
        0 <= total_raw_len(q, k),
    decreases n,
{
    if k < n {
        lemma_total_mono(q, k, n - 1);
    } else if n > 0 {
        lemma_total_mono(q, n - 1, n - 1);
    }
}

/// The number of indices below `m` that are not dropped.
pub open spec fn count_kept(d: Seq<bool>, m: int) -> int
    decreases m,
{
    if m <= 0 { 0 } else { count_kept(d, m - 1) + if d[m - 1] { 0int } else { 1int } }
}

proof fn lemma_keep_len<A>(s: Seq<A>, d: Seq<bool>)
    ensures
        keep(s, d).len() == count_kept(d, s.len() as int),
    decreases s.len(),
{
    if s.len() > 0 {
        lemma_keep_len(s.drop_last(), d);
    }
}

proof fn lemma_keep_take<A>(s: Seq<A>, d: Seq<bool>, j: int)
    requires
        0 <= j < s.len(),
    ensures
        keep(s.take(j + 1), d) == if d[j] { keep(s.take(j), d) } else { keep(s.take(j), d).push(s[j]) },
{
    assert(s.take(j + 1).drop_last() =~= s.take(j));
}

/// `a` is `b` with some elements left out, the others in their order.
pub open spec fn is_subsequence<A>(a: Seq<A>, b: Seq<A>) -> bool {
    exists|f: Seq<int>|
        #![trigger f.len()]
        f.len() == a.len() && (forall|i: int| 0 <= i < a.len() ==> 0 <= #[trigger] f[i] < b.len() && a[i] == b[f[i]])
            && (forall|i: int, j: int| 0 <= i < j < a.len() ==> #[trigger] f[i] < #[trigger] f[j])
}

/// What `keep` leaves of a sequence is a subsequence of it.
pub proof fn lemma_keep_subsequence<A>(s: Seq<A>, d: Seq<bool>)
    ensures
        is_subsequence(keep(s, d), s),
    decreases s.len(),
{
    if s.len() == 0 {
        let f = Seq::<int>::empty();
        assert(f.len() == keep(s, d).len());
    } else {
        let rest = keep(s.drop_last(), d);
        lemma_keep_subsequence(s.drop_last(), d);
        let f0 = choose|f: Seq<int>|
            #![trigger f.len()]
            f.len() == rest.len() && (forall|i: int| 0 <= i < rest.len() ==> 0 <= #[trigger] f[i] < s.drop_last().len() && rest[i] == s.drop_last()[f[i]])
                && (forall|i: int, j: int| 0 <= i < j < rest.len() ==> #[trigger] f[i] < #[trigger] f[j]);
        if d[s.len() - 1] {
            assert(f0.len() == keep(s, d).len());
        } else {
            let f = f0.push(s.len() - 1);
            let k = keep(s, d);
            assert(k == rest.push(s.last()));
            assert forall|i: int| 0 <= i < k.len() implies 0 <= #[trigger] f[i] < s.len() && k[i] == s[f[i]] by {
                if i < rest.len() {
                    assert(f[i] == f0[i]);
                }
            }
            assert forall|i: int, j: int| 0 <= i < j < k.len() implies #[trigger] f[i] < #[trigger] f[j] by {
                if j < rest.len() {
                    assert(f[i] == f0[i] && f[j] == f0[j]);
                } else {
                    assert(f[i] == f0[i]);
                }
            }
            assert(f.len() == k.len());
        }
    }
}

/// Nothing is dropped by `keep` when no index is marked.
proof fn lemma_keep_all<A>(s: Seq<A>, d: Seq<bool>)
    requires
        forall|k: int| 0 <= k < s.len() ==> !#[trigger] d[k],
    ensures
        keep(s, d) == s,
    decreases s.len(),
{
    if s.len() > 0 {
        lemma_keep_all(s.drop_last(), d);
        assert(s.drop_last().push(s.last()) =~= s);
    }
}

/// No quasi is dropped while none of them has ended inside an open comment.
proof fn lemma_none_removed(q: Seq<TplElementV>, n: int)
    requires
        0 <= n <= q.len(),
        forall|j: int| 0 < j < n ==> (#[trigger] process_quasis(q, j)).comment is None,
    ensures
        forall|k: int| 0 <= k < n ==> !#[trigger] process_quasis(q, n).removed[k],
    decreases n,
{
    if n > 0 {
        lemma_none_removed(q, n - 1);
        lemma_process_quasis_shape(q, n - 1);
        lemma_process_quasis_shape(q, n);
        if n - 1 > 0 {
            assert(process_quasis(q, n - 1).comment is None);
        }
        let st = process_quasis(q, n - 1);
        assert(process_quasis(q, n).removed == st.removed.push(false));
    }
}

/// What minification keeps of a template literal: as many quasis as
/// interpolations plus one, the interpolations a subsequence of the old
/// ones; and when no quasi but the last ends inside an open comment, every
/// interpolation and every quasi stays.
pub proof fn lemma_minify_keeps(q: Seq<TplElementV>, exprs: Seq<Expr>)
    requires
        q.len() == exprs.len() + 1,
    ensures
        minified_quasis(q).len() == kept_exprs(q, exprs).len() + 1,
        is_subsequence(kept_exprs(q, exprs), exprs),
        (forall|j: int| 0 < j < q.len() ==> (#[trigger] process_quasis(q, j)).comment is None) ==> {
            &&& kept_exprs(q, exprs) == exprs
            &&& minified_quasis(q).len() == q.len()
        },
{
    let d = process_quasis(q, q.len() as int).removed;
    lemma_process_quasis_shape(q, q.len() as int);
    lemma_keep_subsequence(exprs, d);
    let all = Seq::new(q.len(), |j: int| minified_quasi(q, j));
    lemma_keep_len(all, d);
    lemma_keep_len(exprs, d);
    assert(count_kept(d, q.len() as int) == count_kept(d, exprs.len() as int) + 1);
    if forall|j: int| 0 < j < q.len() ==> (#[trigger] process_quasis(q, j)).comment is None {
        lemma_none_removed(q, q.len() as int);
        lemma_keep_all(exprs, d);
        lemma_keep_all(all, d);
    }
}

/// Minifies the CSS of a styled-components template literal in place: the
/// text of every quasi is minified, and an interpolation that stands inside
/// a comment is dropped with the quasi before it.
pub fn minify_template_literal(lit: &mut Tpl)
    requires
        old(lit).quasis.len() == old(lit).exprs.len() + 1,
        total_raw_len(quasis_v_of(old(lit).quasis@), old(lit).quasis.len() as int) <= u32::MAX,
    ensures
        final(lit).span == old(lit).span,
        quasis_v_of(final(lit).quasis@) == minified_quasis(quasis_v_of(old(lit).quasis@)),
        final(lit).exprs@ == kept_exprs(quasis_v_of(old(lit).quasis@), old(lit).exprs@),
        final(lit).quasis.len() == final(lit).exprs.len() + 1,
{
    let ghost qv = quasis_v_of(lit.quasis@);
    let ghost orig_q = lit.quasis@;
    let ghost orig_e = lit.exprs@;
    let n = lit.quasis.len();
    let mut comment: Option<bool> = None;
    let mut quote: u8 = 0;
    let mut depth: i64 = 0;
    let mut first = true;
    let mut out: Vec<u8> = Vec::new();
    let mut removed: Vec<bool> = Vec::new();
    let mut spans: Vec<Span> = Vec::new();
    let mut raws: Vec<Vec<u8>> = Vec::new();
    let mut qi: usize = 0;
    proof {
        lemma_total_mono(qv, 0, n as int);
    }
    while qi < n
        invariant
            n == lit.quasis.len(),
            lit.quasis@ == orig_q,
            lit.exprs@ == orig_e,
            lit.span == old(lit).span,
            qv == quasis_v_of(orig_q),
            qv.len() == n,
            total_raw_len(qv, n as int) <= u32::MAX,
            0 <= qi <= n,
            ({
                let st = process_quasis(qv, qi as int);
                &&& comment == st.comment
                &&& quote == st.quote
                &&& depth as int == st.depth
                &&& first == st.first
                &&& out@ == st.out
                &&& removed@ == st.removed
                &&& spans@ == st.spans
                &&& raws@.len() == qi
                &&& forall|j: int| 0 <= j < qi ==> #[trigger] raws@[j]@ == st.raws[j]
            }),
        decreases n - qi,
    {
        proof {
            lemma_process_quasis_shape(qv, qi as int);
            lemma_total_mono(qv, qi as int + 1, n as int);
            lemma_total_mono(qv, qi as int, qi as int);
            assert(qv[qi as int] == tpl_element_v(orig_q[qi as int]));
        }
        let ghost st = process_quasis(qv, qi as int);
        let b = &lit.quasis[qi].raw;
        let this_span = lit.quasis[qi].span;
        if qi > 0 && comment.is_some() {
            let is_block = match comment {
                Some(x) => x,
                None => false,
            };
            removed.set(qi - 1, true);
            removed.push(false);
            let lo = spans[qi - 1].lo;
            spans.push(Span { lo, hi: this_span.hi });
            raws.push(Vec::new());
            let start: Option<usize> = if is_block {
                match find_block_end_from(b, 0) {
                    Some(k) => {
                        proof {
                            lemma_find_block_end(b@, 0);
                        }
                        Some(k + 2)
                    },
                    None => None,
                }
            } else {
                match find_newline_from(b, 0) {
                    Some(k) => {
                        proof {
                            lemma_find_newline(b@, 0);
                        }
                        Some(k + 1)
                    },
                    None => None,
                }
            };
            match start {
                None => {},
                Some(s0) => {
                    insert_space_if_required(&mut out, first);
                    comment = scan_quasi(b, s0, &mut quote, &mut depth, &mut out, first);
                },
            }
        } else {
            if qi > 0 {
                let mut tmp: Vec<u8> = Vec::new();
                std::mem::swap(&mut tmp, &mut out);
                raws.set(qi - 1, tmp);
                first = false;
            }
            removed.push(false);
            spans.push(this_span);
            raws.push(Vec::new());
            comment = scan_quasi(b, 0, &mut quote, &mut depth, &mut out, first);
        }
        proof {
            let st2 = process_quasis(qv, qi as int + 1);
            assert(removed@ =~= st2.removed);
            assert(spans@ =~= st2.spans);
            assert forall|j: int| 0 <= j < qi + 1 implies #[trigger] raws@[j]@ == st2.raws[j] by {}
            lemma_process_quasis_shape(qv, qi as int + 1);
        }
        qi += 1;
    }
    proof {
        lemma_process_quasis_shape(qv, n as int);
    }
    let ghost st = process_quasis(qv, n as int);
    let len_out = out.len();
    if len_out > 0 && out[len_out - 1] == 0x20 {
        out.pop();
    }
    raws.set(n - 1, out);
    assert(forall|j: int| 0 <= j < n ==> #[trigger] raws@[j]@ == final_raws(qv)[j]);

    // Rebuild the quasis and interpolations, leaving out the dropped ones.
    let mut old_q: Vec<TplElement> = Vec::new();
    std::mem::swap(&mut old_q, &mut lit.quasis);
    let mut old_e: Vec<Expr> = Vec::new();
    std::mem::swap(&mut old_e, &mut lit.exprs);
    let mut new_q: Vec<TplElement> = Vec::new();
    let mut new_e: Vec<Expr> = Vec::new();
    let ghost full = Seq::new(n as nat, |j: int| minified_quasi(qv, j));
    let mut j: usize = 0;
    while j < n
        invariant
            n == old_q.len(),
            n == orig_q.len(),
            orig_e.len() + 1 == n,
            old_e.len() == orig_e.len(),
            raws@.len() == n,
            removed@ == st.removed,
            spans@ == st.spans,
            removed@.len() == n,
            spans@.len() == n,
            st == process_quasis(qv, n as int),
            qv == quasis_v_of(orig_q),
            qv.len() == n,
            full == Seq::new(n as nat, |k: int| minified_quasi(qv, k)),
            0 <= j <= n,
            forall|k: int| j <= k < n ==> #[trigger] old_q@[k] == orig_q[k],
            forall|k: int| j <= k < n ==> #[trigger] raws@[k]@ == final_raws(qv)[k],
            forall|k: int| j <= k < n - 1 ==> #[trigger] old_e@[k] == orig_e[k],
            quasis_v_of(new_q@) == keep(full.take(j as int), st.removed),
            new_e@ == keep(orig_e.take(if j < n { j as int } else { n - 1 }), st.removed),
            lit.span == old(lit).span,
        decreases n - j,
    {
        let mut elem = TplElement { span: Span { lo: 0, hi: 0 }, tail: false, cooked: None, raw: Vec::new() };
        old_q.set_and_swap(j, &mut elem);
        let mut raw: Vec<u8> = Vec::new();
        raws.set_and_swap(j, &mut raw);
        let ghost prev_q = new_q@;
        if !removed[j] {
            new_q.push(TplElement { span: spans[j], tail: elem.tail, cooked: elem.cooked, raw });
        }
        proof {
            lemma_keep_take(full, st.removed, j as int);
            assert(qv[j as int] == tpl_element_v(orig_q[j as int]));
            if !st.removed[j as int] {
                assert(quasis_v_of(new_q@) =~= quasis_v_of(prev_q).push(full[j as int]));
            } else {
                assert(new_q@ == prev_q);
            }
        }
        if j + 1 < n {
            let mut e = Expr::Invalid;
            old_e.set_and_swap(j, &mut e);
            let ghost prev_e = new_e@;
            if !removed[j] {
                new_e.push(e);
            }
            proof {
                lemma_keep_take(orig_e, st.removed, j as int);
            }
        }
        j += 1;
    }
    proof {
        assert(full.take(n as int) =~= full);
        assert(orig_e.take(n - 1) =~= orig_e);
        lemma_keep_len(full, st.removed);
        lemma_keep_len(orig_e, st.removed);
    }
    lit.quasis = new_q;
    lit.exprs = new_e;
}

} // verus!
