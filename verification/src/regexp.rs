//! Regular-expression literals that the target cannot parse become
//! `new RegExp(pattern, flags)` calls.
//!
//! A literal is rewritten when one of its flags is unsupported, or, when
//! pattern features are checked, when its pattern holds a lookbehind, a named
//! capture group or a unicode property escape that is unsupported.

use vstd::prelude::*;

use crate::ast::{Arg, Expr, Ident, Lit};
use crate::ast_view::{args_v, expr_v, ArgV, ExprV, IdentV, LitV};
use crate::ast_clone::take_expr;
use crate::ast::dummy_sp;
use crate::ast::dummy_span;
use crate::context::TransformCtx;
use crate::text::{chars_of, push_str, string_of, strs_v};

verus! {

/// Which regular-expression features the target lacks.
#[derive(Clone, Copy, Debug)]
pub struct RegExpOptions {
    /// The `y` flag.
    pub sticky_flag: bool,
    /// The `u` flag.
    pub unicode_flag: bool,
    /// `\p{..}` and `\P{..}` escapes.
    pub unicode_property_escapes: bool,
    /// The `s` flag.
    pub dot_all_flag: bool,
    /// `(?<name>x)` groups.
    pub named_capture_groups: bool,
    /// `(?<=x)` and `(?<!x)` assertions.
    pub look_behind_assertions: bool,
    /// The `d` flag.
    pub match_indices: bool,
    /// The `v` flag.
    pub set_notation: bool,
}

impl Default for RegExpOptions {
    fn default() -> (o: Self)
        ensures
            !o.sticky_flag && !o.unicode_flag && !o.unicode_property_escapes && !o.dot_all_flag
                && !o.named_capture_groups && !o.look_behind_assertions && !o.match_indices
                && !o.set_notation,
    {
        RegExpOptions {
            sticky_flag: false,
            unicode_flag: false,
            unicode_property_escapes: false,
            dot_all_flag: false,
            named_capture_groups: false,
            look_behind_assertions: false,
            match_indices: false,
            set_notation: false,
        }
    }
}

/// The bit of each flag letter: `g` 0, `i` 1, `m` 2, `s` 3, `u` 4, `y` 5,
/// `d` 6, `v` 7; other letters have none.
pub open spec fn flag_index(c: char) -> Option<u8> {
    if c == 'g' { Some(0u8) }
    else if c == 'i' { Some(1u8) }
    else if c == 'm' { Some(2u8) }
    else if c == 's' { Some(3u8) }
    else if c == 'u' { Some(4u8) }
    else if c == 'y' { Some(5u8) }
    else if c == 'd' { Some(6u8) }
    else if c == 'v' { Some(7u8) }
    else { None }
}

/// Whether bit `k` of `bits` is set.
pub open spec fn has_bit(bits: u8, k: u8) -> bool {
    (bits >> k) & 1u8 == 1u8
}

/// A set of flags, one bit per flag.
#[derive(Clone, Copy, Debug, PartialEq, Eq, Structural)]
pub struct RegExpFlags {
    pub bits: u8,
}

pub const GLOBAL: u8 = 0;
pub const IGNORE_CASE: u8 = 1;
pub const MULTILINE: u8 = 2;
pub const DOT_ALL: u8 = 3;
pub const UNICODE: u8 = 4;
pub const STICKY: u8 = 5;
pub const HAS_INDICES: u8 = 6;
pub const UNICODE_SETS: u8 = 7;

impl RegExpFlags {
    /// Whether the flag with bit `k` is in the set.
    pub open spec fn has(self, k: u8) -> bool {
        has_bit(self.bits, k)
    }

    /// The empty set.
    pub fn empty() -> (f: RegExpFlags)
        ensures
            forall|k: u8| k < 8 ==> !#[trigger] f.has(k),
    {
        proof {
            lemma_empty_bits();
        }
        RegExpFlags { bits: 0 }
    }

    /// Adds the flag with bit `k`.
    pub fn insert(&mut self, k: u8)
        requires
            k < 8,
        ensures
            forall|j: u8| j < 8 ==> #[trigger] final(self).has(j) == (old(self).has(j) || j == k),
    {
        let b = self.bits;
        proof {
            lemma_insert_bit(b, k);
        }
        self.bits = b | (1u8 << k);
    }

    /// Whether the flag with bit `k` is in the set.
    pub fn contains(&self, k: u8) -> (b: bool)
        requires
            k < 8,
        ensures
            b == self.has(k),
    {
        (self.bits >> k) & 1u8 == 1u8
    }

    /// Whether the two sets share a flag.
    pub fn intersects(&self, other: &RegExpFlags) -> (b: bool)
        ensures
            b == exists|k: u8| k < 8 && #[trigger] self.has(k) && other.has(k),
    {
        let r = self.bits & other.bits;
        proof {
            lemma_and_bits(self.bits, other.bits);
            if r == 0 {
                assert forall|k: u8| k < 8 implies !(#[trigger] self.has(k) && other.has(k)) by {
                    assert(!has_bit(r, k));
                }
            } else {
                let k = choose|k: u8| k < 8 && has_bit(r, k);
                assert(self.has(k) && other.has(k));
            }
        }
        r != 0
    }
}

proof fn lemma_empty_bits()
    ensures
        forall|k: u8| k < 8 ==> !has_bit(0u8, k),
{
    assert(forall|k: u8| k < 8 ==> (0u8 >> k) & 1u8 != 1u8) by (bit_vector);
}

proof fn lemma_insert_bit(b: u8, k: u8)
    requires
        k < 8,
    ensures
        forall|j: u8| j < 8 ==> #[trigger] has_bit(b | (1u8 << k), j) == (has_bit(b, j) || j == k),
{
    assert forall|j: u8| j < 8 implies #[trigger] has_bit(b | (1u8 << k), j) == (has_bit(b, j) || j == k) by {
        assert((((b | (1u8 << k)) >> j) & 1u8 == 1u8) == (((b >> j) & 1u8 == 1u8) || j == k)) by (bit_vector)
            requires
                k < 8,
                j < 8,
        ;
    }
}

proof fn lemma_and_bits(a: u8, b: u8)
    ensures
        forall|k: u8| k < 8 ==> #[trigger] has_bit(a & b, k) == (has_bit(a, k) && has_bit(b, k)),
        (a & b != 0) ==> exists|k: u8| k < 8 && has_bit(a & b, k),
        (a & b == 0) ==> forall|k: u8| k < 8 ==> !has_bit(a & b, k),
{
    assert forall|k: u8| k < 8 implies #[trigger] has_bit(a & b, k) == (has_bit(a, k) && has_bit(b, k)) by {
        assert((((a & b) >> k) & 1u8 == 1u8) == (((a >> k) & 1u8 == 1u8) && ((b >> k) & 1u8 == 1u8))) by (bit_vector);
    }
    assert forall|k: u8| k < 8 && a & b == 0 implies !#[trigger] has_bit(a & b, k) by {
        assert((0u8 >> k) & 1u8 != 1u8) by (bit_vector);
    }
    if a & b != 0 {
        let c = a & b;
        assert(c != 0 ==> ((c >> 0u8) & 1u8 == 1u8 || (c >> 1u8) & 1u8 == 1u8 || (c >> 2u8) & 1u8
            == 1u8 || (c >> 3u8) & 1u8 == 1u8 || (c >> 4u8) & 1u8 == 1u8 || (c >> 5u8) & 1u8 == 1u8
            || (c >> 6u8) & 1u8 == 1u8 || (c >> 7u8) & 1u8 == 1u8)) by (bit_vector);
        if has_bit(c, 0) {
            assert(has_bit(c, 0));
        } else if has_bit(c, 1) {
            assert(has_bit(c, 1));
        } else if has_bit(c, 2) {
            assert(has_bit(c, 2));
        } else if has_bit(c, 3) {
            assert(has_bit(c, 3));
        } else if has_bit(c, 4) {
            assert(has_bit(c, 4));
        } else if has_bit(c, 5) {
            assert(has_bit(c, 5));
        } else if has_bit(c, 6) {
            assert(has_bit(c, 6));
        } else {
            assert(has_bit(c, 7));
        }
    }
}

/// Whether one of the letters of `s` stands for the flag with bit `k`.
pub open spec fn names_flag(s: Seq<char>, k: u8) -> bool {
    exists|i: int| 0 <= i < s.len() && #[trigger] flag_index(s[i]) == Some(k)
}

/// The flags that the letters of `flags` name; other letters are ignored.
pub fn parse_flags(flags: &str) -> (f: RegExpFlags)
    ensures
        forall|k: u8| k < 8 ==> #[trigger] f.has(k) == names_flag(flags@, k),
{
    let cs = chars_of(flags);
    let mut result = RegExpFlags::empty();
    let mut i: usize = 0;
    while i < cs.len()
        invariant
            0 <= i <= cs.len(),
            cs@ == flags@,
            forall|k: u8| k < 8 ==> #[trigger] result.has(k) == names_flag(cs@.take(i as int), k),
        decreases cs.len() - i,
    {
        let c = cs[i];
        let ghost prev = result;
        let idx: Option<u8> = if c == 'g' { Some(GLOBAL) }
            else if c == 'i' { Some(IGNORE_CASE) }
            else if c == 'm' { Some(MULTILINE) }
            else if c == 's' { Some(DOT_ALL) }
            else if c == 'u' { Some(UNICODE) }
            else if c == 'y' { Some(STICKY) }
            else if c == 'd' { Some(HAS_INDICES) }
            else if c == 'v' { Some(UNICODE_SETS) }
            else { None };
        assert(idx == flag_index(c));
        match idx {
            Some(k) => result.insert(k),
            None => {},
        }
        proof {
            let t0 = cs@.take(i as int);
            let t1 = cs@.take(i as int + 1);
            assert forall|k: u8| k < 8 implies #[trigger] result.has(k) == names_flag(t1, k) by {
                if names_flag(t1, k) {
                    let j = choose|j: int| 0 <= j < t1.len() && #[trigger] flag_index(t1[j]) == Some(k);
                    if j < i {
                        assert(t0[j] == t1[j]);
                    }
                }
                if names_flag(t0, k) {
                    let j = choose|j: int| 0 <= j < t0.len() && #[trigger] flag_index(t0[j]) == Some(k);
                    assert(t0[j] == t1[j]);
                }
                if idx == Some(k) {
                    assert(t1[i as int] == c);
                }
            }
        }
        i += 1;
    }
    assert(cs@.take(cs.len() as int) =~= cs@);
    result
}

/// What a pattern holds of the features that can be unsupported.
#[derive(Clone, Copy, Debug)]
pub struct PatternFeatures {
    /// A `(?<=x)` or `(?<!x)` assertion.
    pub has_lookbehind: bool,
    /// A capturing group with a name.
    pub has_named_group: bool,
    /// A `\p{..}` or `\P{..}` escape.
    pub has_property_escape: bool,
}

#[verifier::external_type_specification]
#[verifier::external_body]
pub struct ExCapturingGroup(swc_ecma_regexp_ast::CapturingGroup);

#[verifier::external_type_specification]
#[verifier::external_body]
pub struct ExLookAroundAssertion(swc_ecma_regexp_ast::LookAroundAssertion);

#[verifier::external_type_specification]
#[verifier::external_body]
pub struct ExUnicodePropertyEscape(swc_ecma_regexp_ast::UnicodePropertyEscape);

/// The tag of a lookahead assertion `(?=x)`.
pub const TAG_LOOKAHEAD: u8 = 0;
/// The tag of a negative lookahead assertion `(?!x)`.
pub const TAG_NEGATIVE_LOOKAHEAD: u8 = 1;
/// The tag of a lookbehind assertion `(?<=x)`.
pub const TAG_LOOKBEHIND: u8 = 2;
/// The tag of a negative lookbehind assertion `(?<!x)`.
pub const TAG_NEGATIVE_LOOKBEHIND: u8 = 3;
/// The tag of a capturing group without a name.
pub const TAG_GROUP: u8 = 4;
/// The tag of a capturing group with a name.
pub const TAG_NAMED_GROUP: u8 = 5;
/// The tag of a `\p{..}` or `\P{..}` escape.
pub const TAG_PROPERTY_ESCAPE: u8 = 6;

/// What swc's regexp parser makes of `/pattern/flags`: the tags of the
/// assertions, capturing groups and property escapes of the parsed pattern
/// in the order a visit meets them, or the parser's message.
pub uninterp spec fn regexp_nodes(pattern: Seq<char>, flags: Seq<char>) -> Result<Seq<u8>, Seq<char>>;

/// Collects one tag per assertion, capturing group and property escape of
/// a parsed pattern.
pub struct NodeCollector {
    pub tags: Vec<u8>,
}

impl swc_ecma_regexp_visit::Visit for NodeCollector {
    #[verifier::external_body]
    fn visit_look_around_assertion(&mut self, node: &swc_ecma_regexp_ast::LookAroundAssertion) {
        self.tags.push(match node.kind {
            swc_ecma_regexp_ast::LookAroundAssertionKind::Lookahead => TAG_LOOKAHEAD,
            swc_ecma_regexp_ast::LookAroundAssertionKind::NegativeLookahead => TAG_NEGATIVE_LOOKAHEAD,
            swc_ecma_regexp_ast::LookAroundAssertionKind::Lookbehind => TAG_LOOKBEHIND,
            swc_ecma_regexp_ast::LookAroundAssertionKind::NegativeLookbehind => TAG_NEGATIVE_LOOKBEHIND,
        });
        swc_ecma_regexp_visit::VisitWith::visit_children_with(node, self);
    }

    #[verifier::external_body]
    fn visit_capturing_group(&mut self, node: &swc_ecma_regexp_ast::CapturingGroup) {
        self.tags.push(match node.name {
            Some(_) => TAG_NAMED_GROUP,
            None => TAG_GROUP,
        });
        swc_ecma_regexp_visit::VisitWith::visit_children_with(node, self);
    }

    #[verifier::external_body]
    fn visit_unicode_property_escape(&mut self, _node: &swc_ecma_regexp_ast::UnicodePropertyEscape) {
        self.tags.push(TAG_PROPERTY_ESCAPE);
    }
}

/// `LiteralParser::parse` of `/pattern/flags` with default options, and a
/// visit of the parsed pattern with `NodeCollector`: the tags, or the
/// parser's message written with `Debug`; as `regexp_nodes` names them, a
/// function of the pattern and flags alone.
#[verifier::external_body]
fn parse_pattern_nodes(pattern: &str, flags: &str) -> (r: Result<Vec<u8>, String>)
    ensures
        regexp_nodes(pattern@, flags@) == match r {
            Ok(v) => Ok::<Seq<u8>, Seq<char>>(v@),
            Err(m) => Err::<Seq<u8>, Seq<char>>(m@),
        },
{
    match swc_ecma_regexp::LiteralParser::new(pattern, Some(flags), swc_ecma_regexp::Options::default()).parse() {
        Ok(parsed) => {
            let mut collector = NodeCollector { tags: Vec::new() };
            swc_ecma_regexp_visit::VisitWith::visit_with(&parsed, &mut collector);
            Ok(collector.tags)
        },
        Err(error) => Err(format!("{:?}", error)),
    }
}

/// Whether `nodes` holds the tag `t`.
pub fn has_tag(nodes: &Vec<u8>, t: u8) -> (b: bool)
    ensures
        b <==> exists|i: int| 0 <= i < nodes.len() && nodes@[i] == t,
{
    let mut i: usize = 0;
    while i < nodes.len()
        invariant
            i <= nodes.len(),
            forall|j: int| 0 <= j < i ==> nodes@[j] != t,
        decreases nodes.len() - i,
    {
        if nodes[i] == t {
            return true;
        }
        i += 1;
    }
    false
}

/// Whether `nodes` holds the tag `t`.
pub open spec fn holds_tag(nodes: Seq<u8>, t: u8) -> bool {
    exists|i: int| 0 <= i < nodes.len() && nodes[i] == t
}

/// The features of a pattern whose parse gave the tags `nodes`.
pub open spec fn features_of(nodes: Seq<u8>) -> PatternFeatures {
    PatternFeatures {
        has_lookbehind: holds_tag(nodes, TAG_LOOKBEHIND) || holds_tag(nodes, TAG_NEGATIVE_LOOKBEHIND),
        has_named_group: holds_tag(nodes, TAG_NAMED_GROUP),
        has_property_escape: holds_tag(nodes, TAG_PROPERTY_ESCAPE),
    }
}

/// The features of a pattern whose parse gave the tags `nodes`, as
/// `features_of` says.
pub fn pattern_features(nodes: &Vec<u8>) -> (f: PatternFeatures)
    ensures
        f == features_of(nodes@),
{
    PatternFeatures {
        has_lookbehind: has_tag(nodes, TAG_LOOKBEHIND) || has_tag(nodes, TAG_NEGATIVE_LOOKBEHIND),
        has_named_group: has_tag(nodes, TAG_NAMED_GROUP),
        has_property_escape: has_tag(nodes, TAG_PROPERTY_ESCAPE),
    }
}

/// What the flags of a literal decide.
#[derive(Clone, Copy, Debug, PartialEq, Eq, Structural)]
pub enum RegexCheck {
    /// The literal stays.
    Keep,
    /// The literal is rewritten.
    Rewrite,
    /// The pattern decides.
    CheckPattern,
}

/// The rewrite of regular-expression literals.
#[derive(Clone, Copy, Debug)]
pub struct RegExp {
    pub unsupported_flags: RegExpFlags,
    pub check_patterns: bool,
    pub look_behind_assertions: bool,
    pub named_capture_groups: bool,
    pub unicode_property_escapes: bool,
}

/// The report of a pattern that the parser rejected with `message`.
pub open spec fn parse_error_message(message: Seq<char>) -> Seq<char> {
    "Failed to parse regex: "@ + message
}

/// `new RegExp(pattern, flags)`.
pub open spec fn regexp_call(pattern: Seq<char>, flags: Seq<char>) -> ExprV {
    ExprV::New(
        Box::new(ExprV::Ident(IdentV { sym: "RegExp"@, ctxt: 0, span: dummy_span() })),
        seq![
            ArgV { spread: false, expr: ExprV::Lit(LitV::Str(pattern)) },
            ArgV { spread: false, expr: ExprV::Lit(LitV::Str(flags)) },
        ],
    )
}

impl RegExp {
    /// The flags with bit `k` that the options mark unsupported: `s`, `y`,
    /// `u`, `d` and `v`.
    pub open spec fn flag_unsupported(options: RegExpOptions, k: u8) -> bool {
        ||| k == DOT_ALL && options.dot_all_flag
        ||| k == STICKY && options.sticky_flag
        ||| k == UNICODE && options.unicode_flag
        ||| k == HAS_INDICES && options.match_indices
        ||| k == UNICODE_SETS && options.set_notation
    }

    pub fn new(options: RegExpOptions) -> (r: RegExp)
        ensures
            r.built_from(options),
            forall|k: u8| k < 8 ==> #[trigger] r.unsupported_flags.has(k) == Self::flag_unsupported(options, k),
            r.check_patterns == (options.look_behind_assertions || options.named_capture_groups
                || options.unicode_property_escapes),
            r.look_behind_assertions == options.look_behind_assertions,
            r.named_capture_groups == options.named_capture_groups,
            r.unicode_property_escapes == options.unicode_property_escapes,
    {
        let mut unsupported_flags = RegExpFlags::empty();
        if options.dot_all_flag {
            unsupported_flags.insert(DOT_ALL);
        }
        if options.sticky_flag {
            unsupported_flags.insert(STICKY);
        }
        if options.unicode_flag {
            unsupported_flags.insert(UNICODE);
        }
        if options.match_indices {
            unsupported_flags.insert(HAS_INDICES);
        }
        if options.set_notation {
            unsupported_flags.insert(UNICODE_SETS);
        }
        RegExp {
            unsupported_flags,
            check_patterns: options.look_behind_assertions || options.named_capture_groups
                || options.unicode_property_escapes,
            look_behind_assertions: options.look_behind_assertions,
            named_capture_groups: options.named_capture_groups,
            unicode_property_escapes: options.unicode_property_escapes,
        }
    }

    /// What `new(options)` makes: the flags the options mark unsupported,
    /// and the pattern checks they ask for.
    pub open spec fn built_from(self, options: RegExpOptions) -> bool {
        &&& forall|k: u8| k < 8 ==> #[trigger] self.unsupported_flags.has(k) == Self::flag_unsupported(options, k)
        &&& self.check_patterns == (options.look_behind_assertions || options.named_capture_groups
            || options.unicode_property_escapes)
        &&& self.look_behind_assertions == options.look_behind_assertions
        &&& self.named_capture_groups == options.named_capture_groups
        &&& self.unicode_property_escapes == options.unicode_property_escapes
    }

    /// Whether `flags` names a flag that is unsupported.
    pub open spec fn flags_unsupported(self, flags: Seq<char>) -> bool {
        exists|k: u8| k < 8 && #[trigger] names_flag(flags, k) && self.unsupported_flags.has(k)
    }

    /// What the flags of a literal decide.
    pub open spec fn spec_check(self, flags: Seq<char>) -> RegexCheck {
        if self.flags_unsupported(flags) {
            RegexCheck::Rewrite
        } else if self.check_patterns {
            RegexCheck::CheckPattern
        } else {
            RegexCheck::Keep
        }
    }

    /// Whether a pattern with `f` holds an unsupported feature.
    pub open spec fn spec_pattern_unsupported(self, f: PatternFeatures) -> bool {
        ||| self.look_behind_assertions && f.has_lookbehind
        ||| self.named_capture_groups && f.has_named_group
        ||| self.unicode_property_escapes && f.has_property_escape
    }

    /// What the flags of a literal decide.
    pub fn check_flags(&self, flags: &str) -> (c: RegexCheck)
        ensures
            c == self.spec_check(flags@),
    {
        let f = parse_flags(flags);
        let has_unsupported = f.intersects(&self.unsupported_flags);
        proof {
            if has_unsupported {
                let k = choose|k: u8| k < 8 && #[trigger] f.has(k) && self.unsupported_flags.has(k);
                assert(names_flag(flags@, k));
            } else {
                assert forall|k: u8| k < 8 && #[trigger] names_flag(flags@, k) implies !self.unsupported_flags.has(k) by {
                    assert(f.has(k));
                }
            }
        }
        if has_unsupported {
            RegexCheck::Rewrite
        } else if self.check_patterns {
            RegexCheck::CheckPattern
        } else {
            RegexCheck::Keep
        }
    }

    /// Whether a pattern with `f` holds an unsupported feature.
    pub fn pattern_unsupported(&self, f: &PatternFeatures) -> (b: bool)
        ensures
            b == self.spec_pattern_unsupported(*f),
    {
        (self.look_behind_assertions && f.has_lookbehind) || (self.named_capture_groups
            && f.has_named_group) || (self.unicode_property_escapes && f.has_property_escape)
    }

    /// Whether the literal `/pattern/flags` is rewritten, given what the
    /// parser makes of it (`parsed`): the tags of its pattern, or its
    /// message where it could not be parsed.
    pub open spec fn spec_rewrites(self, flags: Seq<char>, parsed: Result<Seq<u8>, Seq<char>>) -> bool {
        match self.spec_check(flags) {
            RegexCheck::Rewrite => true,
            RegexCheck::Keep => false,
            RegexCheck::CheckPattern => match parsed {
                Ok(nodes) => self.spec_pattern_unsupported(features_of(nodes)),
                Err(_) => false,
            },
        }
    }

    /// The errors reported for the literal `/pattern/flags`: the parser's
    /// message, when the pattern had to be read and could not be parsed.
    pub open spec fn spec_errors(self, flags: Seq<char>, parsed: Result<Seq<u8>, Seq<char>>) -> Seq<Seq<char>> {
        match parsed {
            Err(m) => if self.spec_check(flags) == RegexCheck::CheckPattern {
                seq![parse_error_message(m)]
            } else {
                Seq::empty()
            },
            Ok(_) => Seq::empty(),
        }
    }

    /// What the check of a literal's pattern decides once its flags leave
    /// the decision to it: whether it is rewritten, the errors it reports.
    fn check_pattern(&self, pattern: &str, flags: &str, ctx: &mut TransformCtx) -> (rewrite: bool)
        ensures
            rewrite == match regexp_nodes(pattern@, flags@) {
                Ok(nodes) => self.spec_pattern_unsupported(features_of(nodes)),
                Err(_) => false,
            },
            strs_v(final(ctx).errors@) == strs_v(old(ctx).errors@) + match regexp_nodes(pattern@, flags@) {
                Err(m) => seq![parse_error_message(m)],
                Ok(_) => Seq::<Seq<char>>::empty(),
            },
            final(ctx).statement_injector == old(ctx).statement_injector,
    {
        let ghost e0 = strs_v(ctx.errors@);
        match parse_pattern_nodes(pattern, flags) {
            Ok(nodes) => {
                let f = pattern_features(&nodes);
                assert(strs_v(ctx.errors@) =~= e0 + Seq::<Seq<char>>::empty());
                self.pattern_unsupported(&f)
            },
            Err(m) => {
                let mut msg = string_of("Failed to parse regex: ");
                push_str(&mut msg, m.as_str());
                assert(msg@ =~= parse_error_message(m@));
                ctx.error(msg);
                false
            },
        }
    }

    /// Rewrites a regular-expression literal into `new RegExp(pattern,
    /// flags)` when the target cannot parse it. The pattern is parsed only
    /// when the flags leave the decision to it; a pattern that could not be
    /// parsed is reported and left as it is. Other expressions are left as
    /// they are.
    pub fn visit_mut_expr(&self, expr: &mut Expr, ctx: &mut TransformCtx)
        ensures
            match *old(expr) {
                Expr::Lit(Lit::Regex(p, f)) => if self.spec_rewrites(f@, regexp_nodes(p@, f@)) {
                    expr_v(*final(expr)) == regexp_call(p@, f@)
                } else {
                    *final(expr) == *old(expr)
                },
                _ => *final(expr) == *old(expr),
            },
            strs_v(final(ctx).errors@) == strs_v(old(ctx).errors@) + match *old(expr) {
                Expr::Lit(Lit::Regex(p, f)) => self.spec_errors(f@, regexp_nodes(p@, f@)),
                _ => Seq::empty(),
            },
            final(ctx).statement_injector == old(ctx).statement_injector,
    {
        let ghost e0 = strs_v(ctx.errors@);
        let rewrite = match expr {
            Expr::Lit(Lit::Regex(pattern, flags)) => match self.check_flags(flags.as_str()) {
                RegexCheck::Rewrite => true,
                RegexCheck::CheckPattern => self.check_pattern(pattern.as_str(), flags.as_str(), ctx),
                RegexCheck::Keep => false,
            },
            _ => false,
        };
        assert(strs_v(ctx.errors@) =~= e0 + match *old(expr) {
            Expr::Lit(Lit::Regex(p, f)) => self.spec_errors(f@, regexp_nodes(p@, f@)),
            _ => Seq::empty(),
        });
        if rewrite {
            let e = take_expr(expr);
            match e {
                Expr::Lit(Lit::Regex(pattern, flags)) => {
                    let callee = Expr::Ident(Ident { sym: string_of("RegExp"), ctxt: 0, span: dummy_sp() });
                    let args = vec![
                        Arg { spread: false, expr: Expr::Lit(Lit::Str(pattern)) },
                        Arg { spread: false, expr: Expr::Lit(Lit::Str(flags)) },
                    ];
                    proof {
                        let a = args@;
                        assert(a.subrange(0, a.len() - 1) =~= a.subrange(0, 1));
                        assert(a.subrange(0, 1).subrange(0, 0) =~= Seq::<Arg>::empty());
                        assert(args_v(Seq::<Arg>::empty()) =~= Seq::<ArgV>::empty());
                        assert(args_v(a.subrange(0, 1)) =~= seq![crate::ast_view::arg_v(a[0])]);
                        assert(args_v(a) =~= seq![crate::ast_view::arg_v(a[0]), crate::ast_view::arg_v(a[1])]);
                    }
                    let ghost av = args@;
                    assert(crate::ast_view::arg_v(av[0]) == (ArgV { spread: false, expr: ExprV::Lit(LitV::Str(pattern@)) }));
                    assert(crate::ast_view::arg_v(av[1]) == (ArgV { spread: false, expr: ExprV::Lit(LitV::Str(flags@)) }));
                    assert(expr_v(callee) == ExprV::Ident(IdentV { sym: "RegExp"@, ctxt: 0, span: dummy_span() }));
                    *expr = Expr::New(Box::new(callee), args);
                    assert(expr_v(*expr) == regexp_call(pattern@, flags@));
                },
                _ => {
                    *expr = e;
                },
            }
        }
    }
}

/// Whether the letters of `flags` hold one that `options` marks
/// unsupported: `s` for `dot_all_flag`, `y` for `sticky_flag`, `u` for
/// `unicode_flag`, `d` for `match_indices`, `v` for `set_notation`.
pub open spec fn option_flag_used(options: RegExpOptions, flags: Seq<char>) -> bool {
    ||| options.dot_all_flag && flags.contains('s')
    ||| options.sticky_flag && flags.contains('y')
    ||| options.unicode_flag && flags.contains('u')
    ||| options.match_indices && flags.contains('d')
    ||| options.set_notation && flags.contains('v')
}

/// A transform made from `options` rewrites every literal whose flags use
/// a flag that an option marks unsupported, whatever its pattern; and when
/// no such flag is used and no pattern check is asked for, it keeps every
/// literal.
pub proof fn lemma_flag_options(r: RegExp, options: RegExpOptions, flags: Seq<char>, parsed: Result<Seq<u8>, Seq<char>>)
    requires
        r.built_from(options),
    ensures
        option_flag_used(options, flags) ==> r.spec_rewrites(flags, parsed),
        !option_flag_used(options, flags) && !options.look_behind_assertions && !options.named_capture_groups
            && !options.unicode_property_escapes ==> !r.spec_rewrites(flags, parsed),
{
    if option_flag_used(options, flags) {
        let c: char = if options.dot_all_flag && flags.contains('s') {
            's'
        } else if options.sticky_flag && flags.contains('y') {
            'y'
        } else if options.unicode_flag && flags.contains('u') {
            'u'
        } else if options.match_indices && flags.contains('d') {
            'd'
        } else {
            'v'
        };
        let i = choose|i: int| 0 <= i < flags.len() && flags[i] == c;
        let k = flag_index(flags[i])->Some_0;
        assert(flag_index(flags[i]) == Some(k));
        assert(names_flag(flags, k));
        assert(r.unsupported_flags.has(k));
        assert(r.flags_unsupported(flags));
    } else {
        assert forall|k: u8| k < 8 && #[trigger] names_flag(flags, k) implies !r.unsupported_flags.has(k) by {
            let i = choose|i: int| 0 <= i < flags.len() && #[trigger] flag_index(flags[i]) == Some(k);
            assert(flags.contains(flags[i]));
        }
    }
}

/// When the flags leave the decision to the pattern, a transform made from
/// `options` rewrites a literal exactly when its parsed pattern holds a
/// feature that an option marks unsupported: a lookbehind assertion, a
/// named group or a property escape; a pattern that could not be parsed
/// is kept.
pub proof fn lemma_pattern_options(r: RegExp, options: RegExpOptions, flags: Seq<char>, parsed: Result<Seq<u8>, Seq<char>>)
    requires
        r.built_from(options),
        !option_flag_used(options, flags),
    ensures
        match parsed {
            Ok(nodes) => r.spec_rewrites(flags, parsed) == (
                (options.look_behind_assertions && (nodes.contains(TAG_LOOKBEHIND) || nodes.contains(TAG_NEGATIVE_LOOKBEHIND)))
                || (options.named_capture_groups && nodes.contains(TAG_NAMED_GROUP))
                || (options.unicode_property_escapes && nodes.contains(TAG_PROPERTY_ESCAPE))
            ),
            Err(_) => !r.spec_rewrites(flags, parsed),
        },
{
    lemma_flag_options(r, options, flags, parsed);
    assert forall|k: u8| k < 8 && #[trigger] names_flag(flags, k) implies !r.unsupported_flags.has(k) by {
        let i = choose|i: int| 0 <= i < flags.len() && #[trigger] flag_index(flags[i]) == Some(k);
        assert(flags.contains(flags[i]));
    }
    match parsed {
        Ok(nodes) => {
            assert(holds_tag(nodes, TAG_LOOKBEHIND) == nodes.contains(TAG_LOOKBEHIND));
            assert(holds_tag(nodes, TAG_NEGATIVE_LOOKBEHIND) == nodes.contains(TAG_NEGATIVE_LOOKBEHIND));
            assert(holds_tag(nodes, TAG_NAMED_GROUP) == nodes.contains(TAG_NAMED_GROUP));
            assert(holds_tag(nodes, TAG_PROPERTY_ESCAPE) == nodes.contains(TAG_PROPERTY_ESCAPE));
        },
        Err(_) => {},
    }
}

} // verus!
