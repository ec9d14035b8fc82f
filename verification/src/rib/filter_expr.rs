//! Filter expressions: a small boolean language over the attributes of one
//! route, such as `rpki == 'invalid' AND prefix_len > 24`.
//!
//! Grammar (white space, as `char::is_whitespace` defines it, may stand
//! between any two tokens):
//!
//! ```text
//! expr       = or_expr EOI
//! or_expr    = and_expr ("OR" and_expr)*
//! and_expr   = not_expr ("AND" not_expr)*
//! not_expr   = "NOT"? atom
//! atom       = "(" or_expr ")" | membership | comparison | flag
//! membership = word "NOT"? "IN" "[" integer ("," integer)* "]"
//! comparison = word op value
//! flag       = word
//! op         = ">=" | "<=" | "==" | "!=" | ">" | "<" | "="
//! value      = integer | 'text' | "text"
//! ```
//!
//! A word is a maximal run of ASCII letters, digits and `_`; an integer is a
//! word of digits only.

use vstd::prelude::*;
use std::collections::HashSet;
use crate::enrichment::aspa::{is_ws, is_digit, all_digits, dec_value, lemma_dec_value_grows, char_is_ws};
use crate::text::{collect_chars, chars_to_string, chars_match};

verus! {

broadcast use vstd::std_specs::hash::group_hash_axioms;

/// Route-level context made available to filter expressions.
#[derive(Debug, Clone)]
pub struct RouteCtx {
    pub prefix_len: u8,
    pub as_path_len: usize,
    pub origin_asn: u32,
    pub has_prepend: bool,
    /// "valid" | "invalid" | "not-found" | "unknown"
    pub rpki: String,
    /// "announce" | "withdraw"
    pub action: String,
    pub peer_as: u32,
    pub local_pref: Option<u32>,
    pub med: Option<u32>,
    /// The route's communities in text form, such as "65000:100".
    pub community_set: Vec<String>,
}

pub struct RouteCtxModel {
    pub prefix_len: u8,
    pub as_path_len: usize,
    pub origin_asn: u32,
    pub has_prepend: bool,
    pub rpki: Seq<char>,
    pub action: Seq<char>,
    pub peer_as: u32,
    pub local_pref: Option<u32>,
    pub med: Option<u32>,
    pub communities: Seq<Seq<char>>,
}

impl View for RouteCtx {
    type V = RouteCtxModel;

    open spec fn view(&self) -> RouteCtxModel {
        RouteCtxModel {
            prefix_len: self.prefix_len,
            as_path_len: self.as_path_len,
            origin_asn: self.origin_asn,
            has_prepend: self.has_prepend,
            rpki: self.rpki@,
            action: self.action@,
            peer_as: self.peer_as,
            local_pref: self.local_pref,
            med: self.med,
            communities: strings_view(self.community_set@),
        }
    }
}

/// The texts of a list of strings.
pub open spec fn strings_view(v: Seq<String>) -> Seq<Seq<char>> {
    v.map_values(|s: String| s@)
}

/// Compiled filter expression evaluated per route event.
#[derive(Debug)]
pub enum Expr {
    And(Box<Expr>, Box<Expr>),
    Or(Box<Expr>, Box<Expr>),
    Not(Box<Expr>),
    PrefixLenGt(u8),
    PrefixLenLt(u8),
    PrefixLenGe(u8),
    PrefixLenLe(u8),
    PrefixLenEq(u8),
    AsPathLenGt(usize),
    AsPathLenLt(usize),
    AsPathLenGe(usize),
    AsPathLenLe(usize),
    AsPathLenEq(usize),
    LocalPrefGt(u32),
    LocalPrefLt(u32),
    LocalPrefEq(u32),
    MedGt(u32),
    MedLt(u32),
    MedEq(u32),
    RpkiEq(String),
    RpkiNe(String),
    ActionEq(String),
    CommunityHas(String),
    OriginAsIn(HashSet<u32>),
    OriginAsNotIn(HashSet<u32>),
    PeerAsIn(HashSet<u32>),
    PeerAsNotIn(HashSet<u32>),
    HasPrepend,
    True,
    False,
}

/// The numeric attributes an expression can compare.
pub enum NumField {
    PrefixLen,
    AsPathLen,
    LocalPref,
    Med,
}

/// A comparison between an attribute and a constant.
pub enum Rel {
    Gt,
    Lt,
    Ge,
    Le,
    Eq,
}

/// Meaning of an `Expr`: the numeric comparisons are grouped by attribute
/// and relation.
pub enum ExprModel {
    And(Box<ExprModel>, Box<ExprModel>),
    Or(Box<ExprModel>, Box<ExprModel>),
    Not(Box<ExprModel>),
    Num(NumField, Rel, int),
    RpkiEq(Seq<char>),
    RpkiNe(Seq<char>),
    ActionEq(Seq<char>),
    CommunityHas(Seq<char>),
    OriginAsIn(Set<u32>),
    OriginAsNotIn(Set<u32>),
    PeerAsIn(Set<u32>),
    PeerAsNotIn(Set<u32>),
    HasPrepend,
    True,
    False,
}

pub open spec fn expr_model(e: Expr) -> ExprModel
    decreases e,
{
    match e {
        Expr::And(a, b) => ExprModel::And(Box::new(expr_model(*a)), Box::new(expr_model(*b))),
        Expr::Or(a, b) => ExprModel::Or(Box::new(expr_model(*a)), Box::new(expr_model(*b))),
        Expr::Not(a) => ExprModel::Not(Box::new(expr_model(*a))),
        Expr::PrefixLenGt(n) => ExprModel::Num(NumField::PrefixLen, Rel::Gt, n as int),
        Expr::PrefixLenLt(n) => ExprModel::Num(NumField::PrefixLen, Rel::Lt, n as int),
        Expr::PrefixLenGe(n) => ExprModel::Num(NumField::PrefixLen, Rel::Ge, n as int),
        Expr::PrefixLenLe(n) => ExprModel::Num(NumField::PrefixLen, Rel::Le, n as int),
        Expr::PrefixLenEq(n) => ExprModel::Num(NumField::PrefixLen, Rel::Eq, n as int),
        Expr::AsPathLenGt(n) => ExprModel::Num(NumField::AsPathLen, Rel::Gt, n as int),
        Expr::AsPathLenLt(n) => ExprModel::Num(NumField::AsPathLen, Rel::Lt, n as int),
        Expr::AsPathLenGe(n) => ExprModel::Num(NumField::AsPathLen, Rel::Ge, n as int),
        Expr::AsPathLenLe(n) => ExprModel::Num(NumField::AsPathLen, Rel::Le, n as int),
        Expr::AsPathLenEq(n) => ExprModel::Num(NumField::AsPathLen, Rel::Eq, n as int),
        Expr::LocalPrefGt(n) => ExprModel::Num(NumField::LocalPref, Rel::Gt, n as int),
        Expr::LocalPrefLt(n) => ExprModel::Num(NumField::LocalPref, Rel::Lt, n as int),
        Expr::LocalPrefEq(n) => ExprModel::Num(NumField::LocalPref, Rel::Eq, n as int),
        Expr::MedGt(n) => ExprModel::Num(NumField::Med, Rel::Gt, n as int),
        Expr::MedLt(n) => ExprModel::Num(NumField::Med, Rel::Lt, n as int),
        Expr::MedEq(n) => ExprModel::Num(NumField::Med, Rel::Eq, n as int),
        Expr::RpkiEq(v) => ExprModel::RpkiEq(v@),
        Expr::RpkiNe(v) => ExprModel::RpkiNe(v@),
        Expr::ActionEq(v) => ExprModel::ActionEq(v@),
        Expr::CommunityHas(v) => ExprModel::CommunityHas(v@),
        Expr::OriginAsIn(s) => ExprModel::OriginAsIn(s@),
        Expr::OriginAsNotIn(s) => ExprModel::OriginAsNotIn(s@),
        Expr::PeerAsIn(s) => ExprModel::PeerAsIn(s@),
        Expr::PeerAsNotIn(s) => ExprModel::PeerAsNotIn(s@),
        Expr::HasPrepend => ExprModel::HasPrepend,
        Expr::True => ExprModel::True,
        Expr::False => ExprModel::False,
    }
}

impl View for Expr {
    type V = ExprModel;

    open spec fn view(&self) -> ExprModel {
        expr_model(*self)
    }
}

/// Value of a numeric attribute; a missing LOCAL_PREF counts as 100 and a
/// missing MED as 0.
pub open spec fn num_of(f: NumField, c: RouteCtxModel) -> int {
    match f {
        NumField::PrefixLen => c.prefix_len as int,
        NumField::AsPathLen => c.as_path_len as int,
        NumField::LocalPref => match c.local_pref {
            Some(v) => v as int,
            None => 100,
        },
        NumField::Med => match c.med {
            Some(v) => v as int,
            None => 0,
        },
    }
}

pub open spec fn rel_holds(r: Rel, a: int, b: int) -> bool {
    match r {
        Rel::Gt => a > b,
        Rel::Lt => a < b,
        Rel::Ge => a >= b,
        Rel::Le => a <= b,
        Rel::Eq => a == b,
    }
}

/// Truth of an expression for a route.
pub open spec fn eval_model(e: ExprModel, c: RouteCtxModel) -> bool
    decreases e,
{
    match e {
        ExprModel::And(a, b) => eval_model(*a, c) && eval_model(*b, c),
        ExprModel::Or(a, b) => eval_model(*a, c) || eval_model(*b, c),
        ExprModel::Not(a) => !eval_model(*a, c),
        ExprModel::Num(f, r, n) => rel_holds(r, num_of(f, c), n),
        ExprModel::RpkiEq(v) => c.rpki == v,
        ExprModel::RpkiNe(v) => c.rpki != v,
        ExprModel::ActionEq(v) => c.action == v,
        ExprModel::CommunityHas(v) => c.communities.contains(v),
        ExprModel::OriginAsIn(s) => s.contains(c.origin_asn),
        ExprModel::OriginAsNotIn(s) => !s.contains(c.origin_asn),
        ExprModel::PeerAsIn(s) => s.contains(c.peer_as),
        ExprModel::PeerAsNotIn(s) => !s.contains(c.peer_as),
        ExprModel::HasPrepend => c.has_prepend,
        ExprModel::True => true,
        ExprModel::False => false,
    }
}

fn local_pref_or_default(ctx: &RouteCtx) -> (r: u32)
    ensures
        r == num_of(NumField::LocalPref, ctx@),
{
    match ctx.local_pref {
        Some(v) => v,
        None => 100,
    }
}

fn med_or_default(ctx: &RouteCtx) -> (r: u32)
    ensures
        r == num_of(NumField::Med, ctx@),
{
    match ctx.med {
        Some(v) => v,
        None => 0,
    }
}

/// Whether the community `c` is among `set`.
pub fn community_listed(set: &Vec<String>, c: &String) -> (r: bool)
    ensures
        r == strings_view(set@).contains(c@),
{
    let ghost m = strings_view(set@);
    let mut i: usize = 0;
    while i < set.len()
        invariant
            0 <= i <= set.len(),
            m == strings_view(set@),
            forall|j: int| 0 <= j < i ==> m[j] != c@,
        decreases set.len() - i,
    {
        if set[i] == *c {
            proof {
                assert(m[i as int] == c@);
            }
            return true;
        }
        i = i + 1;
    }
    proof {
        assert forall|j: int| 0 <= j < m.len() implies m[j] != c@ by {}
    }
    false
}

impl Expr {
    /// Evaluates the expression against a route context.
    pub fn eval(&self, ctx: &RouteCtx) -> (r: bool)
        ensures
            r == eval_model(self@, ctx@),
        decreases self,
    {
        match self {
            Expr::And(a, b) => a.eval(ctx) && b.eval(ctx),
            Expr::Or(a, b) => a.eval(ctx) || b.eval(ctx),
            Expr::Not(e) => !e.eval(ctx),
            Expr::PrefixLenGt(n) => ctx.prefix_len > *n,
            Expr::PrefixLenLt(n) => ctx.prefix_len < *n,
            Expr::PrefixLenGe(n) => ctx.prefix_len >= *n,
            Expr::PrefixLenLe(n) => ctx.prefix_len <= *n,
            Expr::PrefixLenEq(n) => ctx.prefix_len == *n,
            Expr::AsPathLenGt(n) => ctx.as_path_len > *n,
            Expr::AsPathLenLt(n) => ctx.as_path_len < *n,
            Expr::AsPathLenGe(n) => ctx.as_path_len >= *n,
            Expr::AsPathLenLe(n) => ctx.as_path_len <= *n,
            Expr::AsPathLenEq(n) => ctx.as_path_len == *n,
            Expr::LocalPrefGt(n) => local_pref_or_default(ctx) > *n,
            Expr::LocalPrefLt(n) => local_pref_or_default(ctx) < *n,
            Expr::LocalPrefEq(n) => local_pref_or_default(ctx) == *n,
            Expr::MedGt(n) => med_or_default(ctx) > *n,
            Expr::MedLt(n) => med_or_default(ctx) < *n,
            Expr::MedEq(n) => med_or_default(ctx) == *n,
            Expr::RpkiEq(v) => ctx.rpki == *v,
            Expr::RpkiNe(v) => !(ctx.rpki == *v),
            Expr::ActionEq(v) => ctx.action == *v,
            Expr::CommunityHas(c) => community_listed(&ctx.community_set, c),
            Expr::OriginAsIn(s) => s.contains(&ctx.origin_asn),
            Expr::OriginAsNotIn(s) => !s.contains(&ctx.origin_asn),
            Expr::PeerAsIn(s) => s.contains(&ctx.peer_as),
            Expr::PeerAsNotIn(s) => !s.contains(&ctx.peer_as),
            Expr::HasPrepend => ctx.has_prepend,
            Expr::True => true,
            Expr::False => false,
        }
    }
}

// ─── Lexical level ───────────────────────────────────────────────────────────

pub open spec fn is_word_char(c: char) -> bool {
    ||| ('a' <= c <= 'z')
    ||| ('A' <= c <= 'Z')
    ||| ('0' <= c <= '9')
    ||| c == '_'
}

/// First position at or after `p` that is not white space.
pub open spec fn skip_ws(s: Seq<char>, p: int) -> int
    decreases s.len() - p,
{
    if 0 <= p < s.len() && is_ws(s[p]) {
        skip_ws(s, p + 1)
    } else {
        p
    }
}

/// End of the run of word characters that starts at `p`.
pub open spec fn word_end(s: Seq<char>, p: int) -> int
    decreases s.len() - p,
{
    if 0 <= p < s.len() && is_word_char(s[p]) {
        word_end(s, p + 1)
    } else {
        p
    }
}

/// First position at or after `p` that holds the quote `q` (or the end).
pub open spec fn quote_end(s: Seq<char>, p: int, q: char) -> int
    decreases s.len() - p,
{
    if 0 <= p < s.len() && s[p] != q {
        quote_end(s, p + 1, q)
    } else {
        p
    }
}

pub proof fn lemma_skip_ws(s: Seq<char>, p: int)
    requires
        0 <= p <= s.len(),
    ensures
        p <= skip_ws(s, p) <= s.len(),
    decreases s.len() - p,
{
    if p < s.len() && is_ws(s[p]) {
        lemma_skip_ws(s, p + 1);
    }
}

pub proof fn lemma_word_end(s: Seq<char>, p: int)
    requires
        0 <= p <= s.len(),
    ensures
        p <= word_end(s, p) <= s.len(),
    decreases s.len() - p,
{
    if p < s.len() && is_word_char(s[p]) {
        lemma_word_end(s, p + 1);
    }
}

pub proof fn lemma_quote_end(s: Seq<char>, p: int, q: char)
    requires
        0 <= p <= s.len(),
    ensures
        p <= quote_end(s, p, q) <= s.len(),
        quote_end(s, p, q) < s.len() ==> s[quote_end(s, p, q)] == q,
        forall|k: int| p <= k < quote_end(s, p, q) ==> s[k] != q,
    decreases s.len() - p,
{
    if p < s.len() && s[p] != q {
        lemma_quote_end(s, p + 1, q);
    }
}

/// The word after white space at `p`, and the position after it.
pub open spec fn word_at(s: Seq<char>, p: int) -> (Seq<char>, int) {
    let q = skip_ws(s, p);
    let e = word_end(s, q);
    (s.subrange(q, e), e)
}

/// The position after the keyword `kw` found at `p`.
pub open spec fn keyword(s: Seq<char>, p: int, kw: Seq<char>) -> Option<int> {
    let (w, e) = word_at(s, p);
    if w.len() > 0 && w == kw {
        Some(e)
    } else {
        None
    }
}

/// The position after the character `c` found (after white space) at `p`.
pub open spec fn punct(s: Seq<char>, p: int, c: char) -> Option<int> {
    let q = skip_ws(s, p);
    if 0 <= q < s.len() && s[q] == c {
        Some(q + 1)
    } else {
        None
    }
}

/// Comparison operators as written; `=` and `==` mean the same.
#[derive(Clone, Copy, Debug)]
pub enum Op {
    Gt,
    Lt,
    Ge,
    Le,
    Eq,
    Ne,
}

pub open spec fn op_at(s: Seq<char>, p: int) -> Option<(Op, int)> {
    let q = skip_ws(s, p);
    if 0 <= q && q + 1 < s.len() && s[q + 1] == '=' && (s[q] == '>' || s[q] == '<' || s[q] == '='
        || s[q] == '!') {
        Some(
            (
                if s[q] == '>' {
                    Op::Ge
                } else if s[q] == '<' {
                    Op::Le
                } else if s[q] == '=' {
                    Op::Eq
                } else {
                    Op::Ne
                },
                q + 2,
            ),
        )
    } else if 0 <= q < s.len() && s[q] == '>' {
        Some((Op::Gt, q + 1))
    } else if 0 <= q < s.len() && s[q] == '<' {
        Some((Op::Lt, q + 1))
    } else if 0 <= q < s.len() && s[q] == '=' {
        Some((Op::Eq, q + 1))
    } else {
        None
    }
}

/// An integer token: its digits and the position after it.
pub open spec fn int_at(s: Seq<char>, p: int) -> Option<(Seq<char>, int)> {
    let (w, e) = word_at(s, p);
    if w.len() > 0 && all_digits(w) {
        Some((w, e))
    } else {
        None
    }
}

/// A quoted text token: its contents and the position after it.
pub open spec fn text_at(s: Seq<char>, p: int) -> Option<(Seq<char>, int)> {
    let q = skip_ws(s, p);
    if 0 <= q < s.len() && (s[q] == '\'' || s[q] == '"') {
        let e = quote_end(s, q + 1, s[q]);
        if e < s.len() {
            Some((s.subrange(q + 1, e), e + 1))
        } else {
            None
        }
    } else {
        None
    }
}

/// The right-hand side of a comparison.
pub enum ValueTok {
    Int(Seq<char>),
    Text(Seq<char>),
}

pub open spec fn value_at(s: Seq<char>, p: int) -> Option<(ValueTok, int)> {
    match int_at(s, p) {
        Some((d, e)) => Some((ValueTok::Int(d), e)),
        None => match text_at(s, p) {
            Some((t, e)) => Some((ValueTok::Text(t), e)),
            None => None,
        },
    }
}

// ─── Meaning of the leaves ───────────────────────────────────────────────────

/// The text a value stands for, quotes removed.
pub open spec fn value_text(v: ValueTok) -> Seq<char> {
    match v {
        ValueTok::Int(d) => d,
        ValueTok::Text(t) => t,
    }
}

/// The number a value stands for, when it is an integer no larger than `max`.
pub open spec fn value_num(v: ValueTok, max: int) -> Option<int> {
    match v {
        ValueTok::Int(d) => if dec_value(d) <= max {
            Some(dec_value(d) as int)
        } else {
            None
        },
        ValueTok::Text(_) => None,
    }
}

pub open spec fn rel_of(o: Op) -> Option<Rel> {
    match o {
        Op::Gt => Some(Rel::Gt),
        Op::Lt => Some(Rel::Lt),
        Op::Ge => Some(Rel::Ge),
        Op::Le => Some(Rel::Le),
        Op::Eq => Some(Rel::Eq),
        Op::Ne => None,
    }
}

/// `local_pref` and `med` take `>`, `<` and `=` only.
pub open spec fn strict_rel_of(o: Op) -> Option<Rel> {
    match o {
        Op::Gt => Some(Rel::Gt),
        Op::Lt => Some(Rel::Lt),
        Op::Eq => Some(Rel::Eq),
        _ => None,
    }
}

pub open spec fn num_leaf(f: NumField, r: Option<Rel>, n: Option<int>) -> Option<ExprModel> {
    match (r, n) {
        (Some(r), Some(n)) => Some(ExprModel::Num(f, r, n)),
        _ => None,
    }
}

/// Meaning of `field op value`, when the field takes that operator and value.
pub open spec fn comparison_model(f: Seq<char>, o: Op, v: ValueTok) -> Option<ExprModel> {
    if f == "prefix_len"@ {
        num_leaf(NumField::PrefixLen, rel_of(o), value_num(v, u8::MAX as int))
    } else if f == "as_path_len"@ {
        num_leaf(NumField::AsPathLen, rel_of(o), value_num(v, usize::MAX as int))
    } else if f == "local_pref"@ {
        num_leaf(NumField::LocalPref, strict_rel_of(o), value_num(v, u32::MAX as int))
    } else if f == "med"@ {
        num_leaf(NumField::Med, strict_rel_of(o), value_num(v, u32::MAX as int))
    } else if f == "rpki"@ {
        match o {
            Op::Eq => Some(ExprModel::RpkiEq(value_text(v))),
            Op::Ne => Some(ExprModel::RpkiNe(value_text(v))),
            _ => None,
        }
    } else if f == "action"@ {
        match o {
            Op::Eq => Some(ExprModel::ActionEq(value_text(v))),
            _ => None,
        }
    } else if f == "community"@ {
        match o {
            Op::Eq => Some(ExprModel::CommunityHas(value_text(v))),
            _ => None,
        }
    } else {
        None
    }
}

/// What the integer comparison `o` says of `a` and `b` (`!=` is not one).
pub open spec fn compares(o: Op, a: int, b: int) -> bool {
    match o {
        Op::Gt => a > b,
        Op::Lt => a < b,
        Op::Ge => a >= b,
        Op::Le => a <= b,
        Op::Eq => a == b,
        Op::Ne => false,
    }
}

/// `as_path_len o n` and `prefix_len o n`, for each operator but `!=` and
/// every integer `n` in range, hold of a route exactly when its AS_PATH
/// length (or prefix length) compares to `n` as the operator says; so
/// `as_path_len >= n` holds when the length is at least `n`, equal included.
pub proof fn lemma_length_comparisons(o: Op, d: Seq<char>, c: RouteCtxModel)
    requires
        o != Op::Ne,
    ensures
        dec_value(d) <= usize::MAX ==> {
            &&& comparison_model("as_path_len"@, o, ValueTok::Int(d)) is Some
            &&& eval_model(comparison_model("as_path_len"@, o, ValueTok::Int(d))->0, c) == compares(
                o,
                c.as_path_len as int,
                dec_value(d) as int,
            )
        },
        dec_value(d) <= u8::MAX ==> {
            &&& comparison_model("prefix_len"@, o, ValueTok::Int(d)) is Some
            &&& eval_model(comparison_model("prefix_len"@, o, ValueTok::Int(d))->0, c) == compares(
                o,
                c.prefix_len as int,
                dec_value(d) as int,
            )
        },
{
    reveal_strlit("prefix_len");
    reveal_strlit("as_path_len");
    assert("as_path_len"@ != "prefix_len"@) by {
        assert("as_path_len"@.len() != "prefix_len"@.len());
    }
}

proof fn lemma_word_to_end(s: Seq<char>, p: int)
    requires
        0 <= p <= s.len(),
        forall|k: int| p <= k < s.len() ==> is_word_char(#[trigger] s[k]),
    ensures
        word_end(s, p) == s.len(),
    decreases s.len() - p,
{
    if p < s.len() {
        lemma_word_to_end(s, p + 1);
    }
}

proof fn lemma_as_path_len_text_tokens(d: Seq<char>)
    requires
        d.len() > 0,
        all_digits(d),
    ensures
        ({
            let s = "as_path_len >= "@ + d;
            let n = s.len() as int;
            &&& n == 15 + d.len()
            &&& word_at(s, 0) == ("as_path_len"@, 11int)
            &&& keyword(s, 0, "NOT"@) is None
            &&& punct(s, 0, '(') is None
            &&& keyword(s, 11, "NOT"@) is None
            &&& keyword(s, 11, "IN"@) is None
            &&& op_at(s, 11) == Some((Op::Ge, 14int))
            &&& value_at(s, 14) == Some((ValueTok::Int(d), n))
            &&& skip_ws(s, n) == n
            &&& keyword(s, n, "AND"@) is None
            &&& keyword(s, n, "OR"@) is None
        }),
{
    reveal_strlit("as_path_len >= ");
    reveal_strlit("as_path_len");
    reveal_strlit("NOT");
    reveal_strlit("IN");
    reveal_strlit("AND");
    reveal_strlit("OR");
    let s = "as_path_len >= "@ + d;
    let n = s.len() as int;
    assert(s.subrange(0, 11) =~= "as_path_len"@);
    assert forall|k: int| 15 <= k < n implies is_word_char(#[trigger] s[k]) by {
        assert(s[k] == d[k - 15]);
        assert(is_digit(d[k - 15]));
    }
    assert(s.subrange(15, n) =~= d);
    assert(s[11] == ' ' && s[12] == '>' && s[13] == '=' && s[14] == ' ');
    assert(is_ws(' '));
    assert(!is_ws('a') && !is_ws('>'));
    assert(!is_ws(s[15])) by {
        assert(is_digit(d[0]));
    }
    assert(skip_ws(s, 0) == 0);
    assert(skip_ws(s, 11) == 12) by {
        reveal_with_fuel(skip_ws, 2);
    }
    assert(skip_ws(s, 14) == 15) by {
        reveal_with_fuel(skip_ws, 2);
    }
    assert(word_end(s, 0) == 11) by {
        reveal_with_fuel(word_end, 12);
    }
    assert(word_end(s, 12) == 12);
    lemma_word_to_end(s, 15);
    assert(skip_ws(s, n) == n);
    assert(word_end(s, n) == n);
    assert("as_path_len"@ != "NOT"@) by {
        assert("as_path_len"@.len() != "NOT"@.len());
    }
    assert(s.subrange(12, 12).len() == 0);
    assert(s.subrange(n, n).len() == 0);
}

/// The filter text `as_path_len >= n`, for every decimal integer `n` that
/// fits a `usize`, parses, and holds of a route exactly when the route's
/// AS_PATH length is at least `n` (equal included).
pub proof fn lemma_parsed_as_path_len_at_least(d: Seq<char>, c: RouteCtxModel)
    requires
        d.len() > 0,
        all_digits(d),
        dec_value(d) <= usize::MAX,
    ensures
        spec_parse_expr("as_path_len >= "@ + d) is Some,
        eval_model(spec_parse_expr("as_path_len >= "@ + d)->0, c) == (c.as_path_len >= dec_value(d)),
{
    lemma_as_path_len_text_tokens(d);
    reveal_strlit("as_path_len");
    reveal_strlit("prefix_len");
    let s = "as_path_len >= "@ + d;
    let n = s.len() as int;
    let f = "as_path_len"@;
    assert(f != "prefix_len"@) by {
        assert(f.len() != "prefix_len"@.len());
    }
    let m = ExprModel::Num(NumField::AsPathLen, Rel::Ge, dec_value(d) as int);
    assert(comparison_model(f, Op::Ge, ValueTok::Int(d)) == Some(m));
    assert(p_membership(s, 0) is None);
    assert(p_comparison(s, 0) == Some((m, n)));
    assert(p_leaf(s, 0) == Some((m, n)));
    assert(p_atom(s, 0) == Some((m, n)));
    assert(p_not(s, 0) == Some((m, n)));
    assert(and_tail(s, n, m) == Some((m, n)));
    assert(p_and(s, 0) == Some((m, n)));
    assert(or_tail(s, n, m) == Some((m, n)));
    assert(p_or(s, 0) == Some((m, n)));
    assert(spec_parse_expr(s) == Some(m));
}

/// `local_pref o n` and `med o n` for `>`, `<` and `=` compare the route's
/// LOCAL_PREF (100 when absent) or MED (0 when absent) with `n`.
pub proof fn lemma_attribute_comparisons(o: Op, d: Seq<char>, c: RouteCtxModel)
    requires
        o == Op::Gt || o == Op::Lt || o == Op::Eq,
        dec_value(d) <= u32::MAX,
    ensures
        comparison_model("local_pref"@, o, ValueTok::Int(d)) is Some,
        eval_model(comparison_model("local_pref"@, o, ValueTok::Int(d))->0, c) == compares(
            o,
            match c.local_pref {
                Some(v) => v as int,
                None => 100,
            },
            dec_value(d) as int,
        ),
        comparison_model("med"@, o, ValueTok::Int(d)) is Some,
        eval_model(comparison_model("med"@, o, ValueTok::Int(d))->0, c) == compares(
            o,
            match c.med {
                Some(v) => v as int,
                None => 0,
            },
            dec_value(d) as int,
        ),
{
    reveal_strlit("prefix_len");
    reveal_strlit("as_path_len");
    reveal_strlit("local_pref");
    reveal_strlit("med");
    assert("local_pref"@ != "prefix_len"@) by {
        assert("local_pref"@[0] != "prefix_len"@[0]);
    }
    assert("local_pref"@ != "as_path_len"@) by {
        assert("local_pref"@.len() != "as_path_len"@.len());
    }
    assert("med"@ != "prefix_len"@) by {
        assert("med"@.len() != "prefix_len"@.len());
    }
    assert("med"@ != "as_path_len"@) by {
        assert("med"@.len() != "as_path_len"@.len());
    }
    assert("med"@ != "local_pref"@) by {
        assert("med"@.len() != "local_pref"@.len());
    }
}

/// Meaning of `field [NOT] IN [...]`.
pub open spec fn membership_model(f: Seq<char>, negated: bool, set: Set<u32>) -> Option<ExprModel> {
    if f == "origin_as"@ {
        Some(
            if negated {
                ExprModel::OriginAsNotIn(set)
            } else {
                ExprModel::OriginAsIn(set)
            },
        )
    } else if f == "peer_as"@ {
        Some(
            if negated {
                ExprModel::PeerAsNotIn(set)
            } else {
                ExprModel::PeerAsIn(set)
            },
        )
    } else {
        None
    }
}

pub open spec fn flag_model(f: Seq<char>) -> Option<ExprModel> {
    if f == "has_prepend"@ {
        Some(ExprModel::HasPrepend)
    } else if f == "true"@ {
        Some(ExprModel::True)
    } else if f == "false"@ {
        Some(ExprModel::False)
    } else {
        None
    }
}

// ─── Syntax ──────────────────────────────────────────────────────────────────

/// The rest of an integer list after its first element: `("," integer)*`,
/// each integer added to `acc`.
pub open spec fn list_tail(s: Seq<char>, p: int, acc: Set<u32>) -> Option<(Set<u32>, int)>
    decreases s.len() - p,
{
    if p < 0 || p > s.len() {
        None
    } else {
        match punct(s, p, ',') {
            None => Some((acc, p)),
            Some(q) => match int_at(s, q) {
                None => None,
                Some((d, e)) => {
                    proof {
                        lemma_skip_ws(s, p);
                        lemma_skip_ws(s, q);
                        lemma_word_end(s, skip_ws(s, q));
                    }
                    if dec_value(d) <= u32::MAX {
                        list_tail(s, e, acc.insert(dec_value(d) as u32))
                    } else {
                        None
                    }
                },
            },
        }
    }
}

pub open spec fn p_membership(s: Seq<char>, p: int) -> Option<(ExprModel, int)> {
    let (f, e0) = word_at(s, p);
    let (negated, e1) = match keyword(s, e0, "NOT"@) {
        Some(e) => (true, e),
        None => (false, e0),
    };
    if f.len() == 0 {
        None
    } else {
        match keyword(s, e1, "IN"@) {
            None => None,
            Some(e2) => match punct(s, e2, '[') {
                None => None,
                Some(e3) => match int_at(s, e3) {
                    None => None,
                    Some((d, e4)) => if dec_value(d) > u32::MAX {
                        None
                    } else {
                        match list_tail(s, e4, Set::empty().insert(dec_value(d) as u32)) {
                            None => None,
                            Some((set, e5)) => match punct(s, e5, ']') {
                                None => None,
                                Some(e6) => match membership_model(f, negated, set) {
                                    Some(m) => Some((m, e6)),
                                    None => None,
                                },
                            },
                        }
                    },
                },
            },
        }
    }
}

pub open spec fn p_comparison(s: Seq<char>, p: int) -> Option<(ExprModel, int)> {
    let (f, e0) = word_at(s, p);
    if f.len() == 0 {
        None
    } else {
        match op_at(s, e0) {
            None => None,
            Some((o, e1)) => match value_at(s, e1) {
                None => None,
                Some((v, e2)) => match comparison_model(f, o, v) {
                    Some(m) => Some((m, e2)),
                    None => None,
                },
            },
        }
    }
}

pub open spec fn p_flag(s: Seq<char>, p: int) -> Option<(ExprModel, int)> {
    let (f, e) = word_at(s, p);
    match flag_model(f) {
        Some(m) => Some((m, e)),
        None => None,
    }
}

/// `membership | comparison | flag`, the first that applies.
pub open spec fn p_leaf(s: Seq<char>, p: int) -> Option<(ExprModel, int)> {
    match p_membership(s, p) {
        Some(r) => Some(r),
        None => match p_comparison(s, p) {
            Some(r) => Some(r),
            None => p_flag(s, p),
        },
    }
}

pub open spec fn p_or(s: Seq<char>, p: int) -> Option<(ExprModel, int)>
    decreases s.len() - p, 6int,
{
    if p < 0 || p > s.len() {
        None
    } else {
        match p_and(s, p) {
            None => None,
            Some((e, q)) => if p <= q <= s.len() {
                or_tail(s, q, e)
            } else {
                None
            },
        }
    }
}

pub open spec fn or_tail(s: Seq<char>, p: int, acc: ExprModel) -> Option<(ExprModel, int)>
    decreases s.len() - p, 5int,
{
    if p < 0 || p > s.len() {
        None
    } else {
        match keyword(s, p, "OR"@) {
            None => Some((acc, p)),
            Some(q) => {
                proof {
                    lemma_skip_ws(s, p);
                    lemma_word_end(s, skip_ws(s, p));
                }
                match p_and(s, q) {
                    None => None,
                    Some((e, r)) => if q <= r <= s.len() {
                        or_tail(s, r, ExprModel::Or(Box::new(acc), Box::new(e)))
                    } else {
                        None
                    },
                }
            },
        }
    }
}

pub open spec fn p_and(s: Seq<char>, p: int) -> Option<(ExprModel, int)>
    decreases s.len() - p, 4int,
{
    if p < 0 || p > s.len() {
        None
    } else {
        match p_not(s, p) {
            None => None,
            Some((e, q)) => if p <= q <= s.len() {
                and_tail(s, q, e)
            } else {
                None
            },
        }
    }
}

pub open spec fn and_tail(s: Seq<char>, p: int, acc: ExprModel) -> Option<(ExprModel, int)>
    decreases s.len() - p, 3int,
{
    if p < 0 || p > s.len() {
        None
    } else {
        match keyword(s, p, "AND"@) {
            None => Some((acc, p)),
            Some(q) => {
                proof {
                    lemma_skip_ws(s, p);
                    lemma_word_end(s, skip_ws(s, p));
                }
                match p_not(s, q) {
                    None => None,
                    Some((e, r)) => if q <= r <= s.len() {
                        and_tail(s, r, ExprModel::And(Box::new(acc), Box::new(e)))
                    } else {
                        None
                    },
                }
            },
        }
    }
}

pub open spec fn p_not(s: Seq<char>, p: int) -> Option<(ExprModel, int)>
    decreases s.len() - p, 2int,
{
    if p < 0 || p > s.len() {
        None
    } else {
        match keyword(s, p, "NOT"@) {
            Some(q) => {
                proof {
                    lemma_skip_ws(s, p);
                    lemma_word_end(s, skip_ws(s, p));
                }
                match p_atom(s, q) {
                    Some((e, r)) => Some((ExprModel::Not(Box::new(e)), r)),
                    None => None,
                }
            },
            None => p_atom(s, p),
        }
    }
}

pub open spec fn p_atom(s: Seq<char>, p: int) -> Option<(ExprModel, int)>
    decreases s.len() - p, 1int,
{
    if p < 0 || p > s.len() {
        None
    } else {
        match punct(s, p, '(') {
            Some(q) => {
                proof {
                    lemma_skip_ws(s, p);
                }
                match p_or(s, q) {
                    Some((e, r)) => match punct(s, r, ')') {
                        Some(t) => Some((e, t)),
                        None => None,
                    },
                    None => None,
                }
            },
            None => p_leaf(s, p),
        }
    }
}

/// Meaning of a whole filter expression, `None` where the text is not one.
pub open spec fn spec_parse_expr(s: Seq<char>) -> Option<ExprModel> {
    match p_or(s, 0) {
        Some((e, q)) => if skip_ws(s, q) == s.len() {
            Some(e)
        } else {
            None
        },
        None => None,
    }
}


// ─── Executable lexer ────────────────────────────────────────────────────────

fn word_char(c: char) -> (r: bool)
    ensures
        r == is_word_char(c),
{
    ('a' <= c && c <= 'z') || ('A' <= c && c <= 'Z') || ('0' <= c && c <= '9') || c == '_'
}

fn skip_ws_at(s: &Vec<char>, p: usize) -> (r: usize)
    requires
        p <= s.len(),
    ensures
        r == skip_ws(s@, p as int),
        p <= r <= s.len(),
{
    let mut i: usize = p;
    while i < s.len() && char_is_ws(s[i])
        invariant
            p <= i <= s.len(),
            skip_ws(s@, i as int) == skip_ws(s@, p as int),
        decreases s.len() - i,
    {
        i = i + 1;
    }
    i
}

fn word_end_at(s: &Vec<char>, p: usize) -> (r: usize)
    requires
        p <= s.len(),
    ensures
        r == word_end(s@, p as int),
        p <= r <= s.len(),
{
    let mut i: usize = p;
    while i < s.len() && word_char(s[i])
        invariant
            p <= i <= s.len(),
            word_end(s@, i as int) == word_end(s@, p as int),
        decreases s.len() - i,
    {
        i = i + 1;
    }
    i
}

fn quote_end_at(s: &Vec<char>, p: usize, q: char) -> (r: usize)
    requires
        p <= s.len(),
    ensures
        r == quote_end(s@, p as int, q),
        p <= r <= s.len(),
{
    let mut i: usize = p;
    while i < s.len() && s[i] != q
        invariant
            p <= i <= s.len(),
            quote_end(s@, i as int, q) == quote_end(s@, p as int, q),
        decreases s.len() - i,
    {
        i = i + 1;
    }
    i
}

/// The bounds `(start, end)` of the word after white space at `p`.
fn word_bounds(s: &Vec<char>, p: usize) -> (r: (usize, usize))
    requires
        p <= s.len(),
    ensures
        r.0 == skip_ws(s@, p as int),
        r.1 == word_end(s@, r.0 as int),
        word_at(s@, p as int) == (s@.subrange(r.0 as int, r.1 as int), r.1 as int),
        p <= r.0 <= r.1 <= s.len(),
{
    let q = skip_ws_at(s, p);
    let e = word_end_at(s, q);
    (q, e)
}

pub open spec fn opt_pos(r: Option<usize>) -> Option<int> {
    match r {
        Some(e) => Some(e as int),
        None => None,
    }
}

fn keyword_at(s: &Vec<char>, p: usize, kw: &str) -> (r: Option<usize>)
    requires
        p <= s.len(),
    ensures
        opt_pos(r) == keyword(s@, p as int, kw@),
        r matches Some(e) ==> p < e <= s.len(),
{
    let (q, e) = word_bounds(s, p);
    if e > q && chars_match(s, q, e, kw) {
        Some(e)
    } else {
        None
    }
}

fn punct_at(s: &Vec<char>, p: usize, c: char) -> (r: Option<usize>)
    requires
        p <= s.len(),
    ensures
        opt_pos(r) == punct(s@, p as int, c),
        r matches Some(e) ==> p < e <= s.len(),
{
    let q = skip_ws_at(s, p);
    if q < s.len() && s[q] == c {
        Some(q + 1)
    } else {
        None
    }
}

fn op_at_exec(s: &Vec<char>, p: usize) -> (r: Option<(Op, usize)>)
    requires
        p <= s.len(),
    ensures
        match r {
            Some((o, e)) => op_at(s@, p as int) == Some((o, e as int)) && p < e <= s.len(),
            None => op_at(s@, p as int) is None,
        },
{
    let q = skip_ws_at(s, p);
    if q < s.len() && q + 1 < s.len() && s[q + 1] == '=' && (s[q] == '>' || s[q] == '<' || s[q] == '=' || s[q]
        == '!') {
        let o = if s[q] == '>' {
            Op::Ge
        } else if s[q] == '<' {
            Op::Le
        } else if s[q] == '=' {
            Op::Eq
        } else {
            Op::Ne
        };
        Some((o, q + 2))
    } else if q < s.len() && s[q] == '>' {
        Some((Op::Gt, q + 1))
    } else if q < s.len() && s[q] == '<' {
        Some((Op::Lt, q + 1))
    } else if q < s.len() && s[q] == '=' {
        Some((Op::Eq, q + 1))
    } else {
        None
    }
}

fn all_digits_in(s: &Vec<char>, a: usize, b: usize) -> (r: bool)
    requires
        a <= b <= s.len(),
    ensures
        r == all_digits(s@.subrange(a as int, b as int)),
{
    let mut i: usize = a;
    while i < b
        invariant
            a <= i <= b <= s.len(),
            forall|k: int| a <= k < i ==> is_digit(#[trigger] s@[k]),
        decreases b - i,
    {
        if !('0' <= s[i] && s[i] <= '9') {
            proof {
                assert(!is_digit(s@.subrange(a as int, b as int)[i - a]));
            }
            return false;
        }
        i = i + 1;
    }
    proof {
        assert forall|k: int| 0 <= k < b - a implies is_digit(
            #[trigger] s@.subrange(a as int, b as int)[k],
        ) by {
            assert(s@.subrange(a as int, b as int)[k] == s@[a + k]);
        }
    }
    true
}

/// Bounds of the integer token at `p`.
fn int_at_exec(s: &Vec<char>, p: usize) -> (r: Option<(usize, usize)>)
    requires
        p <= s.len(),
    ensures
        match r {
            Some((q, e)) => int_at(s@, p as int) == Some((s@.subrange(q as int, e as int), e as int))
                && p <= q < e <= s.len(),
            None => int_at(s@, p as int) is None,
        },
{
    let (q, e) = word_bounds(s, p);
    if e > q && all_digits_in(s, q, e) {
        Some((q, e))
    } else {
        None
    }
}

/// Bounds `(start, end)` of the contents of the quoted text at `p`, and the
/// position after its closing quote.
fn text_at_exec(s: &Vec<char>, p: usize) -> (r: Option<(usize, usize, usize)>)
    requires
        p <= s.len(),
    ensures
        match r {
            Some((a, b, e)) => text_at(s@, p as int) == Some(
                (s@.subrange(a as int, b as int), e as int),
            ) && p <= a <= b < e <= s.len(),
            None => text_at(s@, p as int) is None,
        },
{
    let q = skip_ws_at(s, p);
    if q < s.len() && (s[q] == '\'' || s[q] == '"') {
        let e = quote_end_at(s, q + 1, s[q]);
        if e < s.len() {
            Some((q + 1, e, e + 1))
        } else {
            None
        }
    } else {
        None
    }
}

pub open spec fn value_of(s: Seq<char>, is_int: bool, a: int, b: int) -> ValueTok {
    if is_int {
        ValueTok::Int(s.subrange(a, b))
    } else {
        ValueTok::Text(s.subrange(a, b))
    }
}

/// The value at `p`: whether it is an integer, the bounds of its digits or
/// text, and the position after it.
fn value_at_exec(s: &Vec<char>, p: usize) -> (r: Option<(bool, usize, usize, usize)>)
    requires
        p <= s.len(),
    ensures
        match r {
            Some((i, a, b, e)) => value_at(s@, p as int) == Some(
                (value_of(s@, i, a as int, b as int), e as int),
            ) && a <= b <= s.len() && p < e <= s.len() && (i ==> all_digits(
                s@.subrange(a as int, b as int),
            )),
            None => value_at(s@, p as int) is None,
        },
{
    match int_at_exec(s, p) {
        Some((a, b)) => Some((true, a, b, b)),
        None => match text_at_exec(s, p) {
            Some((a, b, e)) => Some((false, a, b, e)),
            None => None,
        },
    }
}

/// Value of the digits `s[a..b]`, when it is at most `max`.
fn digits_value(s: &Vec<char>, a: usize, b: usize, max: u64) -> (r: Option<u64>)
    requires
        a <= b <= s.len(),
        all_digits(s@.subrange(a as int, b as int)),
    ensures
        match r {
            Some(v) => v == dec_value(s@.subrange(a as int, b as int)) && v <= max,
            None => dec_value(s@.subrange(a as int, b as int)) > max,
        },
{
    let mut v: u64 = 0;
    let mut i: usize = a;
    proof {
        assert(s@.subrange(a as int, a as int) =~= Seq::<char>::empty());
    }
    while i < b
        invariant
            a <= i <= b <= s.len(),
            all_digits(s@.subrange(a as int, b as int)),
            v == dec_value(s@.subrange(a as int, i as int)),
            v <= max,
        decreases b - i,
    {
        let c = s[i];
        proof {
            assert(s@.subrange(a as int, b as int)[i - a] == c);
            assert(is_digit(c));
            lemma_dec_value_grows(s@.subrange(a as int, i as int), c);
            assert(s@.subrange(a as int, i + 1) =~= s@.subrange(a as int, i as int).push(c));
        }
        let d: u64 = (c as u32 - '0' as u32) as u64;
        if d > max || v > (max - d) / 10 {
            proof {
                assert(v * 10 + d > max) by (nonlinear_arith)
                    requires
                        d > max || v > (max - d) / 10,
                        d <= 9,
                ;
                lemma_dec_value_monotone(s@, a as int, i + 1, b as int);
            }
            return None;
        }
        proof {
            assert(v * 10 + d <= max) by (nonlinear_arith)
                requires
                    d <= max,
                    v <= (max - d) / 10,
            ;
        }
        v = v * 10 + d;
        i = i + 1;
    }
    Some(v)
}

/// A longer run of digits has a value at least as large.
proof fn lemma_dec_value_monotone(s: Seq<char>, a: int, i: int, b: int)
    requires
        0 <= a <= i <= b <= s.len(),
        all_digits(s.subrange(a, b)),
    ensures
        dec_value(s.subrange(a, i)) <= dec_value(s.subrange(a, b)),
    decreases b - i,
{
    if i < b {
        assert(s.subrange(a, b)[i - a] == s[i]);
        lemma_dec_value_grows(s.subrange(a, i), s[i]);
        assert(s.subrange(a, i + 1) =~= s.subrange(a, i).push(s[i]));
        lemma_dec_value_monotone(s, a, i + 1, b);
    }
}


// ─── Executable parser ───────────────────────────────────────────────────────

pub open spec fn opt_model(r: Option<Expr>) -> Option<ExprModel> {
    match r {
        Some(e) => Some(e@),
        None => None,
    }
}

pub open spec fn pv(r: Option<(Expr, usize)>) -> Option<(ExprModel, int)> {
    match r {
        Some((e, q)) => Some((e@, q as int)),
        None => None,
    }
}

/// The expression for `field op value`, with the field at `s[fa..fb]` and the
/// value at `s[va..vb]`.
fn build_comparison(
    s: &Vec<char>,
    fa: usize,
    fb: usize,
    o: Op,
    is_int: bool,
    va: usize,
    vb: usize,
) -> (r: Option<Expr>)
    requires
        fa <= fb <= s.len(),
        va <= vb <= s.len(),
        is_int ==> all_digits(s@.subrange(va as int, vb as int)),
    ensures
        opt_model(r) == comparison_model(
            s@.subrange(fa as int, fb as int),
            o,
            value_of(s@, is_int, va as int, vb as int),
        ),
{
    let ghost v = value_of(s@, is_int, va as int, vb as int);
    if chars_match(s, fa, fb, "prefix_len") {
        if !is_int {
            return None;
        }
        match digits_value(s, va, vb, 255) {
            None => None,
            Some(n) => {
                let n = n as u8;
                match o {
                    Op::Gt => Some(Expr::PrefixLenGt(n)),
                    Op::Lt => Some(Expr::PrefixLenLt(n)),
                    Op::Ge => Some(Expr::PrefixLenGe(n)),
                    Op::Le => Some(Expr::PrefixLenLe(n)),
                    Op::Eq => Some(Expr::PrefixLenEq(n)),
                    Op::Ne => None,
                }
            },
        }
    } else if chars_match(s, fa, fb, "as_path_len") {
        if !is_int {
            return None;
        }
        match digits_value(s, va, vb, usize::MAX as u64) {
            None => None,
            Some(n) => {
                let n = n as usize;
                match o {
                    Op::Gt => Some(Expr::AsPathLenGt(n)),
                    Op::Lt => Some(Expr::AsPathLenLt(n)),
                    Op::Ge => Some(Expr::AsPathLenGe(n)),
                    Op::Le => Some(Expr::AsPathLenLe(n)),
                    Op::Eq => Some(Expr::AsPathLenEq(n)),
                    Op::Ne => None,
                }
            },
        }
    } else if chars_match(s, fa, fb, "local_pref") {
        if !is_int {
            return None;
        }
        match digits_value(s, va, vb, 0xffff_ffff) {
            None => None,
            Some(n) => {
                let n = n as u32;
                match o {
                    Op::Gt => Some(Expr::LocalPrefGt(n)),
                    Op::Lt => Some(Expr::LocalPrefLt(n)),
                    Op::Eq => Some(Expr::LocalPrefEq(n)),
                    _ => None,
                }
            },
        }
    } else if chars_match(s, fa, fb, "med") {
        if !is_int {
            return None;
        }
        match digits_value(s, va, vb, 0xffff_ffff) {
            None => None,
            Some(n) => {
                let n = n as u32;
                match o {
                    Op::Gt => Some(Expr::MedGt(n)),
                    Op::Lt => Some(Expr::MedLt(n)),
                    Op::Eq => Some(Expr::MedEq(n)),
                    _ => None,
                }
            },
        }
    } else if chars_match(s, fa, fb, "rpki") {
        match o {
            Op::Eq => Some(Expr::RpkiEq(chars_to_string(s, va, vb))),
            Op::Ne => Some(Expr::RpkiNe(chars_to_string(s, va, vb))),
            _ => None,
        }
    } else if chars_match(s, fa, fb, "action") {
        match o {
            Op::Eq => Some(Expr::ActionEq(chars_to_string(s, va, vb))),
            _ => None,
        }
    } else if chars_match(s, fa, fb, "community") {
        match o {
            Op::Eq => Some(Expr::CommunityHas(chars_to_string(s, va, vb))),
            _ => None,
        }
    } else {
        None
    }
}

/// `("," integer)*` at `p`, each integer added to `acc`.
fn list_tail_exec(s: &Vec<char>, p: usize, acc: HashSet<u32>) -> (r: Option<(HashSet<u32>, usize)>)
    requires
        p <= s.len(),
    ensures
        match r {
            Some((set, e)) => list_tail(s@, p as int, acc@) == Some((set@, e as int)) && p <= e
                <= s.len(),
            None => list_tail(s@, p as int, acc@) is None,
        },
    decreases s.len() - p,
{
    match punct_at(s, p, ',') {
        None => Some((acc, p)),
        Some(q) => match int_at_exec(s, q) {
            None => None,
            Some((a, e)) => match digits_value(s, a, e, 0xffff_ffff) {
                None => None,
                Some(n) => {
                    let mut acc = acc;
                    acc.insert(n as u32);
                    list_tail_exec(s, e, acc)
                },
            },
        },
    }
}

fn p_membership_exec(s: &Vec<char>, p: usize) -> (r: Option<(Expr, usize)>)
    requires
        p <= s.len(),
    ensures
        pv(r) == p_membership(s@, p as int),
        r matches Some((_, e)) ==> p <= e <= s.len(),
{
    let (fa, fb) = word_bounds(s, p);
    let (negated, e1) = match keyword_at(s, fb, "NOT") {
        Some(e) => (true, e),
        None => (false, fb),
    };
    if fa == fb {
        return None;
    }
    let e2 = match keyword_at(s, e1, "IN") {
        Some(e) => e,
        None => {
            return None;
        },
    };
    let e3 = match punct_at(s, e2, '[') {
        Some(e) => e,
        None => {
            return None;
        },
    };
    let (a, e4) = match int_at_exec(s, e3) {
        Some(x) => x,
        None => {
            return None;
        },
    };
    let first = match digits_value(s, a, e4, 0xffff_ffff) {
        Some(n) => n as u32,
        None => {
            return None;
        },
    };
    let mut set: HashSet<u32> = HashSet::new();
    set.insert(first);
    proof {
        assert(set@ =~= Set::<u32>::empty().insert(first));
    }
    let (set, e5) = match list_tail_exec(s, e4, set) {
        Some(x) => x,
        None => {
            return None;
        },
    };
    let e6 = match punct_at(s, e5, ']') {
        Some(e) => e,
        None => {
            return None;
        },
    };
    if chars_match(s, fa, fb, "origin_as") {
        if negated {
            Some((Expr::OriginAsNotIn(set), e6))
        } else {
            Some((Expr::OriginAsIn(set), e6))
        }
    } else if chars_match(s, fa, fb, "peer_as") {
        if negated {
            Some((Expr::PeerAsNotIn(set), e6))
        } else {
            Some((Expr::PeerAsIn(set), e6))
        }
    } else {
        None
    }
}

fn p_comparison_exec(s: &Vec<char>, p: usize) -> (r: Option<(Expr, usize)>)
    requires
        p <= s.len(),
    ensures
        pv(r) == p_comparison(s@, p as int),
        r matches Some((_, e)) ==> p <= e <= s.len(),
{
    let (fa, fb) = word_bounds(s, p);
    if fa == fb {
        return None;
    }
    match op_at_exec(s, fb) {
        None => None,
        Some((o, e1)) => match value_at_exec(s, e1) {
            None => None,
            Some((is_int, va, vb, e2)) => match build_comparison(s, fa, fb, o, is_int, va, vb) {
                Some(m) => Some((m, e2)),
                None => None,
            },
        },
    }
}

fn p_flag_exec(s: &Vec<char>, p: usize) -> (r: Option<(Expr, usize)>)
    requires
        p <= s.len(),
    ensures
        pv(r) == p_flag(s@, p as int),
        r matches Some((_, e)) ==> p <= e <= s.len(),
{
    let (fa, fb) = word_bounds(s, p);
    if chars_match(s, fa, fb, "has_prepend") {
        Some((Expr::HasPrepend, fb))
    } else if chars_match(s, fa, fb, "true") {
        Some((Expr::True, fb))
    } else if chars_match(s, fa, fb, "false") {
        Some((Expr::False, fb))
    } else {
        None
    }
}

fn p_leaf_exec(s: &Vec<char>, p: usize) -> (r: Option<(Expr, usize)>)
    requires
        p <= s.len(),
    ensures
        pv(r) == p_leaf(s@, p as int),
        r matches Some((_, e)) ==> p <= e <= s.len(),
{
    match p_membership_exec(s, p) {
        Some(x) => Some(x),
        None => match p_comparison_exec(s, p) {
            Some(x) => Some(x),
            None => p_flag_exec(s, p),
        },
    }
}

fn p_or_exec(s: &Vec<char>, p: usize) -> (r: Option<(Expr, usize)>)
    requires
        p <= s.len(),
    ensures
        pv(r) == p_or(s@, p as int),
        r matches Some((_, e)) ==> p <= e <= s.len(),
    decreases s.len() - p, 6int,
{
    match p_and_exec(s, p) {
        None => None,
        Some((e, q)) => or_tail_exec(s, q, e),
    }
}

fn or_tail_exec(s: &Vec<char>, p: usize, acc: Expr) -> (r: Option<(Expr, usize)>)
    requires
        p <= s.len(),
    ensures
        pv(r) == or_tail(s@, p as int, acc@),
        r matches Some((_, e)) ==> p <= e <= s.len(),
    decreases s.len() - p, 5int,
{
    match keyword_at(s, p, "OR") {
        None => Some((acc, p)),
        Some(q) => match p_and_exec(s, q) {
            None => None,
            Some((e, r)) => or_tail_exec(s, r, Expr::Or(Box::new(acc), Box::new(e))),
        },
    }
}

fn p_and_exec(s: &Vec<char>, p: usize) -> (r: Option<(Expr, usize)>)
    requires
        p <= s.len(),
    ensures
        pv(r) == p_and(s@, p as int),
        r matches Some((_, e)) ==> p <= e <= s.len(),
    decreases s.len() - p, 4int,
{
    match p_not_exec(s, p) {
        None => None,
        Some((e, q)) => and_tail_exec(s, q, e),
    }
}

fn and_tail_exec(s: &Vec<char>, p: usize, acc: Expr) -> (r: Option<(Expr, usize)>)
    requires
        p <= s.len(),
    ensures
        pv(r) == and_tail(s@, p as int, acc@),
        r matches Some((_, e)) ==> p <= e <= s.len(),
    decreases s.len() - p, 3int,
{
    match keyword_at(s, p, "AND") {
        None => Some((acc, p)),
        Some(q) => match p_not_exec(s, q) {
            None => None,
            Some((e, r)) => and_tail_exec(s, r, Expr::And(Box::new(acc), Box::new(e))),
        },
    }
}

fn p_not_exec(s: &Vec<char>, p: usize) -> (r: Option<(Expr, usize)>)
    requires
        p <= s.len(),
    ensures
        pv(r) == p_not(s@, p as int),
        r matches Some((_, e)) ==> p <= e <= s.len(),
    decreases s.len() - p, 2int,
{
    match keyword_at(s, p, "NOT") {
        Some(q) => match p_atom_exec(s, q) {
            Some((e, r)) => Some((Expr::Not(Box::new(e)), r)),
            None => None,
        },
        None => p_atom_exec(s, p),
    }
}

fn p_atom_exec(s: &Vec<char>, p: usize) -> (r: Option<(Expr, usize)>)
    requires
        p <= s.len(),
    ensures
        pv(r) == p_atom(s@, p as int),
        r matches Some((_, e)) ==> p <= e <= s.len(),
    decreases s.len() - p, 1int,
{
    match punct_at(s, p, '(') {
        Some(q) => match p_or_exec(s, q) {
            Some((e, r)) => match punct_at(s, r, ')') {
                Some(t) => Some((e, t)),
                None => None,
            },
            None => None,
        },
        None => p_leaf_exec(s, p),
    }
}

/// The error of a text that is not a filter expression, or that names a
/// field, operator or value the language does not have.
#[derive(Debug)]
pub struct FilterExprError;

/// Parses a filter expression into its compiled form.
pub fn parse_expr(input: &str) -> (r: Result<Expr, FilterExprError>)
    ensures
        match r {
            Ok(e) => spec_parse_expr(input@) == Some(e@),
            Err(_) => spec_parse_expr(input@) is None,
        },
{
    let s = collect_chars(input);
    match p_or_exec(&s, 0) {
        Some((e, q)) => if skip_ws_at(&s, q) == s.len() {
            Ok(e)
        } else {
            Err(FilterExprError)
        },
        None => Err(FilterExprError),
    }
}

} // verus!
