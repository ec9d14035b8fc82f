//! ASPA (Autonomous System Provider Authorization) path validation, after
//! RFC 9319: every AS of the path that has an ASPA record must list the AS
//! before it (closer to the receiver) as one of its providers.

use vstd::prelude::*;
use std::collections::{HashMap, HashSet};
use std::str::Chars;
use vstd::std_specs::iter::IteratorSpec;

verus! {

broadcast use {vstd::std_specs::hash::group_hash_axioms, vstd::string::group_string_axioms};

/// One ASPA record: a customer AS and the providers it authorizes.
#[derive(Clone, Debug)]
pub struct AspaRecord {
    pub customer_asn: u32,
    pub provider_asns: Vec<u32>,
}

/// ASPA table: customer ASN to the set of its authorized providers.
#[derive(Clone, Debug)]
pub struct AspaTable {
    records: HashMap<u32, HashSet<u32>>,
}

impl View for AspaTable {
    type V = Map<u32, Set<u32>>;

    closed spec fn view(&self) -> Map<u32, Set<u32>> {
        self.records@.map_values(|s: HashSet<u32>| s@)
    }
}

/// `m` after merging the providers `ps` into the record of `c`.
pub open spec fn merge_record(m: Map<u32, Set<u32>>, c: u32, ps: Seq<u32>) -> Map<u32, Set<u32>> {
    let old_set = if m.contains_key(c) {
        m[c]
    } else {
        Set::<u32>::empty()
    };
    m.insert(c, old_set.union(ps.to_set()))
}

/// The table built by merging `recs` one after another into an empty table.
pub open spec fn load_records(recs: Seq<AspaRecord>) -> Map<u32, Set<u32>>
    decreases recs.len(),
{
    if recs.len() == 0 {
        Map::empty()
    } else {
        let r = recs.last();
        merge_record(load_records(recs.drop_last()), r.customer_asn, r.provider_asns@)
    }
}

/// The customers that have a record in `recs`.
pub open spec fn customers_of(recs: Seq<AspaRecord>) -> Set<u32> {
    recs.map_values(|r: AspaRecord| r.customer_asn).to_set()
}

/// The union of the providers of the records of `recs` for customer `c`.
pub open spec fn providers_for(recs: Seq<AspaRecord>, c: u32) -> Set<u32>
    decreases recs.len(),
{
    if recs.len() == 0 {
        Set::empty()
    } else {
        let r = recs.last();
        let before = providers_for(recs.drop_last(), c);
        if r.customer_asn == c {
            before.union(r.provider_asns@.to_set())
        } else {
            before
        }
    }
}

/// Upserting a record merges its providers into its customer's set (an
/// empty set for a new customer), leaves every other customer as it was,
/// and adds one record exactly when the customer is new.
pub proof fn lemma_upsert_law(before: Map<u32, Set<u32>>, record: AspaRecord)
    requires
        before.dom().finite(),
    ensures
        ({
            let c = record.customer_asn;
            let after = merge_record(before, c, record.provider_asns@);
            &&& after.contains_key(c)
            &&& after[c] == (if before.contains_key(c) {
                before[c]
            } else {
                Set::<u32>::empty()
            }).union(record.provider_asns@.to_set())
            &&& forall|x: u32|
                x != c ==> (#[trigger] after.contains_key(x) == before.contains_key(x)) && (
                before.contains_key(x) ==> after[x] == before[x])
            &&& after.dom().finite()
            &&& after.len() == before.len() + (if before.contains_key(c) {
                0int
            } else {
                1int
            })
        }),
{
    let c = record.customer_asn;
    let after = merge_record(before, c, record.provider_asns@);
    assert(after.dom() =~= before.dom().insert(c));
}

/// Loading records builds a table with one record per customer named in
/// them, holding the union of the providers of all its records; its size is
/// the number of distinct customers, and nothing loaded before remains.
pub proof fn lemma_load_law(recs: Seq<AspaRecord>)
    ensures
        load_records(recs).dom() == customers_of(recs),
        forall|c: u32| #[trigger]
            customers_of(recs).contains(c) ==> load_records(recs)[c] == providers_for(recs, c),
        load_records(recs).dom().finite(),
        load_records(recs).len() == customers_of(recs).len(),
    decreases recs.len(),
{
    if recs.len() == 0 {
        assert(load_records(recs).dom() =~= customers_of(recs));
    } else {
        let prev = recs.drop_last();
        let r = recs.last();
        lemma_load_law(prev);
        let m = load_records(prev);
        lemma_upsert_law(m, r);
        let ids = recs.map_values(|x: AspaRecord| x.customer_asn);
        let prev_ids = prev.map_values(|x: AspaRecord| x.customer_asn);
        assert(ids =~= prev_ids.push(r.customer_asn));
        assert(customers_of(recs) =~= customers_of(prev).insert(r.customer_asn)) by {
            assert forall|x: u32| ids.contains(x) <==> prev_ids.contains(x) || x == r.customer_asn by {
                if ids.contains(x) {
                    let k = choose|k: int| 0 <= k < ids.len() && ids[k] == x;
                    if k < prev_ids.len() {
                        assert(prev_ids[k] == x);
                    }
                }
                if prev_ids.contains(x) {
                    let k = choose|k: int| 0 <= k < prev_ids.len() && prev_ids[k] == x;
                    assert(ids[k] == x);
                }
                if x == r.customer_asn {
                    assert(ids[ids.len() - 1] == x);
                }
            }
        }
        assert(load_records(recs).dom() =~= customers_of(recs));
        assert forall|c: u32| #[trigger]
            customers_of(recs).contains(c) implies load_records(recs)[c] == providers_for(recs, c) by {
            if c == r.customer_asn {
                if !m.contains_key(c) {
                    assert(providers_for(prev, c) =~= Set::<u32>::empty()) by {
                        lemma_no_record_no_providers(prev, c);
                    }
                }
            }
        }
    }
}

proof fn lemma_no_record_no_providers(recs: Seq<AspaRecord>, c: u32)
    requires
        !customers_of(recs).contains(c),
    ensures
        providers_for(recs, c) == Set::<u32>::empty(),
    decreases recs.len(),
{
    if recs.len() > 0 {
        let prev = recs.drop_last();
        let ids = recs.map_values(|x: AspaRecord| x.customer_asn);
        assert(ids[ids.len() - 1] == recs.last().customer_asn);
        assert(!customers_of(prev).contains(c)) by {
            let prev_ids = prev.map_values(|x: AspaRecord| x.customer_asn);
            if prev_ids.contains(c) {
                let k = choose|k: int| 0 <= k < prev_ids.len() && prev_ids[k] == c;
                assert(ids[k] == c);
            }
        }
        lemma_no_record_no_providers(prev, c);
    }
}

impl AspaTable {
    /// The table holds finitely many customer records.
    pub proof fn lemma_finite(&self)
        ensures
            self@.dom().finite(),
    {
        self.lemma_view_dom();
        assert(self.records@.dom().finite());
    }

    proof fn lemma_view_dom(&self)
        ensures
            self@.dom() == self.records@.dom(),
            forall|k: u32| #[trigger] self@.contains_key(k) ==> self@[k] == self.records@[k]@,
    {
        assert(self@.dom() =~= self.records@.dom());
    }

    /// An empty table.
    pub fn new() -> (r: AspaTable)
        ensures
            r@ == Map::<u32, Set<u32>>::empty(),
    {
        let r = AspaTable { records: HashMap::new() };
        proof {
            r.lemma_view_dom();
            assert(r@ =~= Map::<u32, Set<u32>>::empty());
        }
        r
    }

    /// Replaces the table's contents with `records`, merged in order.
    pub fn load(&mut self, records: Vec<AspaRecord>)
        ensures
            final(self)@ == load_records(records@),
    {
        self.records.clear();
        proof {
            self.lemma_view_dom();
            assert(self@ =~= load_records(records@.subrange(0, 0)));
        }
        let mut i: usize = 0;
        while i < records.len()
            invariant
                i <= records.len(),
                self@ == load_records(records@.subrange(0, i as int)),
            decreases records.len() - i,
        {
            self.merge_providers(records[i].customer_asn, &records[i].provider_asns);
            proof {
                assert(records@.subrange(0, i + 1).drop_last() =~= records@.subrange(0, i as int));
            }
            i = i + 1;
        }
        proof {
            assert(records@.subrange(0, records@.len() as int) =~= records@);
        }
    }

    fn merge_providers(&mut self, customer: u32, providers: &Vec<u32>)
        ensures
            final(self)@ == merge_record(old(self)@, customer, providers@),
    {
        proof {
            self.lemma_view_dom();
        }
        let ghost before = self@;
        let mut set = match self.records.remove(&customer) {
            Some(s) => s,
            None => HashSet::new(),
        };
        let ghost base = if before.contains_key(customer) {
            before[customer]
        } else {
            Set::<u32>::empty()
        };
        assert(set@ == base);
        let mut j: usize = 0;
        while j < providers.len()
            invariant
                j <= providers.len(),
                set@ == base.union(providers@.subrange(0, j as int).to_set()),
            decreases providers.len() - j,
        {
            let p = providers[j];
            set.insert(p);
            proof {
                let a = providers@.subrange(0, j as int);
                let b = providers@.subrange(0, j + 1);
                assert(b =~= a.push(p));
                assert(b.to_set() =~= a.to_set().insert(p)) by {
                    assert forall|x: u32| b.to_set().contains(x) <==> a.to_set().insert(p).contains(
                        x,
                    ) by {
                        if b.contains(x) {
                            let k = choose|k: int| 0 <= k < b.len() && b[k] == x;
                            if k < a.len() {
                                assert(a[k] == x);
                            }
                        }
                        if a.contains(x) {
                            let k = choose|k: int| 0 <= k < a.len() && a[k] == x;
                            assert(b[k] == x);
                        }
                        if x == p {
                            assert(b[j as int] == x);
                        }
                    }
                }
                assert(set@ =~= base.union(b.to_set()));
            }
            j = j + 1;
        }
        proof {
            assert(providers@.subrange(0, providers@.len() as int) =~= providers@);
        }
        self.records.insert(customer, set);
        proof {
            self.lemma_view_dom();
            assert(self@ =~= merge_record(before, customer, providers@));
        }
    }

    /// Inserts `record`, merging its providers into an existing record.
    pub fn upsert(&mut self, record: AspaRecord)
        ensures
            final(self)@ == merge_record(old(self)@, record.customer_asn, record.provider_asns@),
    {
        self.merge_providers(record.customer_asn, &record.provider_asns);
    }

    /// The provider set of `customer_asn`, if it has a record.
    pub fn providers_of(&self, customer_asn: u32) -> (r: Option<&HashSet<u32>>)
        ensures
            match r {
                Some(s) => self@.contains_key(customer_asn) && s@ == self@[customer_asn],
                None => !self@.contains_key(customer_asn),
            },
    {
        proof {
            self.lemma_view_dom();
        }
        self.records.get(&customer_asn)
    }

    /// Number of customer records.
    pub fn len(&self) -> (r: usize)
        ensures
            r == self@.len(),
    {
        proof {
            self.lemma_view_dom();
        }
        self.records.len()
    }

    pub fn is_empty(&self) -> (r: bool)
        ensures
            r == (self@.len() == 0),
    {
        self.len() == 0
    }
}

/// ASPA verdict for a path.
#[derive(Clone, Copy, Debug, PartialEq, Eq, Structural)]
pub enum AspaValidity {
    /// Every hop with a record is authorized and every hop has a record.
    Valid,
    /// Some hop contradicts an existing record.
    Invalid,
    /// No hop contradicts a record, but some hop has none.
    Unknown,
}

impl AspaValidity {
    /// "valid", "invalid" or "unknown".
    pub fn to_text(&self) -> (r: &'static str)
        ensures
            r@ == match *self {
                AspaValidity::Valid => "valid"@,
                AspaValidity::Invalid => "invalid"@,
                AspaValidity::Unknown => "unknown"@,
            },
    {
        match self {
            AspaValidity::Valid => "valid",
            AspaValidity::Invalid => "invalid",
            AspaValidity::Unknown => "unknown",
        }
    }
}

/// Hop `i` (from `p[i]` to `p[i+1]`) contradicts a record: `p[i+1]` has a
/// record and `p[i]` is not among its providers.
pub open spec fn hop_violates(p: Seq<u32>, t: Map<u32, Set<u32>>, i: int) -> bool {
    t.contains_key(p[i + 1]) && !t[p[i + 1]].contains(p[i])
}

/// Hop `i` has no record for `p[i+1]`.
pub open spec fn hop_unknown(p: Seq<u32>, t: Map<u32, Set<u32>>, i: int) -> bool {
    !t.contains_key(p[i + 1])
}

pub open spec fn some_violation(p: Seq<u32>, t: Map<u32, Set<u32>>) -> bool {
    exists|i: int| 0 <= i < p.len() - 1 && #[trigger] hop_violates(p, t, i)
}

pub open spec fn some_unknown(p: Seq<u32>, t: Map<u32, Set<u32>>) -> bool {
    exists|i: int| 0 <= i < p.len() - 1 && #[trigger] hop_unknown(p, t, i)
}

/// Validates `as_path` (receiver side first, origin last) against `table`.
/// On Invalid the first violating hop is returned as (provider, customer).
pub fn validate_as_path(as_path: &[u32], table: &AspaTable) -> (r: (AspaValidity, Option<(u32, u32)>))
    ensures
        as_path@.len() == 0 ==> r == (AspaValidity::Unknown, None::<(u32, u32)>),
        as_path@.len() > 0 ==> {
            let p = as_path@;
            let t = table@;
            &&& (r.0 == AspaValidity::Invalid <==> some_violation(p, t))
            &&& (r.0 == AspaValidity::Unknown <==> (!some_violation(p, t) && some_unknown(p, t)))
            &&& (r.0 == AspaValidity::Invalid ==> exists|k: int|
                0 <= k < p.len() - 1 && hop_violates(p, t, k) && (forall|j: int|
                    0 <= j < k ==> !#[trigger] hop_violates(p, t, j)) && r.1 == Some((p[k], p[k + 1])))
            &&& (r.0 != AspaValidity::Invalid ==> r.1 == None::<(u32, u32)>)
        },
{
    if as_path.len() == 0 {
        return (AspaValidity::Unknown, None);
    }
    let ghost p = as_path@;
    let ghost t = table@;
    let mut any_unknown = false;
    let mut i: usize = 0;
    while i + 1 < as_path.len()
        invariant
            i + 1 <= as_path.len(),
            p == as_path@,
            t == table@,
            forall|j: int| 0 <= j < i ==> !#[trigger] hop_violates(p, t, j),
            any_unknown <==> exists|j: int| 0 <= j < i && #[trigger] hop_unknown(p, t, j),
        decreases as_path.len() - i,
    {
        let provider = as_path[i];
        let customer = as_path[i + 1];
        match table.providers_of(customer) {
            None => {
                any_unknown = true;
                assert(hop_unknown(p, t, i as int));
            },
            Some(providers) => {
                if !providers.contains(&provider) {
                    assert(hop_violates(p, t, i as int));
                    return (AspaValidity::Invalid, Some((provider, customer)));
                }
                assert(!hop_unknown(p, t, i as int));
            },
        }
        i = i + 1;
    }
    if any_unknown {
        (AspaValidity::Unknown, None)
    } else {
        (AspaValidity::Valid, None)
    }
}

/// White space as `char::is_whitespace` defines it (Unicode White_Space).
pub open spec fn is_ws(c: char) -> bool {
    ||| ('\u{9}' <= c <= '\u{d}')
    ||| c == ' '
    ||| c == '\u{85}'
    ||| c == '\u{a0}'
    ||| c == '\u{1680}'
    ||| ('\u{2000}' <= c <= '\u{200a}')
    ||| c == '\u{2028}'
    ||| c == '\u{2029}'
    ||| c == '\u{202f}'
    ||| c == '\u{205f}'
    ||| c == '\u{3000}'
}

pub fn char_is_ws(c: char) -> (r: bool)
    ensures
        r == is_ws(c),
{
    ('\u{9}' <= c && c <= '\u{d}') || c == ' ' || c == '\u{85}' || c == '\u{a0}' || c == '\u{1680}'
        || ('\u{2000}' <= c && c <= '\u{200a}') || c == '\u{2028}' || c == '\u{2029}' || c
        == '\u{202f}' || c == '\u{205f}' || c == '\u{3000}'
}

/// The white-space separated tokens of `s`, `cur` being a token already
/// begun before `s`.
pub open spec fn split_ws_from(s: Seq<char>, cur: Seq<char>) -> Seq<Seq<char>>
    decreases s.len(),
{
    if s.len() == 0 {
        if cur.len() > 0 {
            seq![cur]
        } else {
            Seq::empty()
        }
    } else if is_ws(s[0]) {
        (if cur.len() > 0 {
            seq![cur]
        } else {
            Seq::empty()
        }) + split_ws_from(s.drop_first(), Seq::empty())
    } else {
        split_ws_from(s.drop_first(), cur.push(s[0]))
    }
}

/// `str::split_whitespace` of `s`.
pub open spec fn split_ws(s: Seq<char>) -> Seq<Seq<char>> {
    split_ws_from(s, Seq::empty())
}

pub open spec fn is_digit(c: char) -> bool {
    '0' <= c <= '9'
}

pub open spec fn all_digits(d: Seq<char>) -> bool {
    forall|i: int| 0 <= i < d.len() ==> is_digit(#[trigger] d[i])
}

/// Decimal value of a string of ASCII digits.
pub open spec fn dec_value(d: Seq<char>) -> nat
    decreases d.len(),
{
    if d.len() == 0 {
        0
    } else {
        dec_value(d.drop_last()) * 10 + ((d.last() as nat) - ('0' as nat)) as nat
    }
}

/// `str::parse::<u32>` of a token: an optional '+', then one or more ASCII
/// digits whose value fits in 32 bits.
pub open spec fn parse_u32_token(t: Seq<char>) -> Option<u32> {
    let d = if t.len() > 0 && t[0] == '+' {
        t.drop_first()
    } else {
        t
    };
    if d.len() > 0 && all_digits(d) && dec_value(d) <= u32::MAX {
        Some(dec_value(d) as u32)
    } else {
        None
    }
}

/// ASNs of the tokens that parse, with runs of equal ASNs collapsed.
pub open spec fn asns_of_tokens(toks: Seq<Seq<char>>) -> Seq<u32>
    decreases toks.len(),
{
    if toks.len() == 0 {
        Seq::empty()
    } else {
        let prev = asns_of_tokens(toks.drop_last());
        match parse_u32_token(toks.last()) {
            None => prev,
            Some(a) => if prev.len() > 0 && prev.last() == a {
                prev
            } else {
                prev.push(a)
            },
        }
    }
}

/// The ASN list of `parse_as_path` never holds the same ASN twice in a row:
/// prepending is collapsed.
pub proof fn lemma_parsed_path_collapses_prepending(s: Seq<char>)
    ensures
        forall|i: int|
            0 <= i < asns_of_tokens(split_ws(s)).len() - 1 ==> asns_of_tokens(split_ws(s))[i]
                != #[trigger] asns_of_tokens(split_ws(s))[i + 1],
{
    lemma_tokens_no_repeats(split_ws(s));
}

proof fn lemma_tokens_no_repeats(toks: Seq<Seq<char>>)
    ensures
        forall|i: int|
            0 <= i < asns_of_tokens(toks).len() - 1 ==> asns_of_tokens(toks)[i]
                != #[trigger] asns_of_tokens(toks)[i + 1],
    decreases toks.len(),
{
    if toks.len() > 0 {
        lemma_tokens_no_repeats(toks.drop_last());
        let prev = asns_of_tokens(toks.drop_last());
        let cur = asns_of_tokens(toks);
        assert forall|i: int| 0 <= i < cur.len() - 1 implies cur[i] != #[trigger] cur[i + 1] by {
            if i + 1 < prev.len() {
                assert(prev[i] != prev[i + 1]);
            }
        }
    }
}

pub proof fn lemma_dec_value_grows(d: Seq<char>, c: char)
    requires
        is_digit(c),
    ensures
        dec_value(d.push(c)) == dec_value(d) * 10 + ((c as nat) - ('0' as nat)),
        dec_value(d.push(c)) >= dec_value(d),
{
    assert(d.push(c).drop_last() =~= d);
}

/// Parses one token as `str::parse::<u32>` does.
fn parse_token(t: &Vec<char>) -> (r: Option<u32>)
    ensures
        r == parse_u32_token(t@),
{
    let start: usize = if t.len() > 0 && t[0] == '+' {
        1
    } else {
        0
    };
    let ghost d = if t@.len() > 0 && t@[0] == '+' {
        t@.drop_first()
    } else {
        t@
    };
    assert(d =~= t@.skip(start as int));
    if start >= t.len() {
        return None;
    }
    let mut v: u64 = 0;
    let mut over = false;
    let mut i: usize = start;
    assert(t@.subrange(start as int, start as int) =~= Seq::<char>::empty());
    while i < t.len()
        invariant
            start <= i <= t.len(),
            d =~= t@.skip(start as int),
            d == (if t@.len() > 0 && t@[0] == '+' { t@.drop_first() } else { t@ }),
            forall|k: int| start <= k < i ==> is_digit(#[trigger] t@[k]),
            !over ==> v == dec_value(t@.subrange(start as int, i as int)) && v <= u32::MAX,
            over ==> dec_value(t@.subrange(start as int, i as int)) > u32::MAX,
        decreases t.len() - i,
    {
        let c = t[i];
        if !('0' <= c && c <= '9') {
            proof {
                assert(d[i - start] == c);
                assert(!is_digit(d[i - start]));
                assert(!all_digits(d));
            }
            return None;
        }
        let digit = (c as u32 - '0' as u32) as u64;
        proof {
            lemma_dec_value_grows(t@.subrange(start as int, i as int), c);
            assert(t@.subrange(start as int, i + 1) =~= t@.subrange(start as int, i as int).push(c));
        }
        if !over {
            let nv = v * 10 + digit;
            if nv > 0xffff_ffff {
                over = true;
            } else {
                v = nv;
            }
        }
        i = i + 1;
    }
    proof {
        assert(t@.subrange(start as int, t@.len() as int) =~= d);
        assert forall|k: int| 0 <= k < d.len() implies is_digit(#[trigger] d[k]) by {
            assert(d[k] == t@[k + start]);
        }
    }
    if over {
        None
    } else {
        Some(v as u32)
    }
}

/// Appends the ASN of token `t` to `out` unless it does not parse or equals
/// the last ASN.
fn push_token_asn(out: &mut Vec<u32>, t: &Vec<char>, Ghost(toks): Ghost<Seq<Seq<char>>>)
    requires
        old(out)@ == asns_of_tokens(toks),
    ensures
        final(out)@ == asns_of_tokens(toks.push(t@)),
{
    proof {
        assert(toks.push(t@).drop_last() =~= toks);
    }
    match parse_token(t) {
        None => {},
        Some(a) => {
            let n: usize = out.len();
            if n == 0 || out[n - 1] != a {
                out.push(a);
            }
        },
    }
}

/// Splits `as_path` at white space and returns the tokens that parse as
/// ASNs, with consecutive duplicates (prepending) collapsed.
pub fn parse_as_path(as_path: &str) -> (r: Vec<u32>)
    ensures
        r@ == asns_of_tokens(split_ws(as_path@)),
{
    let mut out: Vec<u32> = Vec::new();
    let mut cur: Vec<char> = Vec::new();
    let mut it: Chars = as_path.chars();
    let ghost s = as_path@;
    let ghost mut toks: Seq<Seq<char>> = Seq::empty();
    let ghost mut i: int = 0;
    proof {
        assert(s.skip(0) =~= s);
        assert(split_ws(s) =~= toks + split_ws_from(s.skip(0), cur@));
    }
    loop
        invariant_except_break
            0 <= i <= s.len(),
            it.remaining() == s.skip(i),
            split_ws(s) =~= toks + split_ws_from(s.skip(i), cur@),
            out@ == asns_of_tokens(toks),
        invariant
            s == as_path@,
        ensures
            out@ == asns_of_tokens(split_ws(s)),
        decreases s.len() - i,
    {
        match it.next() {
            None => {
                proof {
                    assert(s.skip(i).len() == 0);
                }
                if cur.len() > 0 {
                    push_token_asn(&mut out, &cur, Ghost(toks));
                    proof {
                        toks = toks.push(cur@);
                        assert(split_ws(s) =~= toks);
                    }
                    assert(out@ == asns_of_tokens(split_ws(s)));
                } else {
                    proof {
                        assert(split_ws(s) =~= toks);
                    }
                    assert(out@ == asns_of_tokens(split_ws(s)));
                }
                break;
            },
            Some(c) => {
                let ghost rest = s.skip(i);
                proof {
                    assert(rest[0] == c);
                    assert(rest.drop_first() =~= s.skip(i + 1));
                }
                if char_is_ws(c) {
                    if cur.len() > 0 {
                        push_token_asn(&mut out, &cur, Ghost(toks));
                        proof {
                            assert(split_ws_from(rest, cur@) =~= seq![cur@] + split_ws_from(
                                rest.drop_first(),
                                Seq::empty(),
                            ));
                            assert(toks + (seq![cur@] + split_ws_from(rest.drop_first(), Seq::empty()))
                                =~= toks.push(cur@) + split_ws_from(rest.drop_first(), Seq::empty()));
                            toks = toks.push(cur@);
                        }
                        cur = Vec::new();
                    } else {
                        proof {
                            assert(split_ws_from(rest, cur@) =~= Seq::<Seq<char>>::empty()
                                + split_ws_from(rest.drop_first(), Seq::empty()));
                            assert(cur@ =~= Seq::<char>::empty());
                        }
                    }
                } else {
                    cur.push(c);
                }
                proof {
                    i = i + 1;
                }
            },
        }
    }
    out
}


/// The numbers of the tokens that parse, in order.
pub open spec fn tokens_u32(toks: Seq<Seq<char>>) -> Seq<u32>
    decreases toks.len(),
{
    if toks.len() == 0 {
        Seq::empty()
    } else {
        let prev = tokens_u32(toks.drop_last());
        match parse_u32_token(toks.last()) {
            None => prev,
            Some(a) => prev.push(a),
        }
    }
}

/// Appends the number of token `t` to `out` when it parses.
fn push_token_u32(out: &mut Vec<u32>, t: &Vec<char>, Ghost(toks): Ghost<Seq<Seq<char>>>)
    requires
        old(out)@ == tokens_u32(toks),
    ensures
        final(out)@ == tokens_u32(toks.push(t@)),
{
    proof {
        assert(toks.push(t@).drop_last() =~= toks);
    }
    match parse_token(t) {
        None => {},
        Some(a) => {
            out.push(a);
        },
    }
}

/// Splits `s` at white space and returns, in order, the tokens that parse
/// as 32-bit unsigned numbers.
pub fn parse_u32_tokens(as_path: &str) -> (r: Vec<u32>)
    ensures
        r@ == tokens_u32(split_ws(as_path@)),
{
    let mut out: Vec<u32> = Vec::new();
    let mut cur: Vec<char> = Vec::new();
    let mut it: Chars = as_path.chars();
    let ghost s = as_path@;
    let ghost mut toks: Seq<Seq<char>> = Seq::empty();
    let ghost mut i: int = 0;
    proof {
        assert(s.skip(0) =~= s);
        assert(split_ws(s) =~= toks + split_ws_from(s.skip(0), cur@));
    }
    loop
        invariant_except_break
            0 <= i <= s.len(),
            it.remaining() == s.skip(i),
            split_ws(s) =~= toks + split_ws_from(s.skip(i), cur@),
            out@ == tokens_u32(toks),
        invariant
            s == as_path@,
        ensures
            out@ == tokens_u32(split_ws(s)),
        decreases s.len() - i,
    {
        match it.next() {
            None => {
                proof {
                    assert(s.skip(i).len() == 0);
                }
                if cur.len() > 0 {
                    push_token_u32(&mut out, &cur, Ghost(toks));
                    proof {
                        toks = toks.push(cur@);
                        assert(split_ws(s) =~= toks);
                    }
                    assert(out@ == tokens_u32(split_ws(s)));
                } else {
                    proof {
                        assert(split_ws(s) =~= toks);
                    }
                    assert(out@ == tokens_u32(split_ws(s)));
                }
                break;
            },
            Some(c) => {
                let ghost rest = s.skip(i);
                proof {
                    assert(rest[0] == c);
                    assert(rest.drop_first() =~= s.skip(i + 1));
                }
                if char_is_ws(c) {
                    if cur.len() > 0 {
                        push_token_u32(&mut out, &cur, Ghost(toks));
                        proof {
                            assert(split_ws_from(rest, cur@) =~= seq![cur@] + split_ws_from(
                                rest.drop_first(),
                                Seq::empty(),
                            ));
                            assert(toks + (seq![cur@] + split_ws_from(rest.drop_first(), Seq::empty()))
                                =~= toks.push(cur@) + split_ws_from(rest.drop_first(), Seq::empty()));
                            toks = toks.push(cur@);
                        }
                        cur = Vec::new();
                    } else {
                        proof {
                            assert(split_ws_from(rest, cur@) =~= Seq::<Seq<char>>::empty()
                                + split_ws_from(rest.drop_first(), Seq::empty()));
                            assert(cur@ =~= Seq::<char>::empty());
                        }
                    }
                } else {
                    cur.push(c);
                }
                proof {
                    i = i + 1;
                }
            },
        }
    }
    out
}

} // verus!
