//! The flat route context handed to filter scripts: everything a filter may
//! ask about one route event, as text, numbers and flags.

use vstd::prelude::*;
use crate::bgp::nlri::{masked_addr, read_net};
use crate::bgp::path_attrs::PathAttributes;
use crate::bgp::types::{
    Afi, AsPath, AsPathSegment, ExtendedCommunity, LargeCommunity, Origin, Prefix, SegmentModel,
    adjacent_dup, all_asns, has_adjacent_dup, rd_text, segment_asns,
};
use std::str::Chars;
use vstd::std_specs::iter::IteratorSpec;
use crate::bgp::evpn::evpn_type_code;
use crate::bmp::types::RibType;
use crate::cidr::{IpNetwork, NetModel, ipnet_text_net, net_contains_addr, parse_ip_net};
use crate::enrichment::aspa::{is_digit, parse_u32_tokens, split_ws, tokens_u32};
use crate::net::{IpAddress, IpModel, ip_text, ipv4_text, ipv6_text, push_ipv4, push_ipv6};
use crate::rib::event::{byte_list_text, push_byte_list};
use crate::rib::filter::{route_comm_texts, route_communities};
use crate::rib::filter_expr::{community_listed, strings_view};
use crate::text::{dec, digit_char, push_dec, push_text};

verus! {

/// Flat route context, built once per route event.
#[derive(Debug)]
pub struct RouteCtx {
    /// The prefix as text, such as "203.0.113.0/24".
    pub prefix: String,
    pub prefix_len: u8,
    /// "ipv4" or "ipv6".
    pub afi: String,
    pub peer_as: u32,
    pub peer_addr: String,
    /// "pre-policy", "post-policy", "loc-rib", ...
    pub rib_type: String,
    /// "announce" or "withdraw".
    pub action: String,
    /// The AS_PATH as text.
    pub as_path: String,
    pub as_path_len: u32,
    pub origin_asn: u32,
    pub has_prepend: bool,
    pub next_hop: String,
    /// 0 when absent.
    pub local_pref: u32,
    pub med: u32,
    /// "igp", "egp" or "incomplete" ("" when absent).
    pub origin_attr: String,
    /// Communities as "asn:value".
    pub community_set: Vec<String>,
    pub ext_community_set: Vec<String>,
    pub large_community_set: Vec<String>,
    /// "valid", "invalid", "not-found" or "unknown".
    pub rpki: String,
    /// "valid", "invalid" or "unknown".
    pub aspa: String,
    /// 0 when there is no Only-to-Customer attribute.
    pub otc_asn: u32,
    pub is_evpn: bool,
    pub is_bgpls: bool,
    pub is_srpolicy: bool,
    /// IPv4 prefix with an IPv6 next hop (RFC 5549).
    pub is_unnumbered: bool,
    /// EVPN route type of the first EVPN route; 0 when not EVPN.
    pub evpn_type: u8,
}

// ─── Text forms ──────────────────────────────────────────────────────────────

/// Whether every label stack of the prefix is non-empty.
pub open spec fn labels_present(p: Prefix) -> bool
    decreases p,
{
    match p {
        Prefix::V4(_) => true,
        Prefix::V6(_) => true,
        Prefix::Labeled { prefix, labels } => labels@.len() > 0 && labels_present(*prefix),
        Prefix::Vpn { prefix, labels, .. } => labels@.len() > 0 && labels_present(*prefix),
    }
}

/// Text of a prefix: "addr/len", with " label=N" (the first label) after a
/// labeled prefix and "rd:" before a VPN prefix.
pub open spec fn prefix_text(p: Prefix) -> Seq<char>
    decreases p,
{
    match p {
        Prefix::V4(n) => ipv4_text(n.addr@) + "/"@ + dec(n.prefix_len as nat),
        Prefix::V6(n) => ipv6_text(n.addr@) + "/"@ + dec(n.prefix_len as nat),
        Prefix::Labeled { prefix, labels } => prefix_text(*prefix) + " label="@ + dec(
            labels@[0] as nat,
        ),
        Prefix::Vpn { rd, prefix, labels } => rd_text(rd) + ":"@ + prefix_text(*prefix) + " label="@
            + dec(labels@[0] as nat),
    }
}

/// Appends the text of a prefix.
pub fn push_prefix_text(s: &mut String, p: &Prefix)
    requires
        labels_present(*p),
    ensures
        final(s)@ == old(s)@ + prefix_text(*p),
    decreases p,
{
    match p {
        Prefix::V4(n) => {
            push_ipv4(s, &n.addr);
            push_text(s, "/");
            push_dec(s, n.prefix_len as u64);
        },
        Prefix::V6(n) => {
            push_ipv6(s, &n.addr);
            push_text(s, "/");
            push_dec(s, n.prefix_len as u64);
        },
        Prefix::Labeled { prefix, labels } => {
            push_prefix_text(s, prefix);
            push_text(s, " label=");
            push_dec(s, labels[0] as u64);
        },
        Prefix::Vpn { rd, prefix, labels } => {
            let t = rd.to_text();
            push_text(s, t.as_str());
            push_text(s, ":");
            push_prefix_text(s, prefix);
            push_text(s, " label=");
            push_dec(s, labels[0] as u64);
        },
    }
    assert(s@ =~= old(s)@ + prefix_text(*p));
}

/// `parts` joined by `sep`.
pub open spec fn join_with(parts: Seq<Seq<char>>, sep: Seq<char>) -> Seq<char>
    decreases parts.len(),
{
    if parts.len() == 0 {
        Seq::empty()
    } else if parts.len() == 1 {
        parts[0]
    } else {
        join_with(parts.drop_last(), sep) + sep + parts.last()
    }
}

/// ASNs in decimal joined by `sep`.
pub open spec fn asns_joined(v: Seq<u32>, sep: Seq<char>) -> Seq<char> {
    join_with(v.map_values(|a: u32| dec(a as nat)), sep)
}

/// Text of a segment: a sequence as "a b c", a set as "{a,b}", a
/// confederation sequence as "(a b)", a confederation set as "[a,b]".
pub open spec fn segment_text(s: SegmentModel) -> Seq<char> {
    match s {
        SegmentModel::Sequence(v) => asns_joined(v, " "@),
        SegmentModel::AsSet(v) => "{"@ + asns_joined(v, ","@) + "}"@,
        SegmentModel::ConfedSequence(v) => "("@ + asns_joined(v, " "@) + ")"@,
        SegmentModel::ConfedSet(v) => "["@ + asns_joined(v, ","@) + "]"@,
    }
}

/// Text of an AS_PATH: its segments joined by " ".
pub open spec fn path_text(p: Seq<SegmentModel>) -> Seq<char> {
    join_with(p.map_values(|s: SegmentModel| segment_text(s)), " "@)
}

fn push_asns(s: &mut String, v: &[u32], sep: &str)
    ensures
        final(s)@ == old(s)@ + asns_joined(v@, sep@),
{
    let ghost texts = v@.map_values(|a: u32| dec(a as nat));
    let mut i: usize = 0;
    while i < v.len()
        invariant
            i <= v@.len(),
            texts == v@.map_values(|a: u32| dec(a as nat)),
            s@ == old(s)@ + join_with(texts.subrange(0, i as int), sep@),
        decreases v@.len() - i,
    {
        if i > 0 {
            push_text(s, sep);
        }
        push_dec(s, v[i] as u64);
        proof {
            assert(texts.subrange(0, i + 1).drop_last() =~= texts.subrange(0, i as int));
            if i == 0 {
                assert(texts.subrange(0, 0) =~= Seq::<Seq<char>>::empty());
            }
        }
        i = i + 1;
        assert(s@ =~= old(s)@ + join_with(texts.subrange(0, i as int), sep@));
    }
    assert(texts.subrange(0, v@.len() as int) =~= texts);
}

fn push_segment(s: &mut String, seg: &AsPathSegment)
    ensures
        final(s)@ == old(s)@ + segment_text(seg@),
{
    match seg {
        AsPathSegment::Sequence(v) => push_asns(s, v.as_slice(), " "),
        AsPathSegment::AsSet(v) => {
            push_text(s, "{");
            push_asns(s, v.as_slice(), ",");
            push_text(s, "}");
        },
        AsPathSegment::ConfedSequence(v) => {
            push_text(s, "(");
            push_asns(s, v.as_slice(), " ");
            push_text(s, ")");
        },
        AsPathSegment::ConfedSet(v) => {
            push_text(s, "[");
            push_asns(s, v.as_slice(), ",");
            push_text(s, "]");
        },
    }
    assert(s@ =~= old(s)@ + segment_text(seg@));
}

/// The text of an AS_PATH.
pub fn as_path_string(p: &AsPath) -> (r: String)
    ensures
        r@ == path_text(p@),
{
    let ghost texts = p@.map_values(|x: SegmentModel| segment_text(x));
    let mut s = String::new();
    let mut i: usize = 0;
    while i < p.0.len()
        invariant
            i <= p@.len(),
            p@ == p.0@.map_values(|x: AsPathSegment| x@),
            texts == p@.map_values(|x: SegmentModel| segment_text(x)),
            s@ == join_with(texts.subrange(0, i as int), " "@),
        decreases p@.len() - i,
    {
        if i > 0 {
            push_text(&mut s, " ");
        }
        push_segment(&mut s, &p.0[i]);
        proof {
            assert(texts.subrange(0, i + 1).drop_last() =~= texts.subrange(0, i as int));
            if i == 0 {
                assert(texts.subrange(0, 0) =~= Seq::<Seq<char>>::empty());
            }
        }
        i = i + 1;
        assert(s@ =~= join_with(texts.subrange(0, i as int), " "@));
    }
    assert(texts.subrange(0, p@.len() as int) =~= texts);
    s
}

/// Debug text of an extended community:
/// `ExtendedCommunity { type_high: 0, type_low: 2, value: [0, 0, 0, 1, 0, 2] }`.
pub open spec fn ext_debug_text(c: ExtendedCommunity) -> Seq<char> {
    "ExtendedCommunity { type_high: "@ + dec(c.type_high as nat) + ", type_low: "@ + dec(
        c.type_low as nat,
    ) + ", value: ["@ + byte_list_text(c.value@) + "] }"@
}

/// Debug text of a large community:
/// `LargeCommunity { global_admin: 1, local_data_1: 2, local_data_2: 3 }`.
pub open spec fn large_debug_text(c: LargeCommunity) -> Seq<char> {
    "LargeCommunity { global_admin: "@ + dec(c.global_admin as nat) + ", local_data_1: "@ + dec(
        c.local_data_1 as nat,
    ) + ", local_data_2: "@ + dec(c.local_data_2 as nat) + " }"@
}

fn ext_debug_string(c: ExtendedCommunity) -> (r: String)
    ensures
        r@ == ext_debug_text(c),
{
    let mut s = String::new();
    push_text(&mut s, "ExtendedCommunity { type_high: ");
    push_dec(&mut s, c.type_high as u64);
    push_text(&mut s, ", type_low: ");
    push_dec(&mut s, c.type_low as u64);
    push_text(&mut s, ", value: [");
    push_byte_list(&mut s, &c.value);
    push_text(&mut s, "] }");
    assert(s@ =~= ext_debug_text(c));
    s
}

fn large_debug_string(c: LargeCommunity) -> (r: String)
    ensures
        r@ == large_debug_text(c),
{
    let mut s = String::new();
    push_text(&mut s, "LargeCommunity { global_admin: ");
    push_dec(&mut s, c.global_admin as u64);
    push_text(&mut s, ", local_data_1: ");
    push_dec(&mut s, c.local_data_1 as u64);
    push_text(&mut s, ", local_data_2: ");
    push_dec(&mut s, c.local_data_2 as u64);
    push_text(&mut s, " }");
    assert(s@ =~= large_debug_text(c));
    s
}

pub open spec fn rib_type_text(r: RibType) -> Seq<char> {
    match r {
        RibType::AdjRibInPrePolicy => "pre-policy"@,
        RibType::AdjRibInPostPolicy => "post-policy"@,
        RibType::LocRib => "loc-rib"@,
        RibType::LocRibFiltered => "loc-rib-filtered"@,
        RibType::AdjRibOutPrePolicy => "adj-out-pre"@,
        RibType::AdjRibOutPostPolicy => "adj-out-post"@,
    }
}

pub open spec fn origin_text(o: Option<Origin>) -> Seq<char> {
    match o {
        Some(Origin::Igp) => "igp"@,
        Some(Origin::Egp) => "egp"@,
        Some(Origin::Incomplete) => "incomplete"@,
        None => Seq::empty(),
    }
}

/// The prefix length, looking through one level of labels or RD.
pub open spec fn ctx_prefix_len(p: Prefix) -> u8 {
    match p {
        Prefix::V4(n) => n.prefix_len,
        Prefix::V6(n) => n.prefix_len,
        Prefix::Labeled { prefix, .. } => match *prefix {
            Prefix::V4(n) => n.prefix_len,
            Prefix::V6(n) => n.prefix_len,
            _ => 0,
        },
        Prefix::Vpn { prefix, .. } => match *prefix {
            Prefix::V4(n) => n.prefix_len,
            Prefix::V6(n) => n.prefix_len,
            _ => 0,
        },
    }
}

/// What a left-to-right reading of `s` has found: the values of the runs
/// of decimal digits that are complete, and the value of the run that `s`
/// ends in, if it ends in a digit.
pub open spec fn digit_scan(s: Seq<char>) -> (Seq<nat>, Option<nat>)
    decreases s.len(),
{
    if s.len() == 0 {
        (Seq::empty(), None)
    } else {
        let before = digit_scan(s.drop_last());
        let c = s.last();
        if is_digit(c) {
            let d = ((c as nat) - ('0' as nat)) as nat;
            (
                before.0,
                Some(
                    match before.1 {
                        Some(v) => v * 10 + d,
                        None => d,
                    },
                ),
            )
        } else {
            (
                match before.1 {
                    Some(v) => before.0.push(v),
                    None => before.0,
                },
                None,
            )
        }
    }
}

/// The numbers written in `s`: the values of its maximal runs of decimal
/// digits, in order.
pub open spec fn text_numbers(s: Seq<char>) -> Seq<nat> {
    let sc = digit_scan(s);
    match sc.1 {
        Some(v) => sc.0.push(v),
        None => sc.0,
    }
}

/// `val` holds a run's value `v` while it fits in 32 bits, and 2^32 after.
pub open spec fn run_tracked(v: nat, val: u64) -> bool {
    &&& v <= u32::MAX ==> val == v
    &&& v > u32::MAX ==> val == 0x1_0000_0000
}

proof fn lemma_scan_concat(x: Seq<char>, y: Seq<char>)
    requires
        digit_scan(x).1 is None,
    ensures
        digit_scan(x + y) == (digit_scan(x).0 + digit_scan(y).0, digit_scan(y).1),
    decreases y.len(),
{
    if y.len() == 0 {
        assert(x + y =~= x);
        assert(digit_scan(x).0 + Seq::<nat>::empty() =~= digit_scan(x).0);
    } else {
        lemma_scan_concat(x, y.drop_last());
        assert((x + y).drop_last() =~= x + y.drop_last());
        let a = digit_scan(x).0;
        let b = digit_scan(y.drop_last()).0;
        if let Some(v) = digit_scan(y.drop_last()).1 {
            assert((a + b).push(v) =~= a + b.push(v));
        }
    }
}

proof fn lemma_numbers_concat(x: Seq<char>, y: Seq<char>)
    requires
        digit_scan(x).1 is None,
    ensures
        text_numbers(x + y) == text_numbers(x) + text_numbers(y),
        digit_scan(x + y).1 == digit_scan(y).1,
{
    lemma_scan_concat(x, y);
    if let Some(v) = digit_scan(y).1 {
        assert((digit_scan(x).0 + digit_scan(y).0).push(v) =~= digit_scan(x).0 + digit_scan(
            y,
        ).0.push(v));
    }
}

proof fn lemma_push_separator(x: Seq<char>, c: char)
    requires
        !is_digit(c),
    ensures
        digit_scan(x.push(c)).1 is None,
        text_numbers(x.push(c)) == text_numbers(x),
{
    assert(x.push(c).drop_last() =~= x);
}

proof fn lemma_digit_char(d: int)
    requires
        0 <= d < 10,
    ensures
        is_digit(digit_char(d)),
        (digit_char(d) as nat) - ('0' as nat) == d,
{
}

proof fn lemma_scan_dec(n: nat)
    ensures
        digit_scan(dec(n)) == (Seq::<nat>::empty(), Some(n)),
    decreases n,
{
    if n < 10 {
        lemma_digit_char(n as int);
        assert(dec(n).drop_last() =~= Seq::<char>::empty());
        assert(digit_scan(Seq::<char>::empty()) == (Seq::<nat>::empty(), None::<nat>));
        assert(dec(n).last() == digit_char(n as int));
    } else {
        lemma_scan_dec(n / 10);
        lemma_digit_char((n % 10) as int);
        assert(dec(n).drop_last() =~= dec(n / 10));
        assert(dec(n).last() == digit_char((n % 10) as int));
        assert((n / 10) * 10 + n % 10 == n);
    }
}

proof fn lemma_joined_numbers(v: Seq<u32>, sep: Seq<char>)
    requires
        sep.len() == 1,
        !is_digit(sep[0]),
    ensures
        text_numbers(asns_joined(v, sep)) == v.map_values(|a: u32| a as nat),
    decreases v.len(),
{
    let parts = v.map_values(|a: u32| dec(a as nat));
    if v.len() == 0 {
        assert(v.map_values(|a: u32| a as nat) =~= Seq::<nat>::empty());
    } else if v.len() == 1 {
        lemma_scan_dec(v[0] as nat);
        assert(v.map_values(|a: u32| a as nat) =~= seq![v[0] as nat]);
    } else {
        lemma_joined_numbers(v.drop_last(), sep);
        assert(parts.drop_last() =~= v.drop_last().map_values(|a: u32| dec(a as nat)));
        let head = join_with(parts.drop_last(), sep);
        assert(head + sep =~= head.push(sep[0]));
        lemma_push_separator(head, sep[0]);
        lemma_numbers_concat(head + sep, parts.last());
        lemma_scan_dec(v.last() as nat);
        assert(v.map_values(|a: u32| a as nat) =~= v.drop_last().map_values(|a: u32| a as nat).push(
            v.last() as nat,
        ));
    }
}

proof fn lemma_bracketed_numbers(open: Seq<char>, body: Seq<char>, close: Seq<char>)
    requires
        open.len() == 1,
        !is_digit(open[0]),
        close.len() == 1,
        !is_digit(close[0]),
    ensures
        text_numbers(open + body + close) == text_numbers(body),
{
    assert(open =~= Seq::<char>::empty().push(open[0]));
    lemma_push_separator(Seq::<char>::empty(), open[0]);
    assert(text_numbers(Seq::<char>::empty()) =~= Seq::<nat>::empty());
    lemma_numbers_concat(open, body);
    assert(text_numbers(open) + text_numbers(body) =~= text_numbers(body));
    assert(open + body + close =~= (open + body).push(close[0]));
    lemma_push_separator(open + body, close[0]);
}

proof fn lemma_segment_numbers(s: SegmentModel)
    ensures
        text_numbers(segment_text(s)) == segment_asns(s).map_values(|a: u32| a as nat),
{
    reveal_strlit(" ");
    reveal_strlit(",");
    reveal_strlit("{");
    reveal_strlit("}");
    reveal_strlit("(");
    reveal_strlit(")");
    reveal_strlit("[");
    reveal_strlit("]");
    match s {
        SegmentModel::Sequence(v) => {
            lemma_joined_numbers(v, " "@);
        },
        SegmentModel::AsSet(v) => {
            lemma_joined_numbers(v, ","@);
            lemma_bracketed_numbers("{"@, asns_joined(v, ","@), "}"@);
        },
        SegmentModel::ConfedSequence(v) => {
            lemma_joined_numbers(v, " "@);
            lemma_bracketed_numbers("("@, asns_joined(v, " "@), ")"@);
        },
        SegmentModel::ConfedSet(v) => {
            lemma_joined_numbers(v, ","@);
            lemma_bracketed_numbers("["@, asns_joined(v, ","@), "]"@);
        },
    }
}

/// The numbers written in the text of an AS_PATH are exactly its ASNs, of
/// every segment kind, in order; so `as_path_contains` on a route context
/// built from an AS_PATH answers whether the ASN occurs anywhere in it.
pub proof fn lemma_path_text_numbers(p: Seq<SegmentModel>)
    ensures
        text_numbers(path_text(p)) == all_asns(p).map_values(|a: u32| a as nat),
        forall|a: u32| #[trigger] all_asns(p).contains(a) <==> text_numbers(path_text(p)).contains(a as nat),
    decreases p.len(),
{
    let parts = p.map_values(|s: SegmentModel| segment_text(s));
    if p.len() == 0 {
        assert(all_asns(p).map_values(|a: u32| a as nat) =~= Seq::<nat>::empty());
    } else if p.len() == 1 {
        lemma_segment_numbers(p[0]);
        assert(p.drop_last() =~= Seq::<SegmentModel>::empty());
        assert(all_asns(p.drop_last()) =~= Seq::<u32>::empty());
        assert(all_asns(p) =~= segment_asns(p[0]));
    } else {
        lemma_path_text_numbers(p.drop_last());
        assert(parts.drop_last() =~= p.drop_last().map_values(|s: SegmentModel| segment_text(s)));
        let head = join_with(parts.drop_last(), " "@);
        reveal_strlit(" ");
        assert(head + " "@ =~= head.push(' '));
        lemma_push_separator(head, ' ');
        lemma_numbers_concat(head + " "@, parts.last());
        lemma_segment_numbers(p.last());
        assert(all_asns(p).map_values(|a: u32| a as nat) =~= all_asns(p.drop_last()).map_values(
            |a: u32| a as nat,
        ) + segment_asns(p.last()).map_values(|a: u32| a as nat));
    }
    let ns = text_numbers(path_text(p));
    let all = all_asns(p);
    assert(ns == all.map_values(|a: u32| a as nat));
    assert forall|a: u32| #[trigger] all.contains(a) <==> ns.contains(a as nat) by {
        if all.contains(a) {
            let k = choose|k: int| 0 <= k < all.len() && all[k] == a;
            assert(ns[k] == a as nat);
        }
        if ns.contains(a as nat) {
            let k = choose|k: int| 0 <= k < ns.len() && ns[k] == a as nat;
            assert(all[k] == a);
        }
    }
}

/// The ASNs of the AS_PATH text: the white-space separated tokens that
/// read as numbers.
pub open spec fn ctx_asns(a: &PathAttributes) -> Seq<u32> {
    tokens_u32(split_ws(ctx_path_text(a)))
}

pub open spec fn ctx_path_text(a: &PathAttributes) -> Seq<char> {
    match a.as_path {
        Some(p) => path_text(p@),
        None => Seq::empty(),
    }
}

/// Whether the route is an IPv4 prefix whose first MP_REACH next hop is
/// IPv6.
pub open spec fn ctx_unnumbered(p: Prefix, a: &PathAttributes) -> bool {
    p is V4 && match a.mp_reach {
        Some(m) => m.next_hops@.len() > 0 && m.next_hops@[0] is V6,
        None => false,
    }
}

pub open spec fn ctx_evpn_type(a: &PathAttributes) -> u8 {
    match a.evpn_reach {
        Some(e) => if e.routes@.len() > 0 {
            evpn_type_code(e.routes@[0]@)
        } else {
            0
        },
        None => 0,
    }
}

pub open spec fn or0(v: Option<u32>) -> u32 {
    match v {
        Some(x) => x,
        None => 0,
    }
}

/// Whether `ctx` is the context of the route event.
pub open spec fn is_route_ctx(
    ctx: RouteCtx,
    prefix: Prefix,
    peer_as: u32,
    peer_addr: IpAddress,
    rib_type: RibType,
    action: Seq<char>,
    a: &PathAttributes,
    rpki: Seq<char>,
) -> bool {
    let asns = ctx_asns(a);
    &&& ctx.prefix@ == prefix_text(prefix)
    &&& ctx.prefix_len == ctx_prefix_len(prefix)
    &&& ctx.afi@ == (if prefix is V6 { "ipv6"@ } else { "ipv4"@ })
    &&& ctx.peer_as == peer_as
    &&& ctx.peer_addr@ == ip_text(peer_addr)
    &&& ctx.rib_type@ == rib_type_text(rib_type)
    &&& ctx.action@ == action
    &&& ctx.as_path@ == ctx_path_text(a)
    &&& ctx.as_path_len == asns.len() as u32
    &&& ctx.origin_asn == (if asns.len() > 0 { asns.last() } else { 0 })
    &&& ctx.has_prepend == adjacent_dup(asns)
    &&& ctx.next_hop@ == match a.next_hop {
        Some(h) => ip_text(h),
        None => Seq::empty(),
    }
    &&& ctx.local_pref == or0(a.local_pref)
    &&& ctx.med == or0(a.multi_exit_disc)
    &&& ctx.origin_attr@ == origin_text(a.origin)
    &&& strings_view(ctx.community_set@) == route_comm_texts(a)
    &&& strings_view(ctx.ext_community_set@) == a.extended_communities@.map_values(
        |c: ExtendedCommunity| ext_debug_text(c),
    )
    &&& strings_view(ctx.large_community_set@) == a.large_communities@.map_values(
        |c: LargeCommunity| large_debug_text(c),
    )
    &&& ctx.rpki@ == rpki
    &&& ctx.aspa@ == "unknown"@
    &&& ctx.otc_asn == or0(a.only_to_customer)
    &&& ctx.is_evpn == a.evpn_reach is Some
    &&& ctx.is_bgpls == a.bgpls_reach is Some
    &&& ctx.is_srpolicy == (a.sr_policy_nlris@.len() > 0)
    &&& ctx.is_unnumbered == ctx_unnumbered(prefix, a)
    &&& ctx.evpn_type == ctx_evpn_type(a)
}

fn ext_strings(v: &Vec<ExtendedCommunity>) -> (r: Vec<String>)
    ensures
        strings_view(r@) == v@.map_values(|c: ExtendedCommunity| ext_debug_text(c)),
{
    let ghost m = v@.map_values(|c: ExtendedCommunity| ext_debug_text(c));
    let mut out: Vec<String> = Vec::new();
    let mut i: usize = 0;
    while i < v.len()
        invariant
            i <= v@.len(),
            m == v@.map_values(|c: ExtendedCommunity| ext_debug_text(c)),
            strings_view(out@) =~= m.subrange(0, i as int),
        decreases v@.len() - i,
    {
        let t = ext_debug_string(v[i]);
        let ghost before = out@;
        let ghost tv = t@;
        out.push(t);
        proof {
            assert(strings_view(out@) =~= strings_view(before).push(tv));
            assert(m.subrange(0, i + 1) =~= m.subrange(0, i as int).push(tv));
        }
        i = i + 1;
    }
    assert(m.subrange(0, v@.len() as int) =~= m);
    out
}

fn large_strings(v: &Vec<LargeCommunity>) -> (r: Vec<String>)
    ensures
        strings_view(r@) == v@.map_values(|c: LargeCommunity| large_debug_text(c)),
{
    let ghost m = v@.map_values(|c: LargeCommunity| large_debug_text(c));
    let mut out: Vec<String> = Vec::new();
    let mut i: usize = 0;
    while i < v.len()
        invariant
            i <= v@.len(),
            m == v@.map_values(|c: LargeCommunity| large_debug_text(c)),
            strings_view(out@) =~= m.subrange(0, i as int),
        decreases v@.len() - i,
    {
        let t = large_debug_string(v[i]);
        let ghost before = out@;
        let ghost tv = t@;
        out.push(t);
        proof {
            assert(strings_view(out@) =~= strings_view(before).push(tv));
            assert(m.subrange(0, i + 1) =~= m.subrange(0, i as int).push(tv));
        }
        i = i + 1;
    }
    assert(m.subrange(0, v@.len() as int) =~= m);
    out
}

fn text_of(t: &str) -> (r: String)
    ensures
        r@ == t@,
{
    let mut s = String::new();
    push_text(&mut s, t);
    assert(s@ =~= t@);
    s
}

impl RouteCtx {
    /// Builds the context of a route event.
    pub fn from_bmp(
        prefix: &Prefix,
        peer_as: u32,
        peer_addr: IpAddress,
        rib_type: RibType,
        action: &str,
        attrs: &PathAttributes,
        rpki: &str,
    ) -> (r: RouteCtx)
        requires
            labels_present(*prefix),
        ensures
            is_route_ctx(r, *prefix, peer_as, peer_addr, rib_type, action@, attrs, rpki@),
    {
        let mut prefix_str = String::new();
        push_prefix_text(&mut prefix_str, prefix);
        assert(prefix_str@ =~= prefix_text(*prefix));
        let prefix_len = match prefix {
            Prefix::V4(n) => n.prefix_len,
            Prefix::V6(n) => n.prefix_len,
            Prefix::Labeled { prefix: inner, .. } => match &**inner {
                Prefix::V4(n) => n.prefix_len,
                Prefix::V6(n) => n.prefix_len,
                _ => 0,
            },
            Prefix::Vpn { prefix: inner, .. } => match &**inner {
                Prefix::V4(n) => n.prefix_len,
                Prefix::V6(n) => n.prefix_len,
                _ => 0,
            },
        };
        let afi = match prefix {
            Prefix::V6(_) => text_of("ipv6"),
            _ => text_of("ipv4"),
        };
        let as_path_str = match &attrs.as_path {
            Some(p) => as_path_string(p),
            None => String::new(),
        };
        assert(as_path_str@ == ctx_path_text(attrs));
        let asns = parse_u32_tokens(as_path_str.as_str());
        let n = asns.len();
        let origin_asn = if n > 0 {
            asns[n - 1]
        } else {
            0
        };
        let has_prepend = has_adjacent_dup(asns.as_slice());
        let rib_type_str = match rib_type {
            RibType::AdjRibInPrePolicy => text_of("pre-policy"),
            RibType::AdjRibInPostPolicy => text_of("post-policy"),
            RibType::LocRib => text_of("loc-rib"),
            RibType::LocRibFiltered => text_of("loc-rib-filtered"),
            RibType::AdjRibOutPrePolicy => text_of("adj-out-pre"),
            RibType::AdjRibOutPostPolicy => text_of("adj-out-post"),
        };
        let is_unnumbered = match prefix {
            Prefix::V4(_) => match &attrs.mp_reach {
                Some(m) => m.next_hops.len() > 0 && match m.next_hops[0] {
                    IpAddress::V6(_) => true,
                    IpAddress::V4(_) => false,
                },
                None => false,
            },
            _ => false,
        };
        let evpn_type = match &attrs.evpn_reach {
            Some(e) => if e.routes.len() > 0 {
                e.routes[0].route_type_code()
            } else {
                0
            },
            None => 0,
        };
        let next_hop = match attrs.next_hop {
            Some(h) => h.to_text(),
            None => String::new(),
        };
        let origin_attr = match attrs.origin {
            Some(Origin::Igp) => text_of("igp"),
            Some(Origin::Egp) => text_of("egp"),
            Some(Origin::Incomplete) => text_of("incomplete"),
            None => String::new(),
        };
        RouteCtx {
            prefix: prefix_str,
            prefix_len,
            afi,
            peer_as,
            peer_addr: peer_addr.to_text(),
            rib_type: rib_type_str,
            action: text_of(action),
            as_path: as_path_str,
            as_path_len: n as u32,
            origin_asn,
            has_prepend,
            next_hop,
            local_pref: match attrs.local_pref {
                Some(v) => v,
                None => 0,
            },
            med: match attrs.multi_exit_disc {
                Some(v) => v,
                None => 0,
            },
            origin_attr,
            community_set: route_communities(attrs),
            ext_community_set: ext_strings(&attrs.extended_communities),
            large_community_set: large_strings(&attrs.large_communities),
            rpki: text_of(rpki),
            aspa: text_of("unknown"),
            otc_asn: match attrs.only_to_customer {
                Some(v) => v,
                None => 0,
            },
            is_evpn: attrs.evpn_reach.is_some(),
            is_bgpls: attrs.bgpls_reach.is_some(),
            is_srpolicy: attrs.sr_policy_nlris.len() > 0,
            is_unnumbered,
            evpn_type,
        }
    }

    /// Whether the community text `c` (such as "65512:100") is present.
    pub fn community_has(&self, c: &str) -> (r: bool)
        ensures
            r == strings_view(self.community_set@).contains(c@),
    {
        let t = text_of(c);
        community_listed(&self.community_set, &t)
    }

    /// Whether `asn` is written anywhere in the AS_PATH text: in a sequence,
    /// a set or a confederation segment alike.
    pub fn as_path_contains(&self, asn: u32) -> (r: bool)
        ensures
            r == text_numbers(self.as_path@).contains(asn as nat),
    {
        let ghost s = self.as_path@;
        let mut it: Chars = self.as_path.as_str().chars();
        let mut found = false;
        let mut in_run = false;
        let mut val: u64 = 0;
        let ghost mut i: int = 0;
        proof {
            assert(s.skip(0) =~= s);
            assert(s.take(0) =~= Seq::<char>::empty());
        }
        loop
            invariant_except_break
                0 <= i <= s.len(),
                it.remaining() == s.skip(i),
            invariant
                s == self.as_path@,
                found == digit_scan(s.take(i)).0.contains(asn as nat),
                in_run == digit_scan(s.take(i)).1 is Some,
                in_run ==> run_tracked(digit_scan(s.take(i)).1->0, val),
            ensures
                i == s.len(),
            decreases s.len() - i,
        {
            match it.next() {
                None => {
                    proof {
                        assert(s.skip(i).len() == 0);
                    }
                    break;
                },
                Some(c) => {
                    proof {
                        assert(s.skip(i)[0] == c);
                        assert(s.skip(i).drop_first() =~= s.skip(i + 1));
                        assert(s.take(i + 1).drop_last() =~= s.take(i));
                        assert(s.take(i + 1).last() == c);
                    }
                    let ghost before = digit_scan(s.take(i));
                    if '0' <= c && c <= '9' {
                        let d: u64 = (c as u32 - 48) as u64;
                        if in_run {
                            if val <= 0xffff_ffff {
                                val = val * 10 + d;
                                if val > 0xffff_ffff {
                                    val = 0x1_0000_0000;
                                }
                            }
                        } else {
                            val = d;
                        }
                        in_run = true;
                    } else {
                        if in_run && val == asn as u64 {
                            found = true;
                        }
                        proof {
                            if before.1 is Some {
                                assert(before.0.push(before.1->0).contains(asn as nat) == (
                                found || before.1->0 == asn as nat)) by {
                                    let q = before.0.push(before.1->0);
                                    if before.0.contains(asn as nat) {
                                        let k = choose|k: int|
                                            0 <= k < before.0.len() && before.0[k] == asn as nat;
                                        assert(q[k] == asn as nat);
                                    }
                                    if before.1->0 == asn as nat {
                                        assert(q[q.len() - 1] == asn as nat);
                                    }
                                }
                            }
                        }
                        in_run = false;
                    }
                    proof {
                        i = i + 1;
                    }
                },
            }
        }
        proof {
            assert(s.take(i) =~= s);
            let sc = digit_scan(s);
            if sc.1 is Some {
                let q = sc.0.push(sc.1->0);
                assert(q.contains(asn as nat) == (found || sc.1->0 == asn as nat)) by {
                    if sc.0.contains(asn as nat) {
                        let k = choose|k: int| 0 <= k < sc.0.len() && sc.0[k] == asn as nat;
                        assert(q[k] == asn as nat);
                    }
                    if sc.1->0 == asn as nat {
                        assert(q[q.len() - 1] == asn as nat);
                    }
                }
            }
        }
        found || (in_run && val == asn as u64)
    }

    /// Whether the context's prefix lies within the network `cidr`: both
    /// texts read as networks of one family, the prefix is no shorter, and
    /// the network contains the prefix's first address.
    pub fn prefix_in_range(&self, cidr: &str) -> (r: bool)
        ensures
            r == match (ipnet_text_net(cidr@), ipnet_text_net(self.prefix@)) {
                (Some(range), Some(me)) => range.v6 == me.v6 && me.len >= range.len
                    && net_contains_addr(range, network_addr(me)),
                _ => false,
            },
    {
        let range = match parse_ip_net(cidr) {
            Some(n) => n,
            None => {
                return false;
            },
        };
        let me = match parse_ip_net(self.prefix.as_str()) {
            Some(n) => n,
            None => {
                return false;
            },
        };
        match (&range, &me) {
            (IpNetwork::V4(_), IpNetwork::V4(m)) => {
                assert(m.addr@.skip(0) =~= m.addr@);
                let first = match read_net(&m.addr, 0, m.prefix_len, Afi::Ipv4) {
                    Prefix::V4(n) => IpAddress::V4(n.addr),
                    _ => IpAddress::V4([0u8; 4]),
                };
                range.contains_addr(&first) && m.prefix_len >= range.prefix_len()
            },
            (IpNetwork::V6(_), IpNetwork::V6(m)) => {
                assert(m.addr@.skip(0) =~= m.addr@);
                let first = match read_net(&m.addr, 0, m.prefix_len, Afi::Ipv6) {
                    Prefix::V6(n) => IpAddress::V6(n.addr),
                    _ => IpAddress::V6([0u8; 16]),
                };
                range.contains_addr(&first) && m.prefix_len >= range.prefix_len()
            },
            _ => false,
        }
    }
}

/// The first address of a network (host bits cleared).
pub open spec fn network_addr(n: NetModel) -> IpModel {
    if n.v6 {
        IpModel::V6(masked_addr(n.addr, n.len as nat, 16))
    } else {
        IpModel::V4(masked_addr(n.addr, n.len as nat, 4))
    }
}


impl Default for RouteCtx {
    /// Every text empty, every number zero, every flag false.
    fn default() -> (r: RouteCtx)
        ensures
            r.prefix@.len() == 0 && r.afi@.len() == 0 && r.peer_addr@.len() == 0
                && r.rib_type@.len() == 0 && r.action@.len() == 0 && r.as_path@.len() == 0
                && r.next_hop@.len() == 0 && r.origin_attr@.len() == 0 && r.rpki@.len() == 0
                && r.aspa@.len() == 0,
            r.prefix_len == 0 && r.peer_as == 0 && r.as_path_len == 0 && r.origin_asn == 0
                && r.local_pref == 0 && r.med == 0 && r.otc_asn == 0 && r.evpn_type == 0,
            !r.has_prepend && !r.is_evpn && !r.is_bgpls && !r.is_srpolicy && !r.is_unnumbered,
            r.community_set@.len() == 0 && r.ext_community_set@.len() == 0
                && r.large_community_set@.len() == 0,
    {
        RouteCtx {
            prefix: String::new(),
            prefix_len: 0,
            afi: String::new(),
            peer_as: 0,
            peer_addr: String::new(),
            rib_type: String::new(),
            action: String::new(),
            as_path: String::new(),
            as_path_len: 0,
            origin_asn: 0,
            has_prepend: false,
            next_hop: String::new(),
            local_pref: 0,
            med: 0,
            origin_attr: String::new(),
            community_set: Vec::new(),
            ext_community_set: Vec::new(),
            large_community_set: Vec::new(),
            rpki: String::new(),
            aspa: String::new(),
            otc_asn: 0,
            is_evpn: false,
            is_bgpls: false,
            is_srpolicy: false,
            is_unnumbered: false,
            evpn_type: 0,
        }
    }
}

} // verus!
