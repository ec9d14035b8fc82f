//! Programmable route filters: ordered criteria lists, the first matching
//! filter deciding a route's fate.

use vstd::prelude::*;
use crate::bgp::types::{
    AsPathSegment, Prefix, PrefixModel, SegmentModel, StandardCommunity, adjacent_dup, all_asns,
    has_adjacent_dup, segment_asns,
};
use crate::bgp::path_attrs::PathAttributes;
use crate::cidr::{IpNetwork, NetModel, ipnet_text_net, net_contains_addr, parse_ip_net};
use crate::net::{IpAddress, IpModel};
use crate::rib::filter_expr::{
    Expr, ExprModel, RouteCtx, RouteCtxModel, community_listed, eval_model, opt_model, parse_expr,
    spec_parse_expr, strings_view,
};
use crate::text::{dec, push_dec};

verus! {

/// What a filter does with the routes it matches.
#[derive(Debug, Clone, Copy, PartialEq, Eq, Structural)]
pub enum FilterAction {
    /// Keep the route and forward its event.
    Accept,
    /// Drop the route.
    Deny,
    /// Keep the route, marked for policy pipelines.
    Tag,
}

/// Outcome of a filter chain for one route.
#[derive(Debug, Clone, Copy, PartialEq, Eq, Structural)]
pub enum FilterVerdict {
    Accept,
    Deny,
    /// No filter matched: the route is accepted by default.
    Default,
}

/// One filter: every criterion that is set must hold for a route to match.
#[derive(Debug)]
pub struct RouteFilter {
    /// Label for logging.
    pub name: String,
    pub action: FilterAction,
    /// Networks (CIDR text) one of which must contain the route's address.
    pub prefix_list: Vec<String>,
    /// Peer ASNs one of which must be the announcing peer's.
    pub peer_as_list: Vec<u32>,
    /// Communities ("asn:value") one of which the route must carry.
    pub community_list: Vec<String>,
    /// Peer addresses (text) one of which must be the announcing peer's.
    pub peer_addr_list: Vec<String>,
    /// ASNs that must all occur in the AS_PATH.
    pub as_path_contains: Vec<u32>,
    /// LOCAL_PREF (0 when absent) must be at least this.
    pub local_pref_min: Option<u32>,
    /// LOCAL_PREF (0 when absent) must be at most this.
    pub local_pref_max: Option<u32>,
    /// MED (0 when absent) must be at most this.
    pub med_max: Option<u32>,
    /// A filter expression that must also hold, where a route context is given.
    pub expr: Option<String>,
}

/// A filter with its networks and expression parsed.
pub struct CompiledFilter {
    pub raw: RouteFilter,
    pub nets: Vec<IpNetwork>,
    pub peer_nets: Vec<IpAddress>,
    pub compiled_expr: Option<Expr>,
}

/// The networks that parse among the texts, in order.
pub open spec fn parsed_nets(texts: Seq<String>) -> Seq<NetModel>
    decreases texts.len(),
{
    if texts.len() == 0 {
        Seq::empty()
    } else {
        let prev = parsed_nets(texts.drop_last());
        match ipnet_text_net(texts.last()@) {
            Some(n) => prev.push(n),
            None => prev,
        }
    }
}

pub open spec fn nets_view(v: Seq<IpNetwork>) -> Seq<NetModel> {
    v.map_values(|n: IpNetwork| n@)
}

pub open spec fn addrs_view(v: Seq<IpAddress>) -> Seq<IpModel> {
    v.map_values(|a: IpAddress| a@)
}

/// The expression of a filter, where it parses.
pub open spec fn expr_of(t: Option<String>) -> Option<ExprModel> {
    match t {
        Some(s) => spec_parse_expr(s@),
        None => None,
    }
}

impl CompiledFilter {
    /// Every network has a prefix length that fits its family.
    pub open spec fn wf(&self) -> bool {
        forall|i: int| 0 <= i < self.nets@.len() ==> (#[trigger] self.nets@[i]).wf()
    }

    /// Parses the filter's networks (dropping those that do not parse) and
    /// its expression (dropped if it does not parse); `peer_addrs` are the
    /// filter's peer addresses, read from `raw.peer_addr_list`.
    pub fn compile(raw: RouteFilter, peer_addrs: Vec<IpAddress>) -> (r: CompiledFilter)
        ensures
            r.raw == raw,
            nets_view(r.nets@) == parsed_nets(raw.prefix_list@),
            r.peer_nets == peer_addrs,
            opt_model(r.compiled_expr) == expr_of(raw.expr),
            r.wf(),
    {
        let mut nets: Vec<IpNetwork> = Vec::new();
        let mut i: usize = 0;
        while i < raw.prefix_list.len()
            invariant
                i <= raw.prefix_list@.len(),
                nets_view(nets@) == parsed_nets(raw.prefix_list@.subrange(0, i as int)),
                forall|k: int| 0 <= k < nets@.len() ==> (#[trigger] nets@[k]).wf(),
            decreases raw.prefix_list@.len() - i,
        {
            let parsed = parse_ip_net(raw.prefix_list[i].as_str());
            proof {
                assert(raw.prefix_list@.subrange(0, i + 1).drop_last() =~= raw.prefix_list@.subrange(
                    0,
                    i as int,
                ));
            }
            match parsed {
                Some(n) => {
                    nets.push(n);
                    assert(nets_view(nets@) =~= parsed_nets(raw.prefix_list@.subrange(0, i + 1)));
                },
                None => {},
            }
            i = i + 1;
        }
        assert(raw.prefix_list@.subrange(0, raw.prefix_list@.len() as int) =~= raw.prefix_list@);
        let compiled_expr = match &raw.expr {
            Some(t) => match parse_expr(t.as_str()) {
                Ok(e) => Some(e),
                Err(_) => None,
            },
            None => None,
        };
        CompiledFilter { raw, nets, peer_nets: peer_addrs, compiled_expr }
    }
}

/// The address of a prefix, under any labels or route distinguisher.
pub open spec fn prefix_addr(p: PrefixModel) -> IpModel
    decreases p,
{
    match p {
        PrefixModel::V4 { addr, .. } => IpModel::V4(addr),
        PrefixModel::V6 { addr, .. } => IpModel::V6(addr),
        PrefixModel::Labeled { prefix, .. } => prefix_addr(*prefix),
        PrefixModel::Vpn { prefix, .. } => prefix_addr(*prefix),
    }
}

/// The length of a prefix, under any labels or route distinguisher.
pub open spec fn prefix_length(p: PrefixModel) -> u8
    decreases p,
{
    match p {
        PrefixModel::V4 { len, .. } => len,
        PrefixModel::V6 { len, .. } => len,
        PrefixModel::Labeled { prefix, .. } => prefix_length(*prefix),
        PrefixModel::Vpn { prefix, .. } => prefix_length(*prefix),
    }
}

fn prefix_address(p: &Prefix) -> (r: IpAddress)
    ensures
        r@ == prefix_addr(p@),
    decreases p,
{
    match p {
        Prefix::V4(n) => IpAddress::V4(n.addr),
        Prefix::V6(n) => IpAddress::V6(n.addr),
        Prefix::Labeled { prefix, .. } => prefix_address(prefix),
        Prefix::Vpn { prefix, .. } => prefix_address(prefix),
    }
}

fn prefix_len_of(p: &Prefix) -> (r: u8)
    ensures
        r == prefix_length(p@),
    decreases p,
{
    match p {
        Prefix::V4(n) => n.prefix_len,
        Prefix::V6(n) => n.prefix_len,
        Prefix::Labeled { prefix, .. } => prefix_len_of(prefix),
        Prefix::Vpn { prefix, .. } => prefix_len_of(prefix),
    }
}

/// A community as "asn:value" in decimal.
pub open spec fn pair_text(c: StandardCommunity) -> Seq<char> {
    dec((c.0 / 65536) as nat) + seq![':'] + dec((c.0 % 65536) as nat)
}

/// The route's communities as "asn:value" texts, in order.
pub open spec fn route_comm_texts(a: &PathAttributes) -> Seq<Seq<char>> {
    pair_texts(a.communities@)
}

pub open spec fn pair_texts(v: Seq<StandardCommunity>) -> Seq<Seq<char>> {
    v.map_values(|c: StandardCommunity| pair_text(c))
}

/// All ASNs of the route's AS_PATH (none without one).
pub open spec fn path_asns(a: &PathAttributes) -> Seq<u32> {
    match a.as_path {
        Some(p) => all_asns(p@),
        None => Seq::empty(),
    }
}

pub open spec fn or_zero(v: Option<u32>) -> int {
    match v {
        Some(x) => x as int,
        None => 0,
    }
}

/// Whether every set criterion of `f` holds for the route.
pub open spec fn filter_matches(
    f: &CompiledFilter,
    prefix: PrefixModel,
    peer_as: u32,
    peer: IpModel,
    a: &PathAttributes,
    ctx: Option<RouteCtxModel>,
) -> bool {
    let nets = nets_view(f.nets@);
    let comms = f.raw.community_list@;
    let wants = f.raw.as_path_contains@;
    &&& nets.len() > 0 ==> exists|i: int|
        0 <= i < nets.len() && net_contains_addr(#[trigger] nets[i], prefix_addr(prefix))
    &&& f.raw.peer_as_list@.len() > 0 ==> f.raw.peer_as_list@.contains(peer_as)
    &&& f.peer_nets@.len() > 0 ==> addrs_view(f.peer_nets@).contains(peer)
    &&& comms.len() > 0 ==> exists|i: int|
        0 <= i < comms.len() && route_comm_texts(a).contains((#[trigger] comms[i])@)
    &&& forall|i: int| 0 <= i < wants.len() ==> path_asns(a).contains(#[trigger] wants[i])
    &&& match f.raw.local_pref_min {
        Some(m) => or_zero(a.local_pref) >= m,
        None => true,
    }
    &&& match f.raw.local_pref_max {
        Some(m) => or_zero(a.local_pref) <= m,
        None => true,
    }
    &&& match f.raw.med_max {
        Some(m) => or_zero(a.multi_exit_disc) <= m,
        None => true,
    }
    &&& match (f.compiled_expr, ctx) {
        (Some(e), Some(c)) => eval_model(e@, c),
        _ => true,
    }
}

fn community_text(c: StandardCommunity) -> (r: String)
    ensures
        r@ == pair_text(c),
{
    let mut s = String::new();
    push_dec(&mut s, c.asn() as u64);
    s.push(':');
    push_dec(&mut s, c.value() as u64);
    assert(s@ =~= pair_text(c));
    s
}

pub fn route_communities(a: &PathAttributes) -> (r: Vec<String>)
    ensures
        strings_view(r@) == route_comm_texts(a),
{
    let mut out: Vec<String> = Vec::new();
    let mut i: usize = 0;
    while i < a.communities.len()
        invariant
            i <= a.communities@.len(),
            strings_view(out@) =~= pair_texts(a.communities@.subrange(0, i as int)),
        decreases a.communities@.len() - i,
    {
        let c = a.communities[i];
        let t = community_text(c);
        let ghost prev = out@;
        let ghost tv = t@;
        out.push(t);
        proof {
            let lhs = strings_view(out@);
            let rhs = pair_texts(a.communities@.subrange(0, i + 1));
            assert(out@ == prev.push(t));
            assert(strings_view(prev).len() == prev.len());
            assert(pair_texts(a.communities@.subrange(0, i as int)).len() == i);
            assert(prev.len() == i);
            assert(lhs.len() == i + 1);
            assert(rhs.len() == i + 1);
            assert forall|k: int| 0 <= k < i + 1 implies lhs[k] == rhs[k] by {
                if k < i {
                    assert(out@[k] == prev[k]);
                    assert(strings_view(prev)[k] == pair_texts(a.communities@.subrange(0, i as int))[k]);
                } else {
                    assert(out@[k] == t);
                    assert(rhs[k] == pair_text(c));
                }
            }
            assert(lhs =~= rhs);
        }
        i = i + 1;
    }
    assert(a.communities@.subrange(0, a.communities@.len() as int) =~= a.communities@);
    out
}

fn route_path_asns(a: &PathAttributes) -> (r: Vec<u32>)
    ensures
        r@ == path_asns(a),
{
    let mut out: Vec<u32> = Vec::new();
    match &a.as_path {
        None => {},
        Some(p) => {
            let mut i: usize = 0;
            while i < p.0.len()
                invariant
                    i <= p@.len(),
                    p@ == p.0@.map_values(|s: AsPathSegment| s@),
                    out@ == all_asns(p@.subrange(0, i as int)),
                decreases p@.len() - i,
            {
                let seg = p.0[i].asns();
                let mut j: usize = 0;
                let ghost before = out@;
                while j < seg.len()
                    invariant
                        j <= seg@.len(),
                        out@ == before + seg@.subrange(0, j as int),
                    decreases seg@.len() - j,
                {
                    out.push(seg[j]);
                    j = j + 1;
                    assert(out@ =~= before + seg@.subrange(0, j as int));
                }
                proof {
                    assert(seg@.subrange(0, seg@.len() as int) =~= seg@);
                    assert(p@.subrange(0, i + 1).drop_last() =~= p@.subrange(0, i as int));
                    assert(p@.subrange(0, i + 1).last() == p@[i as int]);
                }
                i = i + 1;
            }
            assert(p@.subrange(0, p@.len() as int) =~= p@);
        },
    }
    out
}

fn u32_listed(v: &Vec<u32>, x: u32) -> (r: bool)
    ensures
        r == v@.contains(x),
{
    let mut i: usize = 0;
    while i < v.len()
        invariant
            i <= v@.len(),
            forall|k: int| 0 <= k < i ==> v@[k] != x,
        decreases v@.len() - i,
    {
        if v[i] == x {
            assert(v@[i as int] == x);
            return true;
        }
        i = i + 1;
    }
    false
}

fn bytes_equal(a: &[u8], b: &[u8]) -> (r: bool)
    ensures
        r == (a@ == b@),
{
    if a.len() != b.len() {
        return false;
    }
    let mut i: usize = 0;
    while i < a.len()
        invariant
            a.len() == b.len(),
            i <= a.len(),
            forall|k: int| 0 <= k < i ==> a@[k] == b@[k],
        decreases a.len() - i,
    {
        if a[i] != b[i] {
            return false;
        }
        i = i + 1;
    }
    assert(a@ =~= b@);
    true
}

fn same_address(a: &IpAddress, b: &IpAddress) -> (r: bool)
    ensures
        r == (a@ == b@),
{
    match (a, b) {
        (IpAddress::V4(x), IpAddress::V4(y)) => bytes_equal(x, y),
        (IpAddress::V6(x), IpAddress::V6(y)) => bytes_equal(x, y),
        _ => false,
    }
}

fn address_listed(v: &Vec<IpAddress>, a: &IpAddress) -> (r: bool)
    ensures
        r == addrs_view(v@).contains(a@),
{
    let ghost m = addrs_view(v@);
    let mut i: usize = 0;
    while i < v.len()
        invariant
            i <= v@.len(),
            m == addrs_view(v@),
            forall|k: int| 0 <= k < i ==> m[k] != a@,
        decreases v@.len() - i,
    {
        if same_address(&v[i], a) {
            assert(m[i as int] == a@);
            return true;
        }
        i = i + 1;
    }
    false
}

fn some_net_contains(nets: &Vec<IpNetwork>, a: &IpAddress) -> (r: bool)
    requires
        forall|i: int| 0 <= i < nets@.len() ==> (#[trigger] nets@[i]).wf(),
    ensures
        r == exists|i: int|
            0 <= i < nets@.len() && net_contains_addr(#[trigger] nets_view(nets@)[i], a@),
{
    let ghost m = nets_view(nets@);
    let mut i: usize = 0;
    while i < nets.len()
        invariant
            i <= nets@.len(),
            m == nets_view(nets@),
            forall|k: int| 0 <= k < nets@.len() ==> (#[trigger] nets@[k]).wf(),
            forall|k: int| 0 <= k < i ==> !net_contains_addr(#[trigger] m[k], a@),
        decreases nets@.len() - i,
    {
        if nets[i].contains_addr(a) {
            assert(net_contains_addr(m[i as int], a@));
            return true;
        }
        i = i + 1;
    }
    false
}

fn some_community_wanted(wants: &Vec<String>, have: &Vec<String>) -> (r: bool)
    ensures
        r == exists|i: int|
            0 <= i < wants@.len() && strings_view(have@).contains((#[trigger] wants@[i])@),
{
    let mut i: usize = 0;
    while i < wants.len()
        invariant
            i <= wants@.len(),
            forall|k: int|
                0 <= k < i ==> !strings_view(have@).contains((#[trigger] wants@[k])@),
        decreases wants@.len() - i,
    {
        if community_listed(have, &wants[i]) {
            return true;
        }
        i = i + 1;
    }
    false
}

fn all_asns_present(wants: &Vec<u32>, have: &Vec<u32>) -> (r: bool)
    ensures
        r == forall|i: int| 0 <= i < wants@.len() ==> have@.contains(#[trigger] wants@[i]),
{
    let mut i: usize = 0;
    while i < wants.len()
        invariant
            i <= wants@.len(),
            forall|k: int| 0 <= k < i ==> have@.contains(#[trigger] wants@[k]),
        decreases wants@.len() - i,
    {
        if !u32_listed(have, wants[i]) {
            return false;
        }
        i = i + 1;
    }
    true
}

fn value_or_zero(v: Option<u32>) -> (r: u32)
    ensures
        r == or_zero(v),
{
    match v {
        Some(x) => x,
        None => 0,
    }
}

impl CompiledFilter {
    /// Whether every set criterion of the filter holds for the route.
    pub fn matches(
        &self,
        prefix: &Prefix,
        peer_as: u32,
        peer_addr: &IpAddress,
        attrs: &PathAttributes,
        ctx: Option<&RouteCtx>,
    ) -> (r: bool)
        requires
            self.wf(),
        ensures
            r == filter_matches(
                self,
                prefix@,
                peer_as,
                peer_addr@,
                attrs,
                match ctx {
                    Some(c) => Some(c@),
                    None => None,
                },
            ),
    {
        if self.nets.len() > 0 {
            let a = prefix_address(prefix);
            if !some_net_contains(&self.nets, &a) {
                return false;
            }
        }
        if self.raw.peer_as_list.len() > 0 && !u32_listed(&self.raw.peer_as_list, peer_as) {
            return false;
        }
        if self.peer_nets.len() > 0 && !address_listed(&self.peer_nets, peer_addr) {
            return false;
        }
        if self.raw.community_list.len() > 0 {
            let have = route_communities(attrs);
            if !some_community_wanted(&self.raw.community_list, &have) {
                return false;
            }
        }
        if self.raw.as_path_contains.len() > 0 {
            let have = route_path_asns(attrs);
            if !all_asns_present(&self.raw.as_path_contains, &have) {
                return false;
            }
        }
        match self.raw.local_pref_min {
            Some(min) => {
                if value_or_zero(attrs.local_pref) < min {
                    return false;
                }
            },
            None => {},
        }
        match self.raw.local_pref_max {
            Some(max) => {
                if value_or_zero(attrs.local_pref) > max {
                    return false;
                }
            },
            None => {},
        }
        match self.raw.med_max {
            Some(max) => {
                if value_or_zero(attrs.multi_exit_disc) > max {
                    return false;
                }
            },
            None => {},
        }
        match (&self.compiled_expr, ctx) {
            (Some(e), Some(c)) => {
                if !e.eval(c) {
                    return false;
                }
            },
            _ => {},
        }
        true
    }
}

/// The route context of a route, for expression evaluation.
pub open spec fn route_ctx_model(
    prefix: PrefixModel,
    peer_as: u32,
    action: Seq<char>,
    a: &PathAttributes,
    rpki: Option<Seq<char>>,
) -> RouteCtxModel {
    let asns = path_asns(a);
    RouteCtxModel {
        prefix_len: prefix_length(prefix),
        as_path_len: asns.len() as usize,
        origin_asn: if asns.len() > 0 {
            asns.last()
        } else {
            0
        },
        has_prepend: adjacent_dup(asns),
        rpki: match rpki {
            Some(r) => r,
            None => "unknown"@,
        },
        action,
        peer_as,
        local_pref: a.local_pref,
        med: a.multi_exit_disc,
        communities: route_comm_texts(a),
    }
}

/// Builds the route context of a route; the RPKI state is "unknown" when not
/// given.
pub fn build_route_ctx(
    prefix: &Prefix,
    peer_as: u32,
    action: &str,
    attrs: &PathAttributes,
    rpki: Option<&str>,
) -> (r: RouteCtx)
    ensures
        r@ == route_ctx_model(
            prefix@,
            peer_as,
            action@,
            attrs,
            match rpki {
                Some(t) => Some(t@),
                None => None,
            },
        ),
{
    let asns = route_path_asns(attrs);
    let n = asns.len();
    let origin_asn = if n > 0 {
        asns[n - 1]
    } else {
        0
    };
    let has_prepend = has_adjacent_dup(asns.as_slice());
    let rpki_text = match rpki {
        Some(t) => t.to_owned(),
        None => "unknown".to_owned(),
    };
    RouteCtx {
        prefix_len: prefix_len_of(prefix),
        as_path_len: n,
        origin_asn,
        has_prepend,
        rpki: rpki_text,
        action: action.to_owned(),
        peer_as,
        local_pref: attrs.local_pref,
        med: attrs.multi_exit_disc,
        community_set: route_communities(attrs),
    }
}

/// The verdict a filter's action gives.
pub open spec fn verdict_of(a: FilterAction) -> FilterVerdict {
    match a {
        FilterAction::Deny => FilterVerdict::Deny,
        _ => FilterVerdict::Accept,
    }
}

/// Index of the first filter, from `k` on, that matches the route.
pub open spec fn first_match_from(
    fs: Seq<CompiledFilter>,
    k: int,
    prefix: PrefixModel,
    peer_as: u32,
    peer: IpModel,
    a: &PathAttributes,
    ctx: Option<RouteCtxModel>,
) -> Option<int>
    decreases fs.len() - k,
{
    if k < 0 || k >= fs.len() {
        None
    } else if filter_matches(&fs[k], prefix, peer_as, peer, a, ctx) {
        Some(k)
    } else {
        first_match_from(fs, k + 1, prefix, peer_as, peer, a, ctx)
    }
}

/// The verdict and filter name of a chain: those of the first filter that
/// matches, else `Default` and no name.
pub open spec fn chain_result(
    fs: Seq<CompiledFilter>,
    prefix: PrefixModel,
    peer_as: u32,
    peer: IpModel,
    a: &PathAttributes,
    ctx: Option<RouteCtxModel>,
) -> (FilterVerdict, Option<Seq<char>>) {
    match first_match_from(fs, 0, prefix, peer_as, peer, a, ctx) {
        Some(i) => (verdict_of(fs[i].raw.action), Some(fs[i].raw.name@)),
        None => (FilterVerdict::Default, None),
    }
}

pub open spec fn name_view(n: Option<&str>) -> Option<Seq<char>> {
    match n {
        Some(s) => Some(s@),
        None => None,
    }
}

/// An ordered list of compiled filters; the first that matches decides.
pub struct FilterEngine {
    filters: Vec<CompiledFilter>,
}

impl FilterEngine {
    #[verifier::type_invariant]
    spec fn inv(&self) -> bool {
        forall|i: int| 0 <= i < self.filters@.len() ==> (#[trigger] self.filters@[i]).wf()
    }

    /// The filters, in order.
    pub closed spec fn filters(&self) -> Seq<CompiledFilter> {
        self.filters@
    }

    /// An engine with no filters.
    pub fn new() -> (r: FilterEngine)
        ensures
            r.filters() == Seq::<CompiledFilter>::empty(),
    {
        FilterEngine { filters: Vec::new() }
    }

    /// An engine with the given filters, in order.
    pub fn from_filters(filters: Vec<CompiledFilter>) -> (r: FilterEngine)
        requires
            forall|i: int| 0 <= i < filters@.len() ==> (#[trigger] filters@[i]).wf(),
        ensures
            r.filters() == filters@,
    {
        FilterEngine { filters }
    }

    /// Number of filters.
    pub fn len(&self) -> (r: usize)
        ensures
            r == self.filters().len(),
    {
        self.filters.len()
    }

    /// Whether there are no filters.
    pub fn is_empty(&self) -> (r: bool)
        ensures
            r == (self.filters().len() == 0),
    {
        self.filters.len() == 0
    }

    fn any_has_expr(&self) -> (r: bool)
        ensures
            r == exists|i: int|
                0 <= i < self.filters().len() && (#[trigger] self.filters()[i]).compiled_expr
                    is Some,
    {
        let mut i: usize = 0;
        while i < self.filters.len()
            invariant
                i <= self.filters@.len(),
                forall|k: int| 0 <= k < i ==> (#[trigger] self.filters@[k]).compiled_expr is None,
            decreases self.filters@.len() - i,
        {
            if self.filters[i].compiled_expr.is_some() {
                return true;
            }
            i = i + 1;
        }
        false
    }

    /// Applies the chain with a caller-supplied route context: the verdict
    /// and name of the first filter that matches, else `Default`.
    pub fn apply_with_ctx(
        &self,
        prefix: &Prefix,
        peer_as: u32,
        peer_addr: &IpAddress,
        attrs: &PathAttributes,
        route_ctx: Option<&RouteCtx>,
    ) -> (r: (FilterVerdict, Option<&str>))
        ensures
            (r.0, name_view(r.1)) == chain_result(
                self.filters(),
                prefix@,
                peer_as,
                peer_addr@,
                attrs,
                match route_ctx {
                    Some(c) => Some(c@),
                    None => None,
                },
            ),
    {
        proof {
            use_type_invariant(self);
        }
        let ghost ctx = match route_ctx {
            Some(c) => Some(c@),
            None => None,
        };
        let ghost fs = self.filters@;
        let mut i: usize = 0;
        while i < self.filters.len()
            invariant
                i <= fs.len(),
                fs == self.filters@,
                forall|k: int| 0 <= k < fs.len() ==> (#[trigger] fs[k]).wf(),
                first_match_from(fs, 0, prefix@, peer_as, peer_addr@, attrs, ctx)
                    == first_match_from(fs, i as int, prefix@, peer_as, peer_addr@, attrs, ctx),
                ctx == match route_ctx {
                    Some(c) => Some(c@),
                    None => None,
                },
            decreases fs.len() - i,
        {
            let cf = &self.filters[i];
            if cf.matches(prefix, peer_as, peer_addr, attrs, route_ctx) {
                let verdict = match cf.raw.action {
                    FilterAction::Deny => FilterVerdict::Deny,
                    _ => FilterVerdict::Accept,
                };
                return (verdict, Some(cf.raw.name.as_str()));
            }
            i = i + 1;
        }
        (FilterVerdict::Default, None)
    }

    /// Applies the chain to an announced route; where some filter has an
    /// expression, it is evaluated in the route's context (RPKI "unknown").
    pub fn apply(&self, prefix: &Prefix, peer_as: u32, peer_addr: &IpAddress, attrs: &PathAttributes) -> (r: (
        FilterVerdict,
        Option<&str>,
    ))
        ensures
            (r.0, name_view(r.1)) == chain_result(
                self.filters(),
                prefix@,
                peer_as,
                peer_addr@,
                attrs,
                if exists|i: int|
                    0 <= i < self.filters().len() && (#[trigger] self.filters()[i]).compiled_expr
                        is Some {
                    Some(route_ctx_model(prefix@, peer_as, "announce"@, attrs, None))
                } else {
                    None
                },
            ),
    {
        if self.any_has_expr() {
            let ctx = build_route_ctx(prefix, peer_as, "announce", attrs, None);
            self.apply_with_ctx(prefix, peer_as, peer_addr, attrs, Some(&ctx))
        } else {
            self.apply_with_ctx(prefix, peer_as, peer_addr, attrs, None)
        }
    }
}

} // verus!
