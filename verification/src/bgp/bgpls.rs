//! BGP-LS: link-state NLRI (RFC 7752, RFC 9514) and the BGP-LS path
//! attribute (type 29) with its segment-routing and flex-algorithm TLVs.

use vstd::prelude::*;
use crate::error::{Error, ErrorModel, eof};
use crate::net::{IpAddress, IpModel};
use crate::text::{lossy_string, utf8_lossy, dec, hex2, push_dec, push_hex2};
use crate::bgp::types::{Afi, Prefix, PrefixModel, Ipv4Net, Ipv6Net};
use crate::bgp::nlri::{read_net, net_model, masked_addr, octets_for, width_of};
use crate::wire::{
    TlvRef, be16_at, be24_at, be32_at, be64_at, read_u16, read_u24, read_u32, read_u64, read_array4,
    read_array16, copy_range, spec_tlvs, split_tlvs, tlv_refs_match,
};

verus! {

// ─── BGP-LS attribute (type 29) ──────────────────────────────────────────────

/// SR Capabilities (TLV 1034): flags and SRGB (base, range) pairs.
#[derive(Clone, Debug)]
pub struct SrCapabilities {
    pub flags: u8,
    pub srgb_ranges: Vec<(u32, u32)>,
}

/// SR Local Block (TLV 1036): flags and SRLB (base, range) pairs.
#[derive(Clone, Debug)]
pub struct SrLocalBlock {
    pub flags: u8,
    pub srlb_ranges: Vec<(u32, u32)>,
}

/// Adjacency SID (TLV 1099).
#[derive(Clone, Copy, Debug, PartialEq, Eq, Structural)]
pub struct AdjSid {
    pub flags: u8,
    pub weight: u8,
    pub label: u32,
}

/// LAN Adjacency SID (TLV 1100).
#[derive(Clone, Copy, Debug)]
pub struct LanAdjSid {
    pub flags: u8,
    pub weight: u8,
    pub neighbor_id: [u8; 7],
    pub label: u32,
}

/// Prefix SID (TLV 1158).
#[derive(Clone, Copy, Debug, PartialEq, Eq, Structural)]
pub struct LsPrefixSid {
    pub flags: u8,
    pub algorithm: u8,
    pub label: u32,
}

/// Flexible Algorithm Definition (TLV 1039, RFC 9350).
#[derive(Clone, Copy, Debug, PartialEq, Eq, Structural)]
pub struct FlexAlgoDef {
    pub algo_id: u8,
    pub metric_type: u8,
    pub calc_type: u8,
    pub priority: u8,
    pub exclude_any: Option<u32>,
    pub include_any: Option<u32>,
    pub include_all: Option<u32>,
}

/// Flexible Algorithm Prefix Metric (TLV 1044).
#[derive(Clone, Copy, Debug, PartialEq, Eq, Structural)]
pub struct FlexAlgoPrefixMetric {
    pub algo_id: u8,
    pub metric: u32,
}

/// Decoded BGP-LS path attribute. The bandwidth fields hold the bits of the
/// IEEE 754 single-precision values as carried on the wire.
#[derive(Clone, Debug)]
pub struct BgpLsAttribute {
    pub node_flags: Option<u8>,
    pub node_name: Option<String>,
    pub isis_area_id: Option<Vec<u8>>,
    pub ipv4_router_id: Option<[u8; 4]>,
    pub ipv6_router_id: Option<[u8; 16]>,
    pub sr_capabilities: Option<SrCapabilities>,
    pub sr_algorithm: Vec<u8>,
    pub sr_local_block: Option<SrLocalBlock>,
    pub link_metric_igp: Option<u32>,
    pub link_metric_te: Option<u32>,
    pub admin_group: Option<u32>,
    pub max_bandwidth: Option<u32>,
    pub max_reservable_bw: Option<u32>,
    pub unreserved_bw: Vec<u32>,
    pub srlg: Vec<u32>,
    pub adj_sid: Vec<AdjSid>,
    pub lan_adj_sid: Vec<LanAdjSid>,
    pub peer_node_sid: Option<u32>,
    pub peer_adj_sid: Option<u32>,
    pub peer_set_sid: Option<u32>,
    pub prefix_metric: Option<u32>,
    pub ospf_fwd_addr: Option<IpAddress>,
    pub prefix_sid: Vec<LsPrefixSid>,
    pub flex_algo_defs: Vec<FlexAlgoDef>,
    pub flex_algo_prefix_metrics: Vec<FlexAlgoPrefixMetric>,
    pub unknown_tlvs: Vec<(u16, Vec<u8>)>,
}

/// Model of a [`BgpLsAttribute`]: vectors as sequences, strings and arrays
/// as sequences, LAN adjacency SIDs as (flags, weight, neighbor, label).
pub struct BgpLsAttrModel {
    pub node_flags: Option<u8>,
    pub node_name: Option<Seq<char>>,
    pub isis_area_id: Option<Seq<u8>>,
    pub ipv4_router_id: Option<Seq<u8>>,
    pub ipv6_router_id: Option<Seq<u8>>,
    pub sr_capabilities: Option<(u8, Seq<(u32, u32)>)>,
    pub sr_algorithm: Seq<u8>,
    pub sr_local_block: Option<(u8, Seq<(u32, u32)>)>,
    pub link_metric_igp: Option<u32>,
    pub link_metric_te: Option<u32>,
    pub admin_group: Option<u32>,
    pub max_bandwidth: Option<u32>,
    pub max_reservable_bw: Option<u32>,
    pub unreserved_bw: Seq<u32>,
    pub srlg: Seq<u32>,
    pub adj_sid: Seq<AdjSid>,
    pub lan_adj_sid: Seq<(u8, u8, Seq<u8>, u32)>,
    pub peer_node_sid: Option<u32>,
    pub peer_adj_sid: Option<u32>,
    pub peer_set_sid: Option<u32>,
    pub prefix_metric: Option<u32>,
    pub ospf_fwd_addr: Option<IpModel>,
    pub prefix_sid: Seq<LsPrefixSid>,
    pub flex_algo_defs: Seq<FlexAlgoDef>,
    pub flex_algo_prefix_metrics: Seq<FlexAlgoPrefixMetric>,
    pub unknown_tlvs: Seq<(u16, Seq<u8>)>,
}

pub open spec fn lan_view(l: LanAdjSid) -> (u8, u8, Seq<u8>, u32) {
    (l.flags, l.weight, l.neighbor_id@, l.label)
}

pub open spec fn raw_tlvs_view(v: Seq<(u16, Vec<u8>)>) -> Seq<(u16, Seq<u8>)> {
    v.map_values(|p: (u16, Vec<u8>)| (p.0, p.1@))
}

impl View for BgpLsAttribute {
    type V = BgpLsAttrModel;

    open spec fn view(&self) -> BgpLsAttrModel {
        BgpLsAttrModel {
            node_flags: self.node_flags,
            node_name: match self.node_name {
                Some(s) => Some(s@),
                None => None,
            },
            isis_area_id: match self.isis_area_id {
                Some(v) => Some(v@),
                None => None,
            },
            ipv4_router_id: match self.ipv4_router_id {
                Some(a) => Some(a@),
                None => None,
            },
            ipv6_router_id: match self.ipv6_router_id {
                Some(a) => Some(a@),
                None => None,
            },
            sr_capabilities: match self.sr_capabilities {
                Some(c) => Some((c.flags, c.srgb_ranges@)),
                None => None,
            },
            sr_algorithm: self.sr_algorithm@,
            sr_local_block: match self.sr_local_block {
                Some(c) => Some((c.flags, c.srlb_ranges@)),
                None => None,
            },
            link_metric_igp: self.link_metric_igp,
            link_metric_te: self.link_metric_te,
            admin_group: self.admin_group,
            max_bandwidth: self.max_bandwidth,
            max_reservable_bw: self.max_reservable_bw,
            unreserved_bw: self.unreserved_bw@,
            srlg: self.srlg@,
            adj_sid: self.adj_sid@,
            lan_adj_sid: self.lan_adj_sid@.map_values(|l: LanAdjSid| lan_view(l)),
            peer_node_sid: self.peer_node_sid,
            peer_adj_sid: self.peer_adj_sid,
            peer_set_sid: self.peer_set_sid,
            prefix_metric: self.prefix_metric,
            ospf_fwd_addr: match self.ospf_fwd_addr {
                Some(a) => Some(a@),
                None => None,
            },
            prefix_sid: self.prefix_sid@,
            flex_algo_defs: self.flex_algo_defs@,
            flex_algo_prefix_metrics: self.flex_algo_prefix_metrics@,
            unknown_tlvs: raw_tlvs_view(self.unknown_tlvs@),
        }
    }
}

/// The attribute with nothing decoded.
pub open spec fn empty_ls_attr() -> BgpLsAttrModel {
    BgpLsAttrModel {
        node_flags: None,
        node_name: None,
        isis_area_id: None,
        ipv4_router_id: None,
        ipv6_router_id: None,
        sr_capabilities: None,
        sr_algorithm: Seq::empty(),
        sr_local_block: None,
        link_metric_igp: None,
        link_metric_te: None,
        admin_group: None,
        max_bandwidth: None,
        max_reservable_bw: None,
        unreserved_bw: Seq::empty(),
        srlg: Seq::empty(),
        adj_sid: Seq::empty(),
        lan_adj_sid: Seq::empty(),
        peer_node_sid: None,
        peer_adj_sid: None,
        peer_set_sid: None,
        prefix_metric: None,
        ospf_fwd_addr: None,
        prefix_sid: Seq::empty(),
        flex_algo_defs: Seq::empty(),
        flex_algo_prefix_metrics: Seq::empty(),
        unknown_tlvs: Seq::empty(),
    }
}

/// SRGB entries of an SR Capabilities value: 8-byte blocks from offset 2,
/// range in the first 3 bytes and base in bytes 5..8.
pub open spec fn spec_srgb_ranges(d: Seq<u8>) -> Seq<(u32, u32)> {
    Seq::new(
        ((d.len() - 2) / 8) as nat,
        |k: int| (be24_at(d, 2 + 8 * k + 5) as u32, be24_at(d, 2 + 8 * k) as u32),
    )
}

/// SRLB entries of an SR Local Block value: 6-byte blocks from offset 2,
/// range then base.
pub open spec fn spec_srlb_ranges(d: Seq<u8>) -> Seq<(u32, u32)> {
    Seq::new(
        ((d.len() - 2) / 6) as nat,
        |k: int| (be24_at(d, 2 + 6 * k + 3) as u32, be24_at(d, 2 + 6 * k) as u32),
    )
}

/// The 32-bit words of `d` (a trailing partial word is ignored).
pub open spec fn spec_words(d: Seq<u8>) -> Seq<u32> {
    Seq::new(d.len() / 4, |k: int| be32_at(d, 4 * k) as u32)
}

/// Flex-algorithm definition after one more sub-TLV: a value of at least 4
/// bytes of type 1, 2 or 3 sets exclude-any, include-any or include-all.
pub open spec fn fad_step(f: FlexAlgoDef, st: u16, sv: Seq<u8>) -> FlexAlgoDef {
    if sv.len() >= 4 {
        let v = be32_at(sv, 0) as u32;
        if st == 1 {
            FlexAlgoDef { exclude_any: Some(v), ..f }
        } else if st == 2 {
            FlexAlgoDef { include_any: Some(v), ..f }
        } else if st == 3 {
            FlexAlgoDef { include_all: Some(v), ..f }
        } else {
            f
        }
    } else {
        f
    }
}

pub open spec fn fad_fold(f: FlexAlgoDef, items: Seq<(u16, Seq<u8>)>) -> FlexAlgoDef
    decreases items.len(),
{
    if items.len() == 0 {
        f
    } else {
        fad_step(fad_fold(f, items.drop_last()), items.last().0, items.last().1)
    }
}

/// Flex-algorithm definition decoded from a TLV 1039 value (at least 4 bytes).
pub open spec fn spec_fad(d: Seq<u8>) -> FlexAlgoDef {
    fad_fold(
        FlexAlgoDef {
            algo_id: d[0],
            metric_type: d[1],
            calc_type: d[2],
            priority: d[3],
            exclude_any: None,
            include_any: None,
            include_all: None,
        },
        spec_tlvs(d.skip(4), 2, 2),
    )
}

/// The attribute after one more TLV of type `t` with value `d`. A known type
/// whose value has the wrong length is kept as unknown.
pub open spec fn ls_step(a: BgpLsAttrModel, t: u16, d: Seq<u8>) -> BgpLsAttrModel {
    let n = d.len();
    if t == 1024 && n >= 1 {
        BgpLsAttrModel { node_flags: Some(d[0]), ..a }
    } else if t == 1026 {
        BgpLsAttrModel { node_name: Some(utf8_lossy(d)), ..a }
    } else if t == 1027 {
        BgpLsAttrModel { isis_area_id: Some(d), ..a }
    } else if t == 1028 && n == 4 {
        BgpLsAttrModel { ipv4_router_id: Some(d), ..a }
    } else if t == 1029 && n == 16 {
        BgpLsAttrModel { ipv6_router_id: Some(d), ..a }
    } else if t == 1034 && n >= 2 {
        BgpLsAttrModel { sr_capabilities: Some((d[0], spec_srgb_ranges(d))), ..a }
    } else if t == 1035 {
        BgpLsAttrModel { sr_algorithm: d, ..a }
    } else if t == 1036 && n >= 2 {
        BgpLsAttrModel { sr_local_block: Some((d[0], spec_srlb_ranges(d))), ..a }
    } else if t == 1081 && n == 4 {
        BgpLsAttrModel { max_bandwidth: Some(be32_at(d, 0) as u32), ..a }
    } else if t == 1082 && n == 4 {
        BgpLsAttrModel { max_reservable_bw: Some(be32_at(d, 0) as u32), ..a }
    } else if t == 1083 && n == 32 {
        BgpLsAttrModel { unreserved_bw: a.unreserved_bw + spec_words(d), ..a }
    } else if t == 1088 && n == 4 {
        BgpLsAttrModel { admin_group: Some(be32_at(d, 0) as u32), ..a }
    } else if t == 1092 && n == 4 {
        BgpLsAttrModel { link_metric_te: Some(be32_at(d, 0) as u32), ..a }
    } else if t == 1094 {
        BgpLsAttrModel { srlg: a.srlg + spec_words(d), ..a }
    } else if t == 1095 && 1 <= n <= 4 {
        let m: u32 = if n == 1 {
            d[0] as u32
        } else if n == 2 {
            be16_at(d, 0) as u32
        } else if n == 3 {
            be24_at(d, 0) as u32
        } else {
            be32_at(d, 0) as u32
        };
        BgpLsAttrModel { link_metric_igp: Some(m), ..a }
    } else if t == 1099 && n >= 7 {
        BgpLsAttrModel {
            adj_sid: a.adj_sid.push(AdjSid { flags: d[0], weight: d[1], label: be24_at(d, 4) as u32 }),
            ..a
        }
    } else if t == 1100 && n >= 14 {
        BgpLsAttrModel {
            lan_adj_sid: a.lan_adj_sid.push((d[0], d[1], d.subrange(2, 9), be24_at(d, 11) as u32)),
            ..a
        }
    } else if t == 1101 && n >= 7 {
        BgpLsAttrModel { peer_node_sid: Some(be24_at(d, 4) as u32), ..a }
    } else if t == 1102 && n >= 7 {
        BgpLsAttrModel { peer_adj_sid: Some(be24_at(d, 4) as u32), ..a }
    } else if t == 1103 && n >= 7 {
        BgpLsAttrModel { peer_set_sid: Some(be24_at(d, 4) as u32), ..a }
    } else if t == 1155 && n == 4 {
        BgpLsAttrModel { prefix_metric: Some(be32_at(d, 0) as u32), ..a }
    } else if t == 1156 && n == 4 {
        BgpLsAttrModel { ospf_fwd_addr: Some(IpModel::V4(d)), ..a }
    } else if t == 1156 && n == 16 {
        BgpLsAttrModel { ospf_fwd_addr: Some(IpModel::V6(d)), ..a }
    } else if t == 1158 && n >= 7 {
        let label: u32 = if n >= 8 {
            be32_at(d, 4) as u32
        } else {
            be24_at(d, 4) as u32
        };
        BgpLsAttrModel {
            prefix_sid: a.prefix_sid.push(LsPrefixSid { flags: d[0], algorithm: d[1], label }),
            ..a
        }
    } else if t == 1039 && n >= 4 {
        BgpLsAttrModel { flex_algo_defs: a.flex_algo_defs.push(spec_fad(d)), ..a }
    } else if t == 1044 && n >= 5 {
        BgpLsAttrModel {
            flex_algo_prefix_metrics: a.flex_algo_prefix_metrics.push(
                FlexAlgoPrefixMetric { algo_id: d[0], metric: be32_at(d, 1) as u32 },
            ),
            ..a
        }
    } else {
        BgpLsAttrModel { unknown_tlvs: a.unknown_tlvs.push((t, d)), ..a }
    }
}

pub open spec fn ls_fold(items: Seq<(u16, Seq<u8>)>) -> BgpLsAttrModel
    decreases items.len(),
{
    if items.len() == 0 {
        empty_ls_attr()
    } else {
        ls_step(ls_fold(items.drop_last()), items.last().0, items.last().1)
    }
}

/// The BGP-LS attribute encoded in `s`: TLVs of type(2) + length(2), read
/// until one runs past the end.
pub open spec fn spec_bgpls_attribute(s: Seq<u8>) -> BgpLsAttrModel {
    ls_fold(spec_tlvs(s, 2, 2))
}

fn parse_srgb_ranges(buf: &[u8], off: usize, len: usize) -> (r: Vec<(u32, u32)>)
    requires
        off + len <= buf.len(),
        len >= 2,
    ensures
        r@ == spec_srgb_ranges(buf@.subrange(off as int, off + len)),
{
    let ghost d = buf@.subrange(off as int, off + len);
    let count: usize = (len - 2) / 8;
    let mut out: Vec<(u32, u32)> = Vec::new();
    let mut k: usize = 0;
    while k < count
        invariant
            off + len <= buf.len(),
            len >= 2,
            count == (len - 2) / 8,
            k <= count,
            d == buf@.subrange(off as int, off + len),
            out@ == spec_srgb_ranges(d).subrange(0, k as int),
        decreases count - k,
    {
        let p: usize = off + 2 + 8 * k;
        let range = read_u24(buf, p);
        let base = read_u24(buf, p + 5);
        out.push((base, range));
        k = k + 1;
        assert(out@ =~= spec_srgb_ranges(d).subrange(0, k as int));
    }
    assert(out@ =~= spec_srgb_ranges(d));
    out
}

fn parse_srlb_ranges(buf: &[u8], off: usize, len: usize) -> (r: Vec<(u32, u32)>)
    requires
        off + len <= buf.len(),
        len >= 2,
    ensures
        r@ == spec_srlb_ranges(buf@.subrange(off as int, off + len)),
{
    let ghost d = buf@.subrange(off as int, off + len);
    let count: usize = (len - 2) / 6;
    let mut out: Vec<(u32, u32)> = Vec::new();
    let mut k: usize = 0;
    while k < count
        invariant
            off + len <= buf.len(),
            len >= 2,
            count == (len - 2) / 6,
            k <= count,
            d == buf@.subrange(off as int, off + len),
            out@ == spec_srlb_ranges(d).subrange(0, k as int),
        decreases count - k,
    {
        let p: usize = off + 2 + 6 * k;
        let range = read_u24(buf, p);
        let base = read_u24(buf, p + 3);
        out.push((base, range));
        k = k + 1;
        assert(out@ =~= spec_srlb_ranges(d).subrange(0, k as int));
    }
    assert(out@ =~= spec_srlb_ranges(d));
    out
}

/// Appends the 32-bit words of `buf[off..off + len]` to `out`.
fn push_words(out: &mut Vec<u32>, buf: &[u8], off: usize, len: usize)
    requires
        off + len <= buf.len(),
    ensures
        final(out)@ == old(out)@ + spec_words(buf@.subrange(off as int, off + len)),
{
    let ghost d = buf@.subrange(off as int, off + len);
    let count: usize = len / 4;
    let mut k: usize = 0;
    while k < count
        invariant
            off + len <= buf.len(),
            count == len / 4,
            k <= count,
            d == buf@.subrange(off as int, off + len),
            out@ == old(out)@ + spec_words(d).subrange(0, k as int),
        decreases count - k,
    {
        out.push(read_u32(buf, off + 4 * k));
        k = k + 1;
        assert(out@ =~= old(out)@ + spec_words(d).subrange(0, k as int));
    }
    assert(spec_words(d).subrange(0, count as int) =~= spec_words(d));
}

fn parse_fad(buf: &[u8], off: usize, len: usize) -> (r: FlexAlgoDef)
    requires
        off + len <= buf.len(),
        len >= 4,
    ensures
        r == spec_fad(buf@.subrange(off as int, off + len)),
{
    let ghost d = buf@.subrange(off as int, off + len);
    let items = split_tlvs(buf, off + 4, off + len, 2, 2);
    let ghost spec_items = spec_tlvs(buf@.subrange(off + 4, off + len as int), 2, 2);
    assert(d.skip(4) =~= buf@.subrange(off + 4, off + len as int));
    let mut f = FlexAlgoDef {
        algo_id: buf[off],
        metric_type: buf[off + 1],
        calc_type: buf[off + 2],
        priority: buf[off + 3],
        exclude_any: None,
        include_any: None,
        include_all: None,
    };
    let ghost f0 = f;
    assert(fad_fold(f0, spec_items.subrange(0, 0)) == f0);
    let mut i: usize = 0;
    while i < items.len()
        invariant
            i <= items@.len(),
            tlv_refs_match(buf@, items@, spec_items),
            f == fad_fold(f0, spec_items.subrange(0, i as int)),
        decreases items@.len() - i,
    {
        let it = items[i];
        let ghost sv = spec_items[i as int].1;
        assert(items@[i as int].t == spec_items[i as int].0);
        assert(it.off + it.len <= buf.len());
        assert(buf@.subrange(it.off as int, it.off + it.len) == sv);
        let ghost prev = f;
        if it.len >= 4 {
            let v = read_u32(buf, it.off);
            if it.t == 1 {
                f.exclude_any = Some(v);
            } else if it.t == 2 {
                f.include_any = Some(v);
            } else if it.t == 3 {
                f.include_all = Some(v);
            }
        }
        proof {
            assert(spec_items.subrange(0, i + 1).drop_last() =~= spec_items.subrange(0, i as int));
            assert(f == fad_step(prev, it.t, sv));
        }
        i = i + 1;
    }
    assert(spec_items.subrange(0, spec_items.len() as int) =~= spec_items);
    f
}

/// Applies one TLV of the attribute located at `it` in `buf`.
#[verifier::rlimit(60)]
fn apply_ls_tlv(attr: &mut BgpLsAttribute, buf: &[u8], it: TlvRef)
    requires
        it.off + it.len <= buf.len(),
    ensures
        final(attr)@ == ls_step(
            old(attr)@,
            it.t,
            buf@.subrange(it.off as int, it.off + it.len),
        ),
{
    let ghost d = buf@.subrange(it.off as int, it.off + it.len);
    let t = it.t;
    let n: usize = it.len;
    let o: usize = it.off;
    if t == 1024 && n >= 1 {
        attr.node_flags = Some(buf[o]);
    } else if t == 1026 {
        let bytes = copy_range(buf, o, n);
        attr.node_name = Some(lossy_string(bytes.as_slice()));
    } else if t == 1027 {
        attr.isis_area_id = Some(copy_range(buf, o, n));
    } else if t == 1028 && n == 4 {
        attr.ipv4_router_id = Some(read_array4(buf, o));
    } else if t == 1029 && n == 16 {
        attr.ipv6_router_id = Some(read_array16(buf, o));
    } else if t == 1034 && n >= 2 {
        attr.sr_capabilities = Some(SrCapabilities { flags: buf[o], srgb_ranges: parse_srgb_ranges(buf, o, n) });
    } else if t == 1035 {
        attr.sr_algorithm = copy_range(buf, o, n);
    } else if t == 1036 && n >= 2 {
        attr.sr_local_block = Some(SrLocalBlock { flags: buf[o], srlb_ranges: parse_srlb_ranges(buf, o, n) });
    } else if t == 1081 && n == 4 {
        attr.max_bandwidth = Some(read_u32(buf, o));
    } else if t == 1082 && n == 4 {
        attr.max_reservable_bw = Some(read_u32(buf, o));
    } else if t == 1083 && n == 32 {
        push_words(&mut attr.unreserved_bw, buf, o, n);
    } else if t == 1088 && n == 4 {
        attr.admin_group = Some(read_u32(buf, o));
    } else if t == 1092 && n == 4 {
        attr.link_metric_te = Some(read_u32(buf, o));
    } else if t == 1094 {
        push_words(&mut attr.srlg, buf, o, n);
    } else if t == 1095 && 1 <= n && n <= 4 {
        let m: u32 = if n == 1 {
            buf[o] as u32
        } else if n == 2 {
            read_u16(buf, o) as u32
        } else if n == 3 {
            read_u24(buf, o)
        } else {
            read_u32(buf, o)
        };
        attr.link_metric_igp = Some(m);
    } else if t == 1099 && n >= 7 {
        attr.adj_sid.push(AdjSid { flags: buf[o], weight: buf[o + 1], label: read_u24(buf, o + 4) });
    } else if t == 1100 && n >= 14 {
        let nid: [u8; 7] = [buf[o + 2], buf[o + 3], buf[o + 4], buf[o + 5], buf[o + 6], buf[o + 7], buf[o + 8]];
        assert(nid@ =~= d.subrange(2, 9));
        let l = LanAdjSid { flags: buf[o], weight: buf[o + 1], neighbor_id: nid, label: read_u24(buf, o + 11) };
        let ghost before = attr.lan_adj_sid@;
        attr.lan_adj_sid.push(l);
        assert(attr.lan_adj_sid@.map_values(|x: LanAdjSid| lan_view(x)) =~= before.map_values(
            |x: LanAdjSid| lan_view(x),
        ).push(lan_view(l)));
    } else if t == 1101 && n >= 7 {
        attr.peer_node_sid = Some(read_u24(buf, o + 4));
    } else if t == 1102 && n >= 7 {
        attr.peer_adj_sid = Some(read_u24(buf, o + 4));
    } else if t == 1103 && n >= 7 {
        attr.peer_set_sid = Some(read_u24(buf, o + 4));
    } else if t == 1155 && n == 4 {
        attr.prefix_metric = Some(read_u32(buf, o));
    } else if t == 1156 && n == 4 {
        attr.ospf_fwd_addr = Some(IpAddress::V4(read_array4(buf, o)));
    } else if t == 1156 && n == 16 {
        attr.ospf_fwd_addr = Some(IpAddress::V6(read_array16(buf, o)));
    } else if t == 1158 && n >= 7 {
        let label: u32 = if n >= 8 {
            read_u32(buf, o + 4)
        } else {
            read_u24(buf, o + 4)
        };
        attr.prefix_sid.push(LsPrefixSid { flags: buf[o], algorithm: buf[o + 1], label });
    } else if t == 1039 && n >= 4 {
        let f = parse_fad(buf, o, n);
        attr.flex_algo_defs.push(f);
    } else if t == 1044 && n >= 5 {
        attr.flex_algo_prefix_metrics.push(FlexAlgoPrefixMetric { algo_id: buf[o], metric: read_u32(buf, o + 1) });
    } else {
        let data = copy_range(buf, o, n);
        let ghost before = attr.unknown_tlvs@;
        let ghost dv = data@;
        attr.unknown_tlvs.push((t, data));
        assert(raw_tlvs_view(attr.unknown_tlvs@) =~= raw_tlvs_view(before).push((t, dv)));
    }
    assert(final(attr)@ == ls_step(old(attr)@, t, d));
}

/// Decodes the BGP-LS path attribute (type 29); never fails: unknown TLVs
/// are kept raw.
pub fn parse_bgpls_attribute(buf: &[u8]) -> (r: BgpLsAttribute)
    ensures
        r@ == spec_bgpls_attribute(buf@),
{
    let items = split_tlvs(buf, 0, buf.len(), 2, 2);
    let ghost spec_items = spec_tlvs(buf@.subrange(0, buf@.len() as int), 2, 2);
    assert(buf@.subrange(0, buf@.len() as int) =~= buf@);
    let mut attr = BgpLsAttribute {
        node_flags: None,
        node_name: None,
        isis_area_id: None,
        ipv4_router_id: None,
        ipv6_router_id: None,
        sr_capabilities: None,
        sr_algorithm: Vec::new(),
        sr_local_block: None,
        link_metric_igp: None,
        link_metric_te: None,
        admin_group: None,
        max_bandwidth: None,
        max_reservable_bw: None,
        unreserved_bw: Vec::new(),
        srlg: Vec::new(),
        adj_sid: Vec::new(),
        lan_adj_sid: Vec::new(),
        peer_node_sid: None,
        peer_adj_sid: None,
        peer_set_sid: None,
        prefix_metric: None,
        ospf_fwd_addr: None,
        prefix_sid: Vec::new(),
        flex_algo_defs: Vec::new(),
        flex_algo_prefix_metrics: Vec::new(),
        unknown_tlvs: Vec::new(),
    };
    assert(attr@ == ls_fold(spec_items.subrange(0, 0))) by {
        assert(attr@.lan_adj_sid =~= Seq::<(u8, u8, Seq<u8>, u32)>::empty());
        assert(attr@.unknown_tlvs =~= Seq::<(u16, Seq<u8>)>::empty());
    }
    let mut i: usize = 0;
    while i < items.len()
        invariant
            i <= items@.len(),
            tlv_refs_match(buf@, items@, spec_items),
            attr@ == ls_fold(spec_items.subrange(0, i as int)),
        decreases items@.len() - i,
    {
        let it = items[i];
        assert(items@[i as int].t == spec_items[i as int].0);
        assert(it.off + it.len <= buf.len());
        assert(buf@.subrange(it.off as int, it.off + it.len) == spec_items[i as int].1);
        apply_ls_tlv(&mut attr, buf, it);
        proof {
            assert(spec_items.subrange(0, i + 1).drop_last() =~= spec_items.subrange(0, i as int));
        }
        i = i + 1;
    }
    assert(spec_items.subrange(0, spec_items.len() as int) =~= spec_items);
    attr
}

// ─── BGP-LS NLRI ─────────────────────────────────────────────────────────────

/// BGP-LS NLRI type (RFC 7752 section 3.2, RFC 9514).
#[derive(Clone, Copy, Debug, PartialEq, Eq, Structural)]
pub enum BgpLsNlriType {
    Node,
    Link,
    Ipv4Prefix,
    Ipv6Prefix,
    Srv6Sid,
    Unknown(u16),
}

pub open spec fn ls_nlri_type_of(v: u16) -> BgpLsNlriType {
    if v == 1 {
        BgpLsNlriType::Node
    } else if v == 2 {
        BgpLsNlriType::Link
    } else if v == 3 {
        BgpLsNlriType::Ipv4Prefix
    } else if v == 4 {
        BgpLsNlriType::Ipv6Prefix
    } else if v == 6 {
        BgpLsNlriType::Srv6Sid
    } else {
        BgpLsNlriType::Unknown(v)
    }
}

impl BgpLsNlriType {
    /// The NLRI type of a wire code.
    pub fn from_u16(v: u16) -> (r: BgpLsNlriType)
        ensures
            r == ls_nlri_type_of(v),
    {
        match v {
            1 => BgpLsNlriType::Node,
            2 => BgpLsNlriType::Link,
            3 => BgpLsNlriType::Ipv4Prefix,
            4 => BgpLsNlriType::Ipv6Prefix,
            6 => BgpLsNlriType::Srv6Sid,
            _ => BgpLsNlriType::Unknown(v),
        }
    }
}

/// BGP-LS Protocol-ID (RFC 7752 section 3.2, table 2).
#[derive(Clone, Copy, Debug, PartialEq, Eq, Structural)]
pub enum BgpLsProtocol {
    IsIsLevel1,
    IsIsLevel2,
    Ospfv2,
    Direct,
    StaticConfig,
    Ospfv3,
    Unknown(u8),
}

pub open spec fn ls_protocol_of(v: u8) -> BgpLsProtocol {
    if v == 1 {
        BgpLsProtocol::IsIsLevel1
    } else if v == 2 {
        BgpLsProtocol::IsIsLevel2
    } else if v == 3 {
        BgpLsProtocol::Ospfv2
    } else if v == 4 {
        BgpLsProtocol::Direct
    } else if v == 5 {
        BgpLsProtocol::StaticConfig
    } else if v == 6 {
        BgpLsProtocol::Ospfv3
    } else {
        BgpLsProtocol::Unknown(v)
    }
}

impl BgpLsProtocol {
    /// The protocol of a Protocol-ID byte.
    pub fn from_u8(v: u8) -> (r: BgpLsProtocol)
        ensures
            r == ls_protocol_of(v),
    {
        match v {
            1 => BgpLsProtocol::IsIsLevel1,
            2 => BgpLsProtocol::IsIsLevel2,
            3 => BgpLsProtocol::Ospfv2,
            4 => BgpLsProtocol::Direct,
            5 => BgpLsProtocol::StaticConfig,
            6 => BgpLsProtocol::Ospfv3,
            _ => BgpLsProtocol::Unknown(v),
        }
    }
}

/// IGP router-id descriptor (4, 6, 7 or 8 bytes).
#[derive(Clone, Debug)]
pub struct RouterId {
    pub bytes: Vec<u8>,
}

/// Hex pairs of `b` joined with ':'.
pub open spec fn colon_hex(b: Seq<u8>) -> Seq<char>
    decreases b.len(),
{
    if b.len() == 0 {
        Seq::empty()
    } else if b.len() == 1 {
        hex2(b[0])
    } else {
        colon_hex(b.drop_last()) + seq![':'] + hex2(b.last())
    }
}

/// Text of a router id: dotted quad for 4 bytes, else colon-separated hex.
pub open spec fn router_id_text(b: Seq<u8>) -> Seq<char> {
    if b.len() == 4 {
        dec(b[0] as nat) + seq!['.'] + dec(b[1] as nat) + seq!['.'] + dec(b[2] as nat) + seq!['.']
            + dec(b[3] as nat)
    } else {
        colon_hex(b)
    }
}

impl RouterId {
    /// Renders the router id as text.
    pub fn to_text(&self) -> (r: String)
        ensures
            r@ == router_id_text(self.bytes@),
    {
        let b = &self.bytes;
        let mut s = String::new();
        if b.len() == 4 {
            push_dec(&mut s, b[0] as u64);
            s.push('.');
            push_dec(&mut s, b[1] as u64);
            s.push('.');
            push_dec(&mut s, b[2] as u64);
            s.push('.');
            push_dec(&mut s, b[3] as u64);
            assert(s@ =~= router_id_text(b@));
            return s;
        }
        let mut i: usize = 0;
        while i < b.len()
            invariant
                i <= b@.len(),
                s@ == colon_hex(b@.subrange(0, i as int)),
            decreases b@.len() - i,
        {
            if i > 0 {
                s.push(':');
            }
            push_hex2(&mut s, b[i]);
            proof {
                let p = b@.subrange(0, i + 1);
                assert(p.drop_last() =~= b@.subrange(0, i as int));
                if i == 0 {
                    assert(s@ =~= colon_hex(p));
                } else {
                    assert(s@ =~= colon_hex(p));
                }
            }
            i = i + 1;
        }
        assert(b@.subrange(0, b@.len() as int) =~= b@);
        s
    }
}

/// Node descriptor (RFC 7752 section 3.2.1).
#[derive(Clone, Debug)]
pub struct NodeDescriptor {
    pub asn: Option<u32>,
    pub bgp_ls_id: Option<u32>,
    pub ospf_area: Option<u32>,
    pub igp_router: Option<RouterId>,
}

pub struct NodeModel {
    pub asn: Option<u32>,
    pub bgp_ls_id: Option<u32>,
    pub ospf_area: Option<u32>,
    pub igp_router: Option<Seq<u8>>,
}

impl View for NodeDescriptor {
    type V = NodeModel;

    open spec fn view(&self) -> NodeModel {
        NodeModel {
            asn: self.asn,
            bgp_ls_id: self.bgp_ls_id,
            ospf_area: self.ospf_area,
            igp_router: match self.igp_router {
                Some(r) => Some(r.bytes@),
                None => None,
            },
        }
    }
}

impl Default for NodeDescriptor {
    fn default() -> (r: NodeDescriptor)
        ensures
            r@ == empty_node(),
    {
        NodeDescriptor { asn: None, bgp_ls_id: None, ospf_area: None, igp_router: None }
    }
}

pub open spec fn empty_node() -> NodeModel {
    NodeModel { asn: None, bgp_ls_id: None, ospf_area: None, igp_router: None }
}

/// Link descriptor (RFC 7752 section 3.2.2).
#[derive(Clone, Copy, Debug)]
pub struct LinkDescriptor {
    pub local_addr: Option<IpAddress>,
    pub remote_addr: Option<IpAddress>,
    pub local_id: Option<u32>,
    pub remote_id: Option<u32>,
}

pub struct LinkModel {
    pub local_addr: Option<IpModel>,
    pub remote_addr: Option<IpModel>,
    pub local_id: Option<u32>,
    pub remote_id: Option<u32>,
}

pub open spec fn opt_ip(o: Option<IpAddress>) -> Option<IpModel> {
    match o {
        Some(a) => Some(a@),
        None => None,
    }
}

impl View for LinkDescriptor {
    type V = LinkModel;

    open spec fn view(&self) -> LinkModel {
        LinkModel {
            local_addr: opt_ip(self.local_addr),
            remote_addr: opt_ip(self.remote_addr),
            local_id: self.local_id,
            remote_id: self.remote_id,
        }
    }
}

impl Default for LinkDescriptor {
    fn default() -> (r: LinkDescriptor)
        ensures
            r@ == empty_link(),
    {
        LinkDescriptor { local_addr: None, remote_addr: None, local_id: None, remote_id: None }
    }
}

pub open spec fn empty_link() -> LinkModel {
    LinkModel { local_addr: None, remote_addr: None, local_id: None, remote_id: None }
}

/// SRv6 SID NLRI (RFC 9514 section 2).
#[derive(Clone, Debug)]
pub struct Srv6SidNlri {
    pub protocol_id: u8,
    pub identifier: u64,
    pub local_node: NodeDescriptor,
    pub srv6_sid: [u8; 16],
    pub endpoint_behavior: Option<u16>,
    pub sid_structure: Option<(u8, u8, u8, u8)>,
}

pub struct Srv6SidModel {
    pub protocol_id: u8,
    pub identifier: u64,
    pub local_node: NodeModel,
    pub srv6_sid: Seq<u8>,
    pub endpoint_behavior: Option<u16>,
    pub sid_structure: Option<(u8, u8, u8, u8)>,
}

/// Name of an SRv6 endpoint behavior, by the code points of the SRv6
/// Endpoint Behaviors registry (RFC 8986).
pub open spec fn behavior_text(b: u16) -> Seq<char> {
    if b == 1 {
        "End"@
    } else if b == 2 {
        "End with PSP"@
    } else if b == 3 {
        "End with USP"@
    } else if b == 4 {
        "End with PSP & USP"@
    } else if b == 5 {
        "End.X"@
    } else if b == 6 {
        "End.X with PSP"@
    } else if b == 7 {
        "End.X with USP"@
    } else if b == 8 {
        "End.X with PSP & USP"@
    } else if b == 9 {
        "End.T"@
    } else if b == 10 {
        "End.T with PSP"@
    } else if b == 11 {
        "End.T with USP"@
    } else if b == 12 {
        "End.T with PSP & USP"@
    } else if b == 14 {
        "End.B6.Encaps"@
    } else if b == 15 {
        "End.BM"@
    } else if b == 16 {
        "End.DX6"@
    } else if b == 17 {
        "End.DX4"@
    } else if b == 18 {
        "End.DT6"@
    } else if b == 19 {
        "End.DT4"@
    } else if b == 20 {
        "End.DT46"@
    } else if b == 21 {
        "End.DX2"@
    } else if b == 22 {
        "End.DX2V"@
    } else if b == 23 {
        "End.DT2U"@
    } else if b == 24 {
        "End.DT2M"@
    } else if b == 27 {
        "End.B6.Encaps.Red"@
    } else if b == 0x41 {
        "End.X (PSP)"@
    } else if b == 0x48 {
        "End.OP"@
    } else if b == 0x49 {
        "End.Otp"@
    } else {
        "Unknown"@
    }
}

/// The SID as eight groups of four hex digits joined with ':'.
pub open spec fn sid_text(a: Seq<u8>) -> Seq<char>
    decreases a.len(),
{
    if a.len() <= 2 {
        hex2(a[0]) + hex2(a[1])
    } else {
        sid_text(a.subrange(0, a.len() - 2)) + seq![':'] + hex2(a[a.len() - 2]) + hex2(a[a.len() - 1])
    }
}

impl Srv6SidNlri {
    /// Name of an SRv6 endpoint behavior code.
    pub fn behavior_name(b: u16) -> (r: &'static str)
        ensures
            r@ == behavior_text(b),
    {
        match b {
            1 => "End",
            2 => "End with PSP",
            3 => "End with USP",
            4 => "End with PSP & USP",
            5 => "End.X",
            6 => "End.X with PSP",
            7 => "End.X with USP",
            8 => "End.X with PSP & USP",
            9 => "End.T",
            10 => "End.T with PSP",
            11 => "End.T with USP",
            12 => "End.T with PSP & USP",
            14 => "End.B6.Encaps",
            15 => "End.BM",
            16 => "End.DX6",
            17 => "End.DX4",
            18 => "End.DT6",
            19 => "End.DT4",
            20 => "End.DT46",
            21 => "End.DX2",
            22 => "End.DX2V",
            23 => "End.DT2U",
            24 => "End.DT2M",
            27 => "End.B6.Encaps.Red",
            0x41 => "End.X (PSP)",
            0x48 => "End.OP",
            0x49 => "End.Otp",
            _ => "Unknown",
        }
    }

    /// The SID as colon-separated hex groups of two bytes.
    pub fn sid_string(&self) -> (r: String)
        ensures
            r@ == sid_text(self.srv6_sid@),
    {
        let a = &self.srv6_sid;
        let mut s = String::new();
        let mut k: usize = 0;
        while k < 8
            invariant
                k <= 8,
                k > 0 ==> s@ == sid_text(a@.subrange(0, 2 * k as int)),
                k == 0 ==> s@.len() == 0,
            decreases 8 - k,
        {
            if k > 0 {
                s.push(':');
            }
            push_hex2(&mut s, a[2 * k]);
            push_hex2(&mut s, a[2 * k + 1]);
            proof {
                let p = a@.subrange(0, 2 * k + 2);
                assert(p.subrange(0, p.len() - 2) =~= a@.subrange(0, 2 * k as int));
                assert(s@ =~= sid_text(p));
            }
            k = k + 1;
        }
        assert(a@.subrange(0, 16) =~= a@);
        s
    }
}

/// A decoded BGP-LS NLRI.
#[derive(Clone, Debug)]
pub enum BgpLsNlri {
    Node { protocol: BgpLsProtocol, identifier: u64, local_node: NodeDescriptor },
    Link {
        protocol: BgpLsProtocol,
        identifier: u64,
        local_node: NodeDescriptor,
        remote_node: NodeDescriptor,
        link: LinkDescriptor,
    },
    Prefix { protocol: BgpLsProtocol, identifier: u64, local_node: NodeDescriptor, prefix: Prefix },
    Srv6Sid(Srv6SidNlri),
    Unknown { nlri_type: u16, data: Vec<u8> },
}

pub enum LsNlriModel {
    Node { protocol: BgpLsProtocol, identifier: u64, local_node: NodeModel },
    Link {
        protocol: BgpLsProtocol,
        identifier: u64,
        local_node: NodeModel,
        remote_node: NodeModel,
        link: LinkModel,
    },
    Prefix { protocol: BgpLsProtocol, identifier: u64, local_node: NodeModel, prefix: PrefixModel },
    Srv6Sid(Srv6SidModel),
    Unknown { nlri_type: u16, data: Seq<u8> },
}

impl View for BgpLsNlri {
    type V = LsNlriModel;

    open spec fn view(&self) -> LsNlriModel {
        match self {
            BgpLsNlri::Node { protocol, identifier, local_node } => LsNlriModel::Node {
                protocol: *protocol,
                identifier: *identifier,
                local_node: local_node@,
            },
            BgpLsNlri::Link { protocol, identifier, local_node, remote_node, link } =>
                LsNlriModel::Link {
                protocol: *protocol,
                identifier: *identifier,
                local_node: local_node@,
                remote_node: remote_node@,
                link: link@,
            },
            BgpLsNlri::Prefix { protocol, identifier, local_node, prefix } => LsNlriModel::Prefix {
                protocol: *protocol,
                identifier: *identifier,
                local_node: local_node@,
                prefix: prefix@,
            },
            BgpLsNlri::Srv6Sid(n) => LsNlriModel::Srv6Sid(
                Srv6SidModel {
                    protocol_id: n.protocol_id,
                    identifier: n.identifier,
                    local_node: n.local_node@,
                    srv6_sid: n.srv6_sid@,
                    endpoint_behavior: n.endpoint_behavior,
                    sid_structure: n.sid_structure,
                },
            ),
            BgpLsNlri::Unknown { nlri_type, data } => LsNlriModel::Unknown {
                nlri_type: *nlri_type,
                data: data@,
            },
        }
    }
}

/// Node descriptor after one more sub-TLV; unrecognised or short sub-TLVs
/// are ignored.
pub open spec fn node_step(n: NodeModel, t: u16, v: Seq<u8>) -> NodeModel {
    if t == 512 && v.len() >= 4 {
        NodeModel { asn: Some(be32_at(v, 0) as u32), ..n }
    } else if t == 513 && v.len() >= 4 {
        NodeModel { bgp_ls_id: Some(be32_at(v, 0) as u32), ..n }
    } else if t == 514 && v.len() >= 4 {
        NodeModel { ospf_area: Some(be32_at(v, 0) as u32), ..n }
    } else if t == 515 {
        NodeModel { igp_router: Some(v), ..n }
    } else {
        n
    }
}

pub open spec fn node_fold(n: NodeModel, items: Seq<(u16, Seq<u8>)>) -> NodeModel
    decreases items.len(),
{
    if items.len() == 0 {
        n
    } else {
        node_step(node_fold(n, items.drop_last()), items.last().0, items.last().1)
    }
}

/// Applies the node sub-TLVs (type(2) + length(2)) of `buf[start..end]` to `nd`.
fn decode_node_sub_tlvs(buf: &[u8], start: usize, end: usize, nd: &mut NodeDescriptor)
    requires
        start <= end <= buf.len(),
    ensures
        final(nd)@ == node_fold(old(nd)@, spec_tlvs(buf@.subrange(start as int, end as int), 2, 2)),
{
    let items = split_tlvs(buf, start, end, 2, 2);
    let ghost spec_items = spec_tlvs(buf@.subrange(start as int, end as int), 2, 2);
    let ghost n0 = nd@;
    assert(node_fold(n0, spec_items.subrange(0, 0)) == n0);
    let mut i: usize = 0;
    while i < items.len()
        invariant
            i <= items@.len(),
            tlv_refs_match(buf@, items@, spec_items),
            nd@ == node_fold(n0, spec_items.subrange(0, i as int)),
        decreases items@.len() - i,
    {
        let it = items[i];
        let ghost v = spec_items[i as int].1;
        assert(items@[i as int].t == spec_items[i as int].0);
        assert(it.off + it.len <= buf.len());
        assert(buf@.subrange(it.off as int, it.off + it.len) == v);
        let ghost prev = nd@;
        if it.t == 512 && it.len >= 4 {
            nd.asn = Some(read_u32(buf, it.off));
        } else if it.t == 513 && it.len >= 4 {
            nd.bgp_ls_id = Some(read_u32(buf, it.off));
        } else if it.t == 514 && it.len >= 4 {
            nd.ospf_area = Some(read_u32(buf, it.off));
        } else if it.t == 515 {
            nd.igp_router = Some(RouterId { bytes: copy_range(buf, it.off, it.len) });
        }
        proof {
            assert(spec_items.subrange(0, i + 1).drop_last() =~= spec_items.subrange(0, i as int));
            assert(nd@ == node_step(prev, it.t, v));
        }
        i = i + 1;
    }
    assert(spec_items.subrange(0, spec_items.len() as int) =~= spec_items);
}

/// The local node descriptor TLV at the start of `s`: type(2) + length(2) +
/// sub-TLVs; an absent or truncated TLV gives an empty descriptor.
pub open spec fn spec_node_descriptor(s: Seq<u8>) -> NodeModel {
    if s.len() < 4 || s.len() - 4 < be16_at(s, 2) {
        empty_node()
    } else {
        node_fold(empty_node(), spec_tlvs(s.subrange(4, 4 + be16_at(s, 2)), 2, 2))
    }
}

fn decode_node_descriptor(buf: &[u8], start: usize) -> (r: NodeDescriptor)
    requires
        start <= buf.len(),
    ensures
        r@ == spec_node_descriptor(buf@.skip(start as int)),
{
    let mut nd = NodeDescriptor::default();
    let ghost s = buf@.skip(start as int);
    if buf.len() - start < 4 {
        return nd;
    }
    let outer_len = read_u16(buf, start + 2) as usize;
    assert(be16_at(s, 2) == be16_at(buf@, start + 2));
    if buf.len() - start - 4 < outer_len {
        return nd;
    }
    decode_node_sub_tlvs(buf, start + 4, start + 4 + outer_len, &mut nd);
    assert(s.subrange(4, 4 + outer_len) =~= buf@.subrange(start + 4, start + 4 + outer_len));
    nd
}

/// Link NLRI descriptors after one more TLV.
pub open spec fn link_step(acc: (NodeModel, NodeModel, LinkModel), t: u16, v: Seq<u8>) -> (
    NodeModel,
    NodeModel,
    LinkModel,
) {
    let (l, r, k) = acc;
    if t == 256 {
        (node_fold(l, spec_tlvs(v, 2, 2)), r, k)
    } else if t == 257 {
        (l, node_fold(r, spec_tlvs(v, 2, 2)), k)
    } else if t == 258 && v.len() >= 8 {
        (l, r, LinkModel { local_id: Some(be32_at(v, 0) as u32), remote_id: Some(be32_at(v, 4) as u32), ..k })
    } else if t == 259 && v.len() >= 4 {
        (l, r, LinkModel { local_addr: Some(IpModel::V4(v.subrange(0, 4))), ..k })
    } else if t == 260 && v.len() >= 4 {
        (l, r, LinkModel { remote_addr: Some(IpModel::V4(v.subrange(0, 4))), ..k })
    } else if t == 261 && v.len() >= 16 {
        (l, r, LinkModel { local_addr: Some(IpModel::V6(v.subrange(0, 16))), ..k })
    } else if t == 262 && v.len() >= 16 {
        (l, r, LinkModel { remote_addr: Some(IpModel::V6(v.subrange(0, 16))), ..k })
    } else {
        acc
    }
}

pub open spec fn link_fold(items: Seq<(u16, Seq<u8>)>) -> (NodeModel, NodeModel, LinkModel)
    decreases items.len(),
{
    if items.len() == 0 {
        (empty_node(), empty_node(), empty_link())
    } else {
        link_step(link_fold(items.drop_last()), items.last().0, items.last().1)
    }
}

/// Prefix NLRI state (local node, prefix so far) after one more TLV; None
/// where the decoder would panic: an IP Reachability prefix wider than the
/// address family.
pub open spec fn prefix_step(acc: Option<(NodeModel, Option<PrefixModel>)>, t: u16, v: Seq<u8>, v6: bool) -> Option<
    (NodeModel, Option<PrefixModel>),
> {
    match acc {
        None => None,
        Some((l, p)) => if t == 256 {
            Some((node_fold(l, spec_tlvs(v, 2, 2), ), p))
        } else if t == 265 && v.len() >= 1 && v.len() >= 1 + octets_for(v[0] as int) {
            let afi = if v6 {
                Afi::Ipv6
            } else {
                Afi::Ipv4
            };
            if octets_for(v[0] as int) > width_of(afi) {
                None
            } else {
                Some((l, Some(net_model(v.skip(1), v[0], afi))))
            }
        } else {
            Some((l, p))
        },
    }
}

pub open spec fn prefix_fold(items: Seq<(u16, Seq<u8>)>, v6: bool) -> Option<(NodeModel, Option<PrefixModel>)>
    decreases items.len(),
{
    if items.len() == 0 {
        Some((empty_node(), None))
    } else {
        prefix_step(prefix_fold(items.drop_last(), v6), items.last().0, items.last().1, v6)
    }
}

/// The all-zero network of length 0 of a family.
pub open spec fn default_prefix(v6: bool) -> PrefixModel {
    if v6 {
        PrefixModel::V6 { addr: Seq::new(16, |i: int| 0u8), len: 0 }
    } else {
        PrefixModel::V4 { addr: Seq::new(4, |i: int| 0u8), len: 0 }
    }
}

/// One NLRI of type `t` decoded from its bytes `s`; None where the decoder
/// would panic.
pub open spec fn spec_ls_nlri(t: u16, s: Seq<u8>) -> Option<LsNlriModel> {
    if s.len() < 9 {
        Some(LsNlriModel::Unknown { nlri_type: t, data: s })
    } else {
        let protocol = ls_protocol_of(s[0]);
        let identifier = be64_at(s, 1) as u64;
        let rest = s.skip(9);
        if t == 1 {
            Some(LsNlriModel::Node { protocol, identifier, local_node: spec_node_descriptor(rest) })
        } else if t == 2 {
            let (l, r, k) = link_fold(spec_tlvs(rest, 2, 2));
            Some(LsNlriModel::Link { protocol, identifier, local_node: l, remote_node: r, link: k })
        } else if t == 3 || t == 4 {
            match prefix_fold(spec_tlvs(rest, 2, 2), t == 4) {
                None => None,
                Some((l, p)) => Some(
                    LsNlriModel::Prefix {
                        protocol,
                        identifier,
                        local_node: l,
                        prefix: match p {
                            Some(x) => x,
                            None => default_prefix(t == 4),
                        },
                    },
                ),
            }
        } else {
            Some(LsNlriModel::Unknown { nlri_type: t, data: s })
        }
    }
}

fn decode_link_nlri(protocol: BgpLsProtocol, identifier: u64, buf: &[u8], start: usize) -> (r: BgpLsNlri)
    requires
        start <= buf.len(),
    ensures
        r@ == ({
            let (l, rn, k) = link_fold(spec_tlvs(buf@.skip(start as int), 2, 2));
            LsNlriModel::Link { protocol, identifier, local_node: l, remote_node: rn, link: k }
        }),
{
    let items = split_tlvs(buf, start, buf.len(), 2, 2);
    let ghost spec_items = spec_tlvs(buf@.subrange(start as int, buf@.len() as int), 2, 2);
    assert(buf@.subrange(start as int, buf@.len() as int) =~= buf@.skip(start as int));
    let mut local_node = NodeDescriptor::default();
    let mut remote_node = NodeDescriptor::default();
    let mut link = LinkDescriptor::default();
    assert(link_fold(spec_items.subrange(0, 0)) == (empty_node(), empty_node(), empty_link()));
    let mut i: usize = 0;
    while i < items.len()
        invariant
            i <= items@.len(),
            tlv_refs_match(buf@, items@, spec_items),
            (local_node@, remote_node@, link@) == link_fold(spec_items.subrange(0, i as int)),
        decreases items@.len() - i,
    {
        let it = items[i];
        let ghost v = spec_items[i as int].1;
        assert(items@[i as int].t == spec_items[i as int].0);
        assert(it.off + it.len <= buf.len());
        assert(buf@.subrange(it.off as int, it.off + it.len) == v);
        let ghost prev = (local_node@, remote_node@, link@);
        let t = it.t;
        let o = it.off;
        let n = it.len;
        if t == 256 {
            decode_node_sub_tlvs(buf, o, o + n, &mut local_node);
        } else if t == 257 {
            decode_node_sub_tlvs(buf, o, o + n, &mut remote_node);
        } else if t == 258 && n >= 8 {
            link.local_id = Some(read_u32(buf, o));
            link.remote_id = Some(read_u32(buf, o + 4));
        } else if t == 259 && n >= 4 {
            let a = read_array4(buf, o);
            assert(a@ =~= v.subrange(0, 4));
            link.local_addr = Some(IpAddress::V4(a));
        } else if t == 260 && n >= 4 {
            let a = read_array4(buf, o);
            assert(a@ =~= v.subrange(0, 4));
            link.remote_addr = Some(IpAddress::V4(a));
        } else if t == 261 && n >= 16 {
            let a = read_array16(buf, o);
            assert(a@ =~= v.subrange(0, 16));
            link.local_addr = Some(IpAddress::V6(a));
        } else if t == 262 && n >= 16 {
            let a = read_array16(buf, o);
            assert(a@ =~= v.subrange(0, 16));
            link.remote_addr = Some(IpAddress::V6(a));
        }
        proof {
            assert(spec_items.subrange(0, i + 1).drop_last() =~= spec_items.subrange(0, i as int));
            assert((local_node@, remote_node@, link@) == link_step(prev, t, v));
        }
        i = i + 1;
    }
    assert(spec_items.subrange(0, spec_items.len() as int) =~= spec_items);
    BgpLsNlri::Link { protocol, identifier, local_node, remote_node, link }
}

fn decode_prefix_nlri(protocol: BgpLsProtocol, identifier: u64, buf: &[u8], start: usize, is_v6: bool) -> (r: BgpLsNlri)
    requires
        start <= buf.len(),
        prefix_fold(spec_tlvs(buf@.skip(start as int), 2, 2), is_v6) is Some,
    ensures
        ({
            let (l, p) = prefix_fold(spec_tlvs(buf@.skip(start as int), 2, 2), is_v6)->0;
            r@ == LsNlriModel::Prefix {
                protocol,
                identifier,
                local_node: l,
                prefix: match p {
                    Some(x) => x,
                    None => default_prefix(is_v6),
                },
            }
        }),
{
    let items = split_tlvs(buf, start, buf.len(), 2, 2);
    let ghost spec_items = spec_tlvs(buf@.subrange(start as int, buf@.len() as int), 2, 2);
    assert(buf@.subrange(start as int, buf@.len() as int) =~= buf@.skip(start as int));
    let afi = if is_v6 {
        Afi::Ipv6
    } else {
        Afi::Ipv4
    };
    let mut local_node = NodeDescriptor::default();
    let mut prefix_opt: Option<Prefix> = None;
    proof {
        assert(prefix_fold(spec_items.subrange(0, 0), is_v6) == Some((empty_node(), None::<PrefixModel>)));
        lemma_prefix_fold_some_prefix(spec_items, is_v6, 0);
    }
    let mut i: usize = 0;
    while i < items.len()
        invariant
            i <= items@.len(),
            tlv_refs_match(buf@, items@, spec_items),
            afi == (if is_v6 { Afi::Ipv6 } else { Afi::Ipv4 }),
            prefix_fold(spec_items, is_v6) is Some,
            prefix_fold(spec_items.subrange(0, i as int), is_v6) == Some(
                (
                    local_node@,
                    match prefix_opt {
                        Some(x) => Some(x@),
                        None => None::<PrefixModel>,
                    },
                ),
            ),
        decreases items@.len() - i,
    {
        let it = items[i];
        let ghost v = spec_items[i as int].1;
        assert(items@[i as int].t == spec_items[i as int].0);
        assert(it.off + it.len <= buf.len());
        assert(buf@.subrange(it.off as int, it.off + it.len) == v);
        let ghost prev = prefix_fold(spec_items.subrange(0, i as int), is_v6);
        proof {
            assert(spec_items.subrange(0, i + 1).drop_last() =~= spec_items.subrange(0, i as int));
            lemma_prefix_fold_some_prefix(spec_items, is_v6, i as int + 1);
        }
        let t = it.t;
        let o = it.off;
        let n = it.len;
        if t == 256 {
            decode_node_sub_tlvs(buf, o, o + n, &mut local_node);
        } else if t == 265 && n >= 1 {
            let plen = buf[o];
            let octets: usize = (plen as usize + 7) / 8;
            if n >= 1 + octets {
                proof {
                    assert(v[0] == plen);
                    assert(v.skip(1) =~= buf@.skip(o + 1).subrange(0, v.len() - 1));
                }
                let p = read_net(buf, o + 1, plen, afi);
                proof {
                    let a = buf@.skip(o + 1);
                    let b = v.skip(1);
                    assert(forall|k: int| 0 <= k < octets ==> a[k] == b[k]);
                    assert(masked_addr(a, plen as nat, 4) =~= masked_addr(b, plen as nat, 4));
                    assert(masked_addr(a, plen as nat, 16) =~= masked_addr(b, plen as nat, 16));
                }
                prefix_opt = Some(p);
            }
        }
        proof {
            assert(prefix_fold(spec_items.subrange(0, i + 1), is_v6) == prefix_step(prev, t, v, is_v6));
        }
        i = i + 1;
    }
    assert(spec_items.subrange(0, spec_items.len() as int) =~= spec_items);
    let prefix = match prefix_opt {
        Some(p) => p,
        None => {
            if is_v6 {
                let a: [u8; 16] = [0, 0, 0, 0, 0, 0, 0, 0, 0, 0, 0, 0, 0, 0, 0, 0];
                assert(a@ =~= Seq::new(16, |i: int| 0u8));
                Prefix::V6(Ipv6Net { addr: a, prefix_len: 0 })
            } else {
                let a: [u8; 4] = [0, 0, 0, 0];
                assert(a@ =~= Seq::new(4, |i: int| 0u8));
                Prefix::V4(Ipv4Net { addr: a, prefix_len: 0 })
            }
        },
    };
    BgpLsNlri::Prefix { protocol, identifier, local_node, prefix }
}

/// A prefix fold that does not panic over all items does not panic over a
/// prefix of them.
proof fn lemma_prefix_fold_some_prefix(items: Seq<(u16, Seq<u8>)>, v6: bool, k: int)
    requires
        0 <= k <= items.len(),
        prefix_fold(items, v6) is Some,
    ensures
        prefix_fold(items.subrange(0, k), v6) is Some,
    decreases items.len() - k,
{
    if k < items.len() {
        lemma_prefix_fold_some_prefix(items, v6, k + 1);
        assert(items.subrange(0, k + 1).drop_last() =~= items.subrange(0, k));
    } else {
        assert(items.subrange(0, k) =~= items);
    }
}

/// Decodes one NLRI of type `nlri_type` from its bytes.
fn decode_one(nlri_type: u16, buf: &[u8]) -> (r: BgpLsNlri)
    requires
        spec_ls_nlri(nlri_type, buf@) is Some,
    ensures
        spec_ls_nlri(nlri_type, buf@) == Some(r@),
{
    if buf.len() < 9 {
        let data = copy_range(buf, 0, buf.len());
        assert(data@ =~= buf@);
        return BgpLsNlri::Unknown { nlri_type, data };
    }
    let protocol = BgpLsProtocol::from_u8(buf[0]);
    let identifier = read_u64(buf, 1);
    if nlri_type == 1 {
        let local_node = decode_node_descriptor(buf, 9);
        BgpLsNlri::Node { protocol, identifier, local_node }
    } else if nlri_type == 2 {
        decode_link_nlri(protocol, identifier, buf, 9)
    } else if nlri_type == 3 || nlri_type == 4 {
        decode_prefix_nlri(protocol, identifier, buf, 9, nlri_type == 4)
    } else {
        let data = copy_range(buf, 0, buf.len());
        assert(data@ =~= buf@);
        BgpLsNlri::Unknown { nlri_type, data }
    }
}

/// NLRIs of `s` appended to `acc`: type(2) + length(2) + value; a value
/// that runs past the end is an error. None where the decoder would panic.
#[verifier::opaque]
pub open spec fn spec_ls_nlris_from(s: Seq<u8>, acc: Seq<LsNlriModel>) -> Option<Result<Seq<LsNlriModel>, ErrorModel>>
    decreases s.len(),
{
    if s.len() < 4 {
        Some(Ok(acc))
    } else {
        let l = be16_at(s, 2);
        if s.len() - 4 < l {
            Some(Err(eof(l, s.len() - 4)))
        } else {
            match spec_ls_nlri(be16_at(s, 0) as u16, s.subrange(4, 4 + l)) {
                None => None,
                Some(n) => spec_ls_nlris_from(s.skip(4 + l), acc.push(n)),
            }
        }
    }
}

pub open spec fn spec_ls_nlris(s: Seq<u8>) -> Option<Result<Seq<LsNlriModel>, ErrorModel>> {
    spec_ls_nlris_from(s, Seq::empty())
}

proof fn lemma_ls_unfold(s: Seq<u8>, acc: Seq<LsNlriModel>)
    ensures
        spec_ls_nlris_from(s, acc) == (if s.len() < 4 {
            Some(Ok(acc))
        } else {
            let l = be16_at(s, 2);
            if s.len() - 4 < l {
                Some(Err(eof(l, s.len() - 4)))
            } else {
                match spec_ls_nlri(be16_at(s, 0) as u16, s.subrange(4, 4 + l)) {
                    None => None,
                    Some(n) => spec_ls_nlris_from(s.skip(4 + l), acc.push(n)),
                }
            }
        }),
{
    reveal(spec_ls_nlris_from);
}

pub open spec fn ls_nlris_view(v: Seq<BgpLsNlri>) -> Seq<LsNlriModel> {
    v.map_values(|n: BgpLsNlri| n@)
}

/// Decodes a list of BGP-LS NLRIs.
pub fn decode_bgpls_nlri(buf: &[u8]) -> (r: Result<Vec<BgpLsNlri>, Error>)
    requires
        spec_ls_nlris(buf@) is Some,
    ensures
        match r {
            Ok(v) => spec_ls_nlris(buf@) == Some(Ok::<Seq<LsNlriModel>, ErrorModel>(ls_nlris_view(v@))),
            Err(e) => spec_ls_nlris(buf@) == Some(Err::<Seq<LsNlriModel>, ErrorModel>(e@)),
        },
{
    let mut nlris: Vec<BgpLsNlri> = Vec::new();
    let mut pos: usize = 0;
    proof {
        assert(buf@.skip(0) =~= buf@);
        assert(ls_nlris_view(nlris@) =~= Seq::<LsNlriModel>::empty());
    }
    loop
        invariant_except_break
            pos <= buf.len(),
            spec_ls_nlris(buf@) == spec_ls_nlris_from(buf@.skip(pos as int), ls_nlris_view(nlris@)),
            spec_ls_nlris(buf@) is Some,
        ensures
            spec_ls_nlris(buf@) == Some(Ok::<Seq<LsNlriModel>, ErrorModel>(ls_nlris_view(nlris@))),
        decreases buf.len() - pos,
    {
        let ghost rest = buf@.skip(pos as int);
        proof {
            lemma_ls_unfold(rest, ls_nlris_view(nlris@));
        }
        if buf.len() - pos < 4 {
            break;
        }
        let nlri_type = read_u16(buf, pos);
        let nlri_len = read_u16(buf, pos + 2) as usize;
        proof {
            assert(be16_at(rest, 0) == be16_at(buf@, pos as int));
            assert(be16_at(rest, 2) == be16_at(buf@, pos + 2));
        }
        if buf.len() - pos - 4 < nlri_len {
            return Err(Error::UnexpectedEof { needed: nlri_len, have: buf.len() - pos - 4 });
        }
        let bytes = copy_range(buf, pos + 4, nlri_len);
        assert(bytes@ =~= rest.subrange(4, 4 + nlri_len));
        let n = decode_one(nlri_type, bytes.as_slice());
        let ghost before = ls_nlris_view(nlris@);
        let ghost nv = n@;
        nlris.push(n);
        proof {
            assert(ls_nlris_view(nlris@) =~= before.push(nv));
            assert(rest.skip(4 + nlri_len) =~= buf@.skip(pos + 4 + nlri_len));
        }
        pos = pos + 4 + nlri_len;
    }
    Ok(nlris)
}

/// BGP-LS NLRI carried in MP_REACH_NLRI.
#[derive(Clone, Debug)]
pub struct BgpLsReachNlri {
    pub next_hop: Option<IpAddress>,
    pub nlris: Vec<BgpLsNlri>,
}

/// BGP-LS NLRI carried in MP_UNREACH_NLRI.
#[derive(Clone, Debug)]
pub struct BgpLsUnreachNlri {
    pub nlris: Vec<BgpLsNlri>,
}

/// Decodes the NLRI of an MP_REACH BGP-LS body (next hop already read).
pub fn decode_bgpls_reach(next_hop: Option<IpAddress>, nlri_buf: &[u8]) -> (r: Result<BgpLsReachNlri, Error>)
    requires
        spec_ls_nlris(nlri_buf@) is Some,
    ensures
        match r {
            Ok(v) => v.next_hop == next_hop && spec_ls_nlris(nlri_buf@) == Some(
                Ok::<Seq<LsNlriModel>, ErrorModel>(ls_nlris_view(v.nlris@)),
            ),
            Err(e) => spec_ls_nlris(nlri_buf@) == Some(Err::<Seq<LsNlriModel>, ErrorModel>(e@)),
        },
{
    match decode_bgpls_nlri(nlri_buf) {
        Ok(nlris) => Ok(BgpLsReachNlri { next_hop, nlris }),
        Err(e) => Err(e),
    }
}

/// Decodes the NLRI of an MP_UNREACH BGP-LS body.
pub fn decode_bgpls_unreach(buf: &[u8]) -> (r: Result<BgpLsUnreachNlri, Error>)
    requires
        spec_ls_nlris(buf@) is Some,
    ensures
        match r {
            Ok(v) => spec_ls_nlris(buf@) == Some(Ok::<Seq<LsNlriModel>, ErrorModel>(ls_nlris_view(v.nlris@))),
            Err(e) => spec_ls_nlris(buf@) == Some(Err::<Seq<LsNlriModel>, ErrorModel>(e@)),
        },
{
    match decode_bgpls_nlri(buf) {
        Ok(nlris) => Ok(BgpLsUnreachNlri { nlris }),
        Err(e) => Err(e),
    }
}

} // verus!
