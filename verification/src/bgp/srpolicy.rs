//! SR Policy NLRI and candidate paths (RFC 9256) and Route Target
//! Constraint NLRI (RFC 4684).

use vstd::prelude::*;
use crate::error::{Error, ErrorModel, eof};
use crate::net::{IpAddress, IpModel, ip_at, read_ip};
use crate::text::{lossy_string, utf8_lossy};
use crate::wire::{be16_at, be24_at, be32_at, read_u16, read_u24, read_u32, read_array4, read_array16, copy_range};

verus! {

// ─── SR Policy NLRI ──────────────────────────────────────────────────────────

/// SR Policy NLRI key: distinguisher, color and endpoint.
#[derive(Clone, Copy, Debug)]
pub struct SrPolicyNlri {
    pub distinguisher: u32,
    pub color: u32,
    pub endpoint: IpAddress,
}

pub struct SrPolicyModel {
    pub distinguisher: u32,
    pub color: u32,
    pub endpoint: IpModel,
}

impl View for SrPolicyNlri {
    type V = SrPolicyModel;

    open spec fn view(&self) -> SrPolicyModel {
        SrPolicyModel { distinguisher: self.distinguisher, color: self.color, endpoint: self.endpoint@ }
    }
}

/// The SR Policy NLRIs of `s`: records of distinguisher(4) + color(4) +
/// endpoint (4 or 16 bytes); trailing bytes too few for a record are ignored.
pub open spec fn spec_srpolicy_nlri(s: Seq<u8>, ipv6: bool) -> Seq<SrPolicyModel> {
    let size: int = if ipv6 {
        24
    } else {
        12
    };
    Seq::new(
        (s.len() as int / size) as nat,
        |i: int|
            SrPolicyModel {
                distinguisher: be32_at(s, i * size) as u32,
                color: be32_at(s, i * size + 4) as u32,
                endpoint: ip_at(s, i * size + 8, ipv6),
            },
    )
}

pub open spec fn policies_view(v: Seq<SrPolicyNlri>) -> Seq<SrPolicyModel> {
    v.map_values(|p: SrPolicyNlri| p@)
}

/// Decodes SR Policy NLRIs; never fails.
pub fn decode_srpolicy_nlri(buf: &[u8], afi_is_ipv6: bool) -> (r: Result<Vec<SrPolicyNlri>, Error>)
    ensures
        r matches Ok(v) && policies_view(v@) == spec_srpolicy_nlri(buf@, afi_is_ipv6),
{
    let size: usize = if afi_is_ipv6 {
        24
    } else {
        12
    };
    let mut policies: Vec<SrPolicyNlri> = Vec::new();
    let mut pos: usize = 0;
    let mut k: usize = 0;
    while size <= buf.len() - pos
        invariant
            size == (if afi_is_ipv6 { 24usize } else { 12usize }),
            pos == k * size,
            pos <= buf.len(),
            k <= buf.len() as int / size as int,
            policies_view(policies@) == spec_srpolicy_nlri(buf@, afi_is_ipv6).subrange(0, k as int),
        decreases buf.len() - pos,
    {
        let distinguisher = read_u32(buf, pos);
        let color = read_u32(buf, pos + 4);
        let endpoint = read_ip(buf, pos + 8, afi_is_ipv6);
        let ghost before = policies_view(policies@);
        let ghost old_p = policies@;
        let item = SrPolicyNlri { distinguisher, color, endpoint };
        policies.push(item);
        proof {
            assert((k + 1) * size <= buf.len()) by (nonlinear_arith)
                requires
                    pos == k * size,
                    pos + size <= buf.len(),
            ;
            vstd::arithmetic::div_mod::lemma_div_is_ordered((k + 1) * size as int, buf.len() as int, size as int);
            vstd::arithmetic::div_mod::lemma_div_by_multiple((k + 1) as int, size as int);
            let sp = spec_srpolicy_nlri(buf@, afi_is_ipv6);
            assert(k < sp.len());
            assert(sp[k as int].distinguisher == distinguisher);
            assert(sp[k as int].color == color);
            assert(sp[k as int].endpoint == endpoint@);
            assert(sp.len() == buf.len() as int / size as int);
            assert(before.len() == k);
            assert(old_p.len() == k);
            assert(policies@ == old_p.push(item));
            assert(policies_view(policies@) =~= before.push(item@));
            assert(policies_view(policies@) =~= sp.subrange(0, k + 1));
        }
        pos = pos + size;
        k = k + 1;
    }
    proof {
        let n = buf.len() as int;
        let z = size as int;
        let kk = k as int;
        vstd::arithmetic::div_mod::lemma_fundamental_div_mod(n, z);
        assert(kk == n / z) by (nonlinear_arith)
            requires
                kk * z <= n,
                n - kk * z < z,
                z > 0,
                n == z * (n / z) + n % z,
                0 <= n % z < z,
        ;
        assert(policies_view(policies@) =~= spec_srpolicy_nlri(buf@, afi_is_ipv6));
    }
    Ok(policies)
}

// ─── Route Target Constraint NLRI ────────────────────────────────────────────

/// RTC NLRI (RFC 4684).
#[derive(Clone, Debug)]
pub enum RtcNlri {
    /// Prefix length 0: interested in all route targets.
    Wildcard,
    /// Origin AS (when the prefix has at least 4 bytes), prefix length and the
    /// prefix bytes.
    Specific { origin_as: Option<u32>, prefix_len: u8, data: Vec<u8> },
}

pub enum RtcModel {
    Wildcard,
    Specific { origin_as: Option<u32>, prefix_len: u8, data: Seq<u8> },
}

impl View for RtcNlri {
    type V = RtcModel;

    open spec fn view(&self) -> RtcModel {
        match self {
            RtcNlri::Wildcard => RtcModel::Wildcard,
            RtcNlri::Specific { origin_as, prefix_len, data } => RtcModel::Specific {
                origin_as: *origin_as,
                prefix_len: *prefix_len,
                data: data@,
            },
        }
    }
}

/// RTC NLRIs of `s` from offset `p` on, appended to `acc`: a prefix length
/// in bits, then its bytes; a prefix that runs past the end is an error
/// naming the offset it would need.
pub open spec fn spec_rtc_from(s: Seq<u8>, p: nat, acc: Seq<RtcModel>) -> Result<Seq<RtcModel>, ErrorModel>
    decreases s.len() - p,
{
    if p >= s.len() {
        Ok(acc)
    } else {
        let pl = s[p as int];
        if pl == 0 {
            spec_rtc_from(s, p + 1, acc.push(RtcModel::Wildcard))
        } else {
            let octets = ((pl + 7) / 8) as nat;
            if p + 1 + octets > s.len() {
                Err(eof((p + 1 + octets) as int, s.len() as int))
            } else {
                let bytes = s.subrange((p + 1) as int, (p + 1 + octets) as int);
                let origin = if octets >= 4 {
                    Some(be32_at(bytes, 0) as u32)
                } else {
                    None
                };
                spec_rtc_from(
                    s,
                    p + 1 + octets,
                    acc.push(RtcModel::Specific { origin_as: origin, prefix_len: pl, data: bytes }),
                )
            }
        }
    }
}

pub open spec fn rtcs_view(v: Seq<RtcNlri>) -> Seq<RtcModel> {
    v.map_values(|n: RtcNlri| n@)
}

/// Decodes RTC NLRIs.
pub fn decode_rtc_nlri(buf: &[u8]) -> (r: Result<Vec<RtcNlri>, Error>)
    requires
        buf.len() <= isize::MAX,
    ensures
        match r {
            Ok(v) => spec_rtc_from(buf@, 0, Seq::empty()) == Ok::<Seq<RtcModel>, ErrorModel>(
                rtcs_view(v@),
            ),
            Err(e) => spec_rtc_from(buf@, 0, Seq::empty()) == Err::<Seq<RtcModel>, ErrorModel>(
                e@,
            ),
        },
{
    let mut result: Vec<RtcNlri> = Vec::new();
    let mut pos: usize = 0;
    assert(rtcs_view(result@) =~= Seq::<RtcModel>::empty());
    while pos < buf.len()
        invariant
            pos <= buf.len(),
            buf.len() <= isize::MAX,
            spec_rtc_from(buf@, 0, Seq::empty()) == spec_rtc_from(
                buf@,
                pos as nat,
                rtcs_view(result@),
            ),
        decreases buf.len() - pos,
    {
        let pl = buf[pos];
        let ghost before = rtcs_view(result@);
        if pl == 0 {
            result.push(RtcNlri::Wildcard);
            assert(rtcs_view(result@) =~= before.push(RtcModel::Wildcard));
            pos = pos + 1;
        } else {
            let octets: usize = (pl as usize + 7) / 8;
            if octets > buf.len() - pos - 1 {
                return Err(Error::UnexpectedEof { needed: pos + 1 + octets, have: buf.len() });
            }
            let bytes = copy_range(buf, pos + 1, octets);
            let origin_as = if octets >= 4 {
                Some(read_u32(bytes.as_slice(), 0))
            } else {
                None
            };
            let ghost bytes_v = bytes@;
            result.push(RtcNlri::Specific { origin_as, prefix_len: pl, data: bytes });
            assert(rtcs_view(result@) =~= before.push(
                RtcModel::Specific { origin_as, prefix_len: pl, data: bytes_v },
            ));
            pos = pos + 1 + octets;
        }
    }
    Ok(result)
}

// ─── Segment lists and candidate paths ───────────────────────────────────────

/// Segment of a segment list (RFC 9256 section 2.4.4, types A to K).
#[derive(Debug)]
pub enum Segment {
    MplsLabel { label: u32, tc: u8, s: bool, ttl: u8 },
    Srv6Sid { sid: [u8; 16], endpoint_behavior: Option<u16> },
    Ipv4Prefix { prefix: [u8; 4], prefix_len: u8, algorithm: u8 },
    Ipv6Prefix { prefix: [u8; 16], prefix_len: u8, algorithm: u8 },
    Ipv4Adjacency { local_id: u32, remote_id: u32 },
    Ipv4Interface { local_addr: [u8; 4], remote_addr: [u8; 4] },
    Ipv6LocalAdj { local_id: u32, local_addr: [u8; 16], remote_addr: [u8; 16] },
    Ipv6Adjacency { local_id: u32, remote_id: u32, local_addr: [u8; 16], remote_addr: [u8; 16] },
    Ipv4NextHop { nexthop: [u8; 4], algorithm: u8 },
    Ipv6NextHop { nexthop: [u8; 16], algorithm: u8 },
    SubList { sub_segments: Vec<Segment> },
    Unknown { seg_type: u8, data: Vec<u8> },
}

/// Model of a [`Segment`]: addresses as byte sequences.
pub enum SegmentModel {
    MplsLabel { label: u32, tc: u8, s: bool, ttl: u8 },
    Srv6Sid { sid: Seq<u8>, endpoint_behavior: Option<u16> },
    Ipv4Prefix { prefix: Seq<u8>, prefix_len: u8, algorithm: u8 },
    Ipv6Prefix { prefix: Seq<u8>, prefix_len: u8, algorithm: u8 },
    Ipv4Adjacency { local_id: u32, remote_id: u32 },
    Ipv4Interface { local_addr: Seq<u8>, remote_addr: Seq<u8> },
    Ipv6LocalAdj { local_id: u32, local_addr: Seq<u8>, remote_addr: Seq<u8> },
    Ipv6Adjacency { local_id: u32, remote_id: u32, local_addr: Seq<u8>, remote_addr: Seq<u8> },
    Ipv4NextHop { nexthop: Seq<u8>, algorithm: u8 },
    Ipv6NextHop { nexthop: Seq<u8>, algorithm: u8 },
    SubList { sub_segments: Seq<SegmentModel> },
    Unknown { seg_type: u8, data: Seq<u8> },
}

/// The model of a segment.
pub open spec fn segment_model(g: Segment) -> SegmentModel
    decreases g,
{
    match g {
        Segment::MplsLabel { label, tc, s, ttl } => SegmentModel::MplsLabel { label, tc, s, ttl },
        Segment::Srv6Sid { sid, endpoint_behavior } => SegmentModel::Srv6Sid {
            sid: sid@,
            endpoint_behavior,
        },
        Segment::Ipv4Prefix { prefix, prefix_len, algorithm } => SegmentModel::Ipv4Prefix {
            prefix: prefix@,
            prefix_len,
            algorithm,
        },
        Segment::Ipv6Prefix { prefix, prefix_len, algorithm } => SegmentModel::Ipv6Prefix {
            prefix: prefix@,
            prefix_len,
            algorithm,
        },
        Segment::Ipv4Adjacency { local_id, remote_id } => SegmentModel::Ipv4Adjacency {
            local_id,
            remote_id,
        },
        Segment::Ipv4Interface { local_addr, remote_addr } => SegmentModel::Ipv4Interface {
            local_addr: local_addr@,
            remote_addr: remote_addr@,
        },
        Segment::Ipv6LocalAdj { local_id, local_addr, remote_addr } => SegmentModel::Ipv6LocalAdj {
            local_id,
            local_addr: local_addr@,
            remote_addr: remote_addr@,
        },
        Segment::Ipv6Adjacency {
            local_id,
            remote_id,
            local_addr,
            remote_addr,
        } => SegmentModel::Ipv6Adjacency {
            local_id,
            remote_id,
            local_addr: local_addr@,
            remote_addr: remote_addr@,
        },
        Segment::Ipv4NextHop { nexthop, algorithm } => SegmentModel::Ipv4NextHop {
            nexthop: nexthop@,
            algorithm,
        },
        Segment::Ipv6NextHop { nexthop, algorithm } => SegmentModel::Ipv6NextHop {
            nexthop: nexthop@,
            algorithm,
        },
        Segment::SubList { sub_segments } => SegmentModel::SubList {
            sub_segments: segments_model(sub_segments@),
        },
        Segment::Unknown { seg_type, data } => SegmentModel::Unknown { seg_type, data: data@ },
    }
}

/// The models of a sequence of segments.
pub open spec fn segments_model(v: Seq<Segment>) -> Seq<SegmentModel>
    decreases v,
{
    if v.len() == 0 {
        Seq::empty()
    } else {
        segments_model(v.drop_last()).push(segment_model(v.last()))
    }
}

/// A segment of type `t` with type-specific data `d` (after flags and
/// reserved bytes); `sub` is the decoded sub-list for type 11. A known type
/// whose data is too short is kept as unknown.
pub open spec fn spec_segment(t: u8, d: Seq<u8>, sub: Seq<SegmentModel>) -> SegmentModel {
    if t == 1 && d.len() >= 3 {
        let raw = be24_at(d, 0);
        SegmentModel::MplsLabel {
            label: (raw / 4096) as u32,
            tc: ((raw / 512) % 8) as u8,
            s: (raw / 256) % 2 == 1,
            ttl: (raw % 256) as u8,
        }
    } else if t == 2 && d.len() >= 16 {
        SegmentModel::Srv6Sid {
            sid: d.subrange(0, 16),
            endpoint_behavior: if d.len() >= 18 {
                Some(be16_at(d, 16) as u16)
            } else {
                None
            },
        }
    } else if t == 3 && d.len() >= 6 {
        SegmentModel::Ipv4Prefix { prefix: d.subrange(0, 4), prefix_len: d[4], algorithm: d[5] }
    } else if t == 4 && d.len() >= 18 {
        SegmentModel::Ipv6Prefix { prefix: d.subrange(0, 16), prefix_len: d[16], algorithm: d[17] }
    } else if t == 5 && d.len() >= 8 {
        SegmentModel::Ipv4Adjacency { local_id: be32_at(d, 0) as u32, remote_id: be32_at(d, 4) as u32 }
    } else if t == 6 && d.len() >= 8 {
        SegmentModel::Ipv4Interface { local_addr: d.subrange(0, 4), remote_addr: d.subrange(4, 8) }
    } else if t == 7 && d.len() >= 36 {
        SegmentModel::Ipv6LocalAdj {
            local_id: be32_at(d, 0) as u32,
            local_addr: d.subrange(4, 20),
            remote_addr: d.subrange(20, 36),
        }
    } else if t == 8 && d.len() >= 40 {
        SegmentModel::Ipv6Adjacency {
            local_id: be32_at(d, 0) as u32,
            remote_id: be32_at(d, 4) as u32,
            local_addr: d.subrange(8, 24),
            remote_addr: d.subrange(24, 40),
        }
    } else if t == 9 && d.len() >= 5 {
        SegmentModel::Ipv4NextHop { nexthop: d.subrange(0, 4), algorithm: d[4] }
    } else if t == 10 && d.len() >= 17 {
        SegmentModel::Ipv6NextHop { nexthop: d.subrange(0, 16), algorithm: d[16] }
    } else if t == 11 {
        SegmentModel::SubList { sub_segments: sub }
    } else {
        SegmentModel::Unknown { seg_type: t, data: d }
    }
}

/// Segments of `s` appended to `acc`: type(1) + length(1) + flags(1) +
/// reserved(1) + data of length - 2 bytes; decoding stops at a length below
/// 2 or one that runs past the end. A sub-list (type 11) is decoded from its
/// data in the same way.
pub open spec fn spec_segments_from(s: Seq<u8>, acc: Seq<SegmentModel>) -> Seq<SegmentModel>
    decreases s.len(),
{
    if s.len() < 2 {
        acc
    } else {
        let l = s[1] as int;
        if l < 2 || 2 + l > s.len() {
            acc
        } else {
            let d = s.subrange(4, 2 + l);
            let sub = if s[0] == 11 {
                spec_segments_from(d, Seq::empty())
            } else {
                Seq::empty()
            };
            spec_segments_from(s.skip(2 + l), acc.push(spec_segment(s[0], d, sub)))
        }
    }
}

fn build_segment(t: u8, d: &Vec<u8>) -> (r: Segment)
    requires
        t != 11,
    ensures
        segment_model(r) == spec_segment(t, d@, Seq::empty()),
{
    let n: usize = d.len();
    let ds = d.as_slice();
    if t == 1 && n >= 3 {
        let raw = read_u24(ds, 0);
        Segment::MplsLabel {
            label: raw / 4096,
            tc: ((raw / 512) % 8) as u8,
            s: (raw / 256) % 2 == 1,
            ttl: (raw % 256) as u8,
        }
    } else if t == 2 && n >= 16 {
        let endpoint_behavior = if n >= 18 {
            Some(read_u16(ds, 16))
        } else {
            None
        };
        Segment::Srv6Sid { sid: read_array16(ds, 0), endpoint_behavior }
    } else if t == 3 && n >= 6 {
        Segment::Ipv4Prefix { prefix: read_array4(ds, 0), prefix_len: d[4], algorithm: d[5] }
    } else if t == 4 && n >= 18 {
        Segment::Ipv6Prefix { prefix: read_array16(ds, 0), prefix_len: d[16], algorithm: d[17] }
    } else if t == 5 && n >= 8 {
        Segment::Ipv4Adjacency { local_id: read_u32(ds, 0), remote_id: read_u32(ds, 4) }
    } else if t == 6 && n >= 8 {
        Segment::Ipv4Interface { local_addr: read_array4(ds, 0), remote_addr: read_array4(ds, 4) }
    } else if t == 7 && n >= 36 {
        Segment::Ipv6LocalAdj {
            local_id: read_u32(ds, 0),
            local_addr: read_array16(ds, 4),
            remote_addr: read_array16(ds, 20),
        }
    } else if t == 8 && n >= 40 {
        Segment::Ipv6Adjacency {
            local_id: read_u32(ds, 0),
            remote_id: read_u32(ds, 4),
            local_addr: read_array16(ds, 8),
            remote_addr: read_array16(ds, 24),
        }
    } else if t == 9 && n >= 5 {
        Segment::Ipv4NextHop { nexthop: read_array4(ds, 0), algorithm: d[4] }
    } else if t == 10 && n >= 17 {
        Segment::Ipv6NextHop { nexthop: read_array16(ds, 0), algorithm: d[16] }
    } else {
        let data = copy_range(ds, 0, n);
        assert(data@ =~= d@);
        Segment::Unknown { seg_type: t, data }
    }
}

proof fn lemma_segments_push(v: Seq<Segment>, g: Segment)
    ensures
        segments_model(v.push(g)) == segments_model(v).push(segment_model(g)),
{
    assert(v.push(g).drop_last() =~= v);
}

/// Decodes the segments of a segment list (sub-lists recursively).
pub fn parse_segments(buf: &[u8]) -> (r: Vec<Segment>)
    ensures
        segments_model(r@) == spec_segments_from(buf@, Seq::empty()),
    decreases buf.len(),
{
    let mut segs: Vec<Segment> = Vec::new();
    let mut pos: usize = 0;
    proof {
        assert(buf@.skip(0) =~= buf@);
        assert(segments_model(segs@) =~= Seq::<SegmentModel>::empty());
    }
    loop
        invariant_except_break
            pos <= buf.len(),
            spec_segments_from(buf@, Seq::empty()) == spec_segments_from(
                buf@.skip(pos as int),
                segments_model(segs@),
            ),
        ensures
            segments_model(segs@) == spec_segments_from(buf@, Seq::empty()),
        decreases buf.len() - pos,
    {
        let ghost rest = buf@.skip(pos as int);
        if buf.len() - pos < 2 {
            break;
        }
        let seg_type = buf[pos];
        let seg_len = buf[pos + 1] as usize;
        if seg_len < 2 || seg_len > buf.len() - pos - 2 {
            break;
        }
        let data = copy_range(buf, pos + 4, seg_len - 2);
        proof {
            assert(data@ =~= rest.subrange(4, 2 + seg_len));
        }
        let seg = if seg_type == 11 {
            let sub = parse_segments(data.as_slice());
            Segment::SubList { sub_segments: sub }
        } else {
            build_segment(seg_type, &data)
        };
        proof {
            lemma_segments_push(segs@, seg);
            assert(rest.skip(2 + seg_len) =~= buf@.skip(pos + 2 + seg_len));
        }
        segs.push(seg);
        pos = pos + 2 + seg_len;
    }
    segs
}

/// A segment list: its weight and segments.
#[derive(Debug)]
pub struct SegmentList {
    pub weight: u32,
    pub segments: Vec<Segment>,
}

pub open spec fn segment_list_model(l: SegmentList) -> (u32, Seq<SegmentModel>) {
    (l.weight, segments_model(l.segments@))
}

pub open spec fn segment_lists_model(v: Seq<SegmentList>) -> Seq<(u32, Seq<SegmentModel>)> {
    v.map_values(|l: SegmentList| segment_list_model(l))
}

/// Segment lists of `s` appended to `acc`: sub-TLVs of type(1) + length(2)
/// + value; a Segment List sub-TLV (type 132) of at least 4 bytes holds a
/// weight(1) + reserved(3)... read as a 32-bit word, then segments. Other
/// sub-TLVs are skipped; decoding stops at one that runs past the end.
pub open spec fn spec_segment_lists_from(s: Seq<u8>, acc: Seq<(u32, Seq<SegmentModel>)>) -> Seq<
    (u32, Seq<SegmentModel>),
>
    decreases s.len(),
{
    if s.len() < 3 {
        acc
    } else {
        let l = be16_at(s, 1);
        if 3 + l > s.len() {
            acc
        } else {
            let d = s.subrange(3, 3 + l);
            let next = if s[0] == 132 && l >= 4 {
                acc.push((be32_at(d, 0) as u32, spec_segments_from(d.skip(4), Seq::empty())))
            } else {
                acc
            };
            spec_segment_lists_from(s.skip(3 + l), next)
        }
    }
}

/// Decodes the segment lists carried in a candidate path.
fn parse_segment_lists(buf: &[u8]) -> (r: Vec<SegmentList>)
    ensures
        segment_lists_model(r@) == spec_segment_lists_from(buf@, Seq::empty()),
{
    let mut lists: Vec<SegmentList> = Vec::new();
    let mut pos: usize = 0;
    proof {
        assert(buf@.skip(0) =~= buf@);
        assert(segment_lists_model(lists@) =~= Seq::<(u32, Seq<SegmentModel>)>::empty());
    }
    loop
        invariant_except_break
            pos <= buf.len(),
            spec_segment_lists_from(buf@, Seq::empty()) == spec_segment_lists_from(
                buf@.skip(pos as int),
                segment_lists_model(lists@),
            ),
        ensures
            segment_lists_model(lists@) == spec_segment_lists_from(buf@, Seq::empty()),
        decreases buf.len() - pos,
    {
        let ghost rest = buf@.skip(pos as int);
        if buf.len() - pos < 3 {
            break;
        }
        let sub_type = buf[pos];
        let sub_len = read_u16(buf, pos + 1) as usize;
        proof {
            assert(be16_at(rest, 1) == be16_at(buf@, pos + 1));
        }
        if sub_len > buf.len() - pos - 3 {
            break;
        }
        if sub_type == 132 && sub_len >= 4 {
            let data = copy_range(buf, pos + 3, sub_len);
            let weight = read_u32(data.as_slice(), 0);
            let tail = copy_range(data.as_slice(), 4, sub_len - 4);
            let segments = parse_segments(tail.as_slice());
            let ghost before = lists@;
            let item = SegmentList { weight, segments };
            lists.push(item);
            proof {
                let d = rest.subrange(3, 3 + sub_len);
                assert(data@ =~= d);
                assert(tail@ =~= d.skip(4));
                assert(segment_lists_model(lists@) =~= segment_lists_model(before).push(
                    segment_list_model(item),
                ));
            }
        }
        proof {
            assert(rest.skip(3 + sub_len) =~= buf@.skip(pos + 3 + sub_len));
        }
        pos = pos + 3 + sub_len;
    }
    lists
}

/// The name in the first sub-TLV of type 130 (type(1) + length(2) + value)
/// of `s`, decoded as lossy UTF-8; the scan stops at a sub-TLV that runs past
/// the end.
pub open spec fn spec_name_from(s: Seq<u8>) -> Option<Seq<char>>
    decreases s.len(),
{
    if s.len() < 3 {
        None
    } else {
        let l = be16_at(s, 1);
        if 3 + l > s.len() {
            None
        } else if s[0] == 130 {
            Some(utf8_lossy(s.subrange(3, 3 + l)))
        } else {
            spec_name_from(s.skip(3 + l))
        }
    }
}

/// The path name of a Preference sub-TLV value (its sub-TLVs start after
/// 8 bytes of flags, reserved and preference).
pub open spec fn spec_path_name(s: Seq<u8>) -> Option<Seq<char>> {
    if s.len() < 8 {
        None
    } else {
        spec_name_from(s.skip(8))
    }
}

fn extract_path_name(buf: &[u8]) -> (r: Option<String>)
    ensures
        match r {
            Some(n) => spec_path_name(buf@) == Some(n@),
            None => spec_path_name(buf@) is None,
        },
{
    if buf.len() < 8 {
        return None;
    }
    let mut pos: usize = 8;
    while buf.len() - pos >= 3
        invariant
            8 <= pos <= buf.len(),
            spec_path_name(buf@) == spec_name_from(buf@.skip(pos as int)),
        decreases buf.len() - pos,
    {
        let ghost rest = buf@.skip(pos as int);
        let t = buf[pos];
        let len = read_u16(buf, pos + 1) as usize;
        proof {
            assert(be16_at(rest, 1) == be16_at(buf@, pos + 1));
        }
        if len > buf.len() - pos - 3 {
            return None;
        }
        if t == 130 {
            let bytes = copy_range(buf, pos + 3, len);
            assert(bytes@ =~= rest.subrange(3, 3 + len));
            return Some(lossy_string(bytes.as_slice()));
        }
        proof {
            assert(rest.skip(3 + len) =~= buf@.skip(pos + 3 + len));
        }
        pos = pos + 3 + len;
    }
    None
}

/// SR Policy candidate path.
#[derive(Debug)]
pub struct CandidatePath {
    pub preference: u32,
    pub name: Option<String>,
    pub segment_lists: Vec<SegmentList>,
    pub is_best: bool,
}

pub struct CandidatePathModel {
    pub preference: u32,
    pub name: Option<Seq<char>>,
    pub segment_lists: Seq<(u32, Seq<SegmentModel>)>,
    pub is_best: bool,
}

pub open spec fn opt_string_view(o: Option<String>) -> Option<Seq<char>> {
    match o {
        Some(s) => Some(s@),
        None => None,
    }
}

pub open spec fn candidate_model(c: CandidatePath) -> CandidatePathModel {
    CandidatePathModel {
        preference: c.preference,
        name: opt_string_view(c.name),
        segment_lists: segment_lists_model(c.segment_lists@),
        is_best: c.is_best,
    }
}

pub open spec fn candidates_model(v: Seq<CandidatePath>) -> Seq<CandidatePathModel> {
    v.map_values(|c: CandidatePath| candidate_model(c))
}

/// Candidate paths of `s` appended to `acc`, none marked best: each
/// Preference sub-TLV (type 128, at least 8 bytes) gives one, with the
/// preference in bytes 4..8 and segment lists after byte 8.
pub open spec fn spec_candidates_from(s: Seq<u8>, acc: Seq<CandidatePathModel>) -> Seq<CandidatePathModel>
    decreases s.len(),
{
    if s.len() < 3 {
        acc
    } else {
        let l = be16_at(s, 1);
        if 3 + l > s.len() {
            acc
        } else {
            let d = s.subrange(3, 3 + l);
            let next = if s[0] == 128 && l >= 8 {
                acc.push(
                    CandidatePathModel {
                        preference: be32_at(d, 4) as u32,
                        name: spec_path_name(d),
                        segment_lists: if d.len() > 8 {
                            spec_segment_lists_from(d.skip(8), Seq::empty())
                        } else {
                            Seq::empty()
                        },
                        is_best: false,
                    },
                )
            } else {
                acc
            };
            spec_candidates_from(s.skip(3 + l), next)
        }
    }
}

/// `k` is the last index holding the highest preference of `ps`.
pub open spec fn is_last_best(ps: Seq<CandidatePathModel>, k: int) -> bool {
    &&& 0 <= k < ps.len()
    &&& forall|j: int| 0 <= j < ps.len() ==> #[trigger] ps[j].preference <= ps[k].preference
    &&& forall|j: int| k < j < ps.len() ==> #[trigger] ps[j].preference < ps[k].preference
}

/// `ps` with the last path of highest preference marked best.
pub open spec fn mark_best(ps: Seq<CandidatePathModel>) -> Seq<CandidatePathModel> {
    if ps.len() == 0 {
        ps
    } else {
        let k = choose|k: int| is_last_best(ps, k);
        ps.update(k, CandidatePathModel { is_best: true, ..ps[k] })
    }
}

/// Decodes the candidate paths of an SR Policy tunnel TLV value and marks
/// the last one of highest preference as best.
pub fn parse_srpolicy_candidate_paths(buf: &[u8]) -> (r: Result<Vec<CandidatePath>, Error>)
    ensures
        r matches Ok(v) && candidates_model(v@) == mark_best(
            spec_candidates_from(buf@, Seq::empty()),
        ),
{
    let mut paths: Vec<CandidatePath> = Vec::new();
    let mut pos: usize = 0;
    proof {
        assert(buf@.skip(0) =~= buf@);
        assert(candidates_model(paths@) =~= Seq::<CandidatePathModel>::empty());
    }
    loop
        invariant_except_break
            pos <= buf.len(),
            spec_candidates_from(buf@, Seq::empty()) == spec_candidates_from(
                buf@.skip(pos as int),
                candidates_model(paths@),
            ),
        ensures
            candidates_model(paths@) == spec_candidates_from(buf@, Seq::empty()),
        decreases buf.len() - pos,
    {
        let ghost rest = buf@.skip(pos as int);
        if buf.len() - pos < 3 {
            break;
        }
        let sub_type = buf[pos];
        let sub_len = read_u16(buf, pos + 1) as usize;
        proof {
            assert(be16_at(rest, 1) == be16_at(buf@, pos + 1));
        }
        if sub_len > buf.len() - pos - 3 {
            break;
        }
        if sub_type == 128 && sub_len >= 8 {
            let data = copy_range(buf, pos + 3, sub_len);
            let preference = read_u32(data.as_slice(), 4);
            let segment_lists = if sub_len > 8 {
                let tail = copy_range(data.as_slice(), 8, sub_len - 8);
                assert(tail@ =~= data@.skip(8));
                parse_segment_lists(tail.as_slice())
            } else {
                let v: Vec<SegmentList> = Vec::new();
                assert(segment_lists_model(v@) =~= Seq::<(u32, Seq<SegmentModel>)>::empty());
                v
            };
            let name = extract_path_name(data.as_slice());
            let ghost before = paths@;
            let item = CandidatePath { preference, name, segment_lists, is_best: false };
            paths.push(item);
            proof {
                let d = rest.subrange(3, 3 + sub_len);
                assert(data@ =~= d);
                assert(candidates_model(paths@) =~= candidates_model(before).push(candidate_model(item)));
            }
        }
        proof {
            assert(rest.skip(3 + sub_len) =~= buf@.skip(pos + 3 + sub_len));
        }
        pos = pos + 3 + sub_len;
    }
    let ghost base = candidates_model(paths@);
    if paths.len() > 0 {
        let mut best: usize = 0;
        let mut i: usize = 1;
        while i < paths.len()
            invariant
                1 <= i <= paths.len(),
                best < i,
                base == candidates_model(paths@),
                forall|j: int| 0 <= j < i ==> #[trigger] base[j].preference <= base[best as int].preference,
                forall|j: int| best < j < i ==> #[trigger] base[j].preference < base[best as int].preference,
            decreases paths.len() - i,
        {
            if paths[i].preference >= paths[best].preference {
                best = i;
            }
            i = i + 1;
        }
        proof {
            assert(is_last_best(base, best as int));
            let k = choose|k: int| is_last_best(base, k);
            assert(k == best) by {
                if k < best {
                    assert(base[best as int].preference < base[k].preference);
                } else if k > best {
                    assert(base[k].preference < base[best as int].preference);
                }
            }
        }
        let mut p = paths.remove(best);
        p.is_best = true;
        paths.insert(best, p);
        proof {
            assert(candidates_model(paths@) =~= mark_best(base));
        }
    }
    Ok(paths)
}

} // verus!
