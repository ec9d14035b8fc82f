//! Path attribute decoding (RFC 4271 and extensions).

use vstd::prelude::*;
use vstd::string::StringExecFns;
use crate::error::{Error, ErrorModel, eof, res_view};
use crate::text::{dec, push_dec};
use crate::wire::{be16_at, be32_at, read_u16, read_u32};
use crate::bgp::types::{AsPath, AsPathSegment, SegmentModel, tunnel_type_name, tunnel_type_text};
use crate::net::{IpAddress, IpModel};
use crate::wire::{TlvRef, spec_tlvs, split_tlvs, tlv_refs_match, read_array4, read_array16, copy_range};

verus! {

/// The `count` ASNs of `asn_size` bytes each at the start of `s`.
pub open spec fn spec_asns(s: Seq<u8>, count: nat, asn_size: nat) -> Seq<u32> {
    Seq::new(
        count,
        |i: int|
            if asn_size == 4 {
                be32_at(s, 4 * i) as u32
            } else {
                be16_at(s, 2 * i) as u32
            },
    )
}

/// Segment model of a wire segment type, or None for an unknown type.
pub open spec fn spec_segment(seg_type: u8, asns: Seq<u32>) -> Option<SegmentModel> {
    if seg_type == 1 {
        Some(SegmentModel::AsSet(asns))
    } else if seg_type == 2 {
        Some(SegmentModel::Sequence(asns))
    } else if seg_type == 3 {
        Some(SegmentModel::ConfedSequence(asns))
    } else if seg_type == 4 {
        Some(SegmentModel::ConfedSet(asns))
    } else {
        None
    }
}

/// AS_PATH segments encoded in `s` with ASNs of `asn_size` bytes: segments of
/// type(1) + count(1) + ASNs, until fewer than two bytes remain.
pub open spec fn spec_as_path(s: Seq<u8>, asn_size: nat) -> Result<Seq<SegmentModel>, ErrorModel>
    decreases s.len(),
{
    if s.len() < 2 {
        Ok(Seq::empty())
    } else {
        let rest = s.skip(2);
        let needed = s[1] * asn_size;
        if rest.len() < needed {
            Err(eof(needed, rest.len() as int))
        } else {
            match spec_segment(s[0], spec_asns(rest, s[1] as nat, asn_size)) {
                None => Err(
                    ErrorModel::BgpParse("unknown AS_PATH segment type "@ + dec(s[0] as nat)),
                ),
                Some(seg) => match spec_as_path(rest.skip(needed), asn_size) {
                    Ok(tail) => Ok(seq![seg] + tail),
                    Err(e) => Err(e),
                },
            }
        }
    }
}

/// Decodes AS_PATH segments with ASNs of `asn_size` bytes (2 or 4).
pub fn parse_as_path_with_asn_size(buf: &[u8], asn_size: usize) -> (r: Result<AsPath, Error>)
    requires
        asn_size == 2 || asn_size == 4,
    ensures
        res_view(r) == spec_as_path(buf@, asn_size as nat),
{
    let mut segments: Vec<AsPathSegment> = Vec::new();
    let mut pos: usize = 0;
    let ghost models: Seq<SegmentModel> = Seq::empty();
    proof {
        assert(buf@.skip(0) =~= buf@);
    }
    while buf.len() - pos >= 2
        invariant
            asn_size == 2 || asn_size == 4,
            pos <= buf@.len(),
            segments@.map_values(|s: AsPathSegment| s@) == models,
            spec_as_path(buf@, asn_size as nat) == match spec_as_path(buf@.skip(pos as int), asn_size as nat) {
                Ok(tail) => Ok(models + tail),
                Err(e) => Err(e),
            },
        decreases buf@.len() - pos,
    {
        let ghost s = buf@.skip(pos as int);
        let seg_type = buf[pos];
        let seg_len = buf[pos + 1] as usize;
        pos = pos + 2;
        assert(s.skip(2) =~= buf@.skip(pos as int));
        let needed = seg_len * asn_size;
        if buf.len() - pos < needed {
            return Err(Error::UnexpectedEof { needed, have: buf.len() - pos });
        }
        let mut asns: Vec<u32> = Vec::new();
        let mut i: usize = 0;
        while i < seg_len
            invariant
                asn_size == 2 || asn_size == 4,
                i <= seg_len,
                pos + seg_len * asn_size <= buf.len(),
                asns@ == spec_asns(buf@.skip(pos as int), seg_len as nat, asn_size as nat).subrange(
                    0,
                    i as int,
                ),
            decreases seg_len - i,
        {
            proof {
                lemma_mul_step(asn_size as int, i as int, seg_len as int);
            }
            let off = pos + asn_size * i;
            let asn = if asn_size == 4 {
                read_u32(buf, off)
            } else {
                read_u16(buf, off) as u32
            };
            asns.push(asn);
            i = i + 1;
            assert(asns@ =~= spec_asns(buf@.skip((pos) as int), seg_len as nat, asn_size as nat).subrange(0, i as int));
        }
        let ghost asn_model = spec_asns(buf@.skip(pos as int), seg_len as nat, asn_size as nat);
        assert(asns@ =~= asn_model);
        let seg = match seg_type {
            1 => AsPathSegment::AsSet(asns),
            2 => AsPathSegment::Sequence(asns),
            3 => AsPathSegment::ConfedSequence(asns),
            4 => AsPathSegment::ConfedSet(asns),
            _ => {
                let mut m = String::from_str("unknown AS_PATH segment type ");
                push_dec(&mut m, seg_type as u64);
                return Err(Error::BgpParse(m));
            },
        };
        assert(spec_segment(seg_type, asn_model) == Some(seg@));
        pos = pos + needed;
        assert(buf@.skip((pos - needed) as int).skip(needed as int) =~= buf@.skip(pos as int));
        segments.push(seg);
        proof {
            let old_models = models;
            models = models.push(seg@);
            assert(segments@.map_values(|s: AsPathSegment| s@) =~= models);
            match spec_as_path(buf@.skip(pos as int), asn_size as nat) {
                Ok(tail) => {
                    assert(old_models + (seq![seg@] + tail) =~= models + tail);
                },
                Err(e) => {},
            }
        }
    }
    assert(spec_as_path(buf@.skip(pos as int), asn_size as nat) == Ok::<Seq<SegmentModel>, ErrorModel>(Seq::empty()));
    assert(models + Seq::<SegmentModel>::empty() =~= models);
    Ok(AsPath(segments))
}

/// `a * i + a <= a * n` and `a * n == n * a` when `i < n` and `a >= 0`.
pub proof fn lemma_mul_step(a: int, i: int, n: int)
    requires
        0 <= i < n,
        0 <= a,
    ensures
        a * i + a <= a * n,
        a * n == n * a,
        0 <= a * i,
{
    assert(a * i + a <= a * n) by (nonlinear_arith)
        requires
            0 <= i < n,
            0 <= a,
    ;
    assert(a * n == n * a) by (nonlinear_arith);
    assert(0 <= a * i) by (nonlinear_arith)
        requires
            0 <= i,
            0 <= a,
    ;
}

/// AS_PATH decoding: AS4_PATH always uses 4-byte ASNs; AS_PATH is tried
/// with 2-byte ASNs first and, when that fails, with 4-byte ASNs, keeping
/// the 2-byte error if both fail.
pub open spec fn spec_parse_as_path(s: Seq<u8>, four_byte: bool) -> Result<Seq<SegmentModel>, ErrorModel> {
    if four_byte {
        spec_as_path(s, 4)
    } else {
        match spec_as_path(s, 2) {
            Ok(p) => Ok(p),
            Err(e2) => match spec_as_path(s, 4) {
                Ok(p) => Ok(p),
                Err(_) => Err(e2),
            },
        }
    }
}

/// Decodes an AS_PATH (`four_byte` false) or AS4_PATH (`four_byte` true).
/// Some speakers send 4-byte ASNs in AS_PATH once the 4-byte ASN capability
/// is negotiated, so a failed 2-byte decode falls back to 4-byte ASNs.
pub fn parse_as_path(buf: &[u8], four_byte: bool) -> (r: Result<AsPath, Error>)
    ensures
        res_view(r) == spec_parse_as_path(buf@, four_byte),
{
    if four_byte {
        return parse_as_path_with_asn_size(buf, 4);
    }
    match parse_as_path_with_asn_size(buf, 2) {
        Ok(path) => Ok(path),
        Err(original_err) => match parse_as_path_with_asn_size(buf, 4) {
            Ok(path) => Ok(path),
            Err(_) => Err(original_err),
        },
    }
}

// ─── Tunnel Encapsulation (type 23, RFC 9012) ────────────────────────────────

/// One tunnel of a Tunnel Encapsulation attribute.
#[derive(Clone, Debug)]
pub struct TunnelEncapEntry {
    pub tunnel_type: u16,
    pub tunnel_type_name: String,
    pub endpoint: Option<IpAddress>,
    pub color: Option<u32>,
}

pub struct TunnelModel {
    pub tunnel_type: u16,
    pub tunnel_type_name: Seq<char>,
    pub endpoint: Option<IpModel>,
    pub color: Option<u32>,
}

impl View for TunnelEncapEntry {
    type V = TunnelModel;

    open spec fn view(&self) -> TunnelModel {
        TunnelModel {
            tunnel_type: self.tunnel_type,
            tunnel_type_name: self.tunnel_type_name@,
            endpoint: match self.endpoint {
                Some(a) => Some(a@),
                None => None,
            },
            color: self.color,
        }
    }
}

/// Endpoint and color after one more sub-TLV: an endpoint (type 1) of 4 or
/// 16 bytes, a color (type 9) from bytes 2..6 when at least 6 bytes long.
pub open spec fn tunnel_sub_step(acc: (Option<IpModel>, Option<u32>), t: u16, d: Seq<u8>) -> (
    Option<IpModel>,
    Option<u32>,
) {
    if t == 1 && d.len() == 4 {
        (Some(IpModel::V4(d)), acc.1)
    } else if t == 1 && d.len() == 16 {
        (Some(IpModel::V6(d)), acc.1)
    } else if t == 9 && d.len() >= 6 {
        (acc.0, Some(be32_at(d, 2) as u32))
    } else {
        acc
    }
}

pub open spec fn tunnel_sub_fold(items: Seq<(u16, Seq<u8>)>) -> (Option<IpModel>, Option<u32>)
    decreases items.len(),
{
    if items.len() == 0 {
        (None, None)
    } else {
        tunnel_sub_step(tunnel_sub_fold(items.drop_last()), items.last().0, items.last().1)
    }
}

/// The tunnel of type `t` whose value (sub-TLVs of type(1) + length(1)) is `v`.
pub open spec fn spec_tunnel(t: u16, v: Seq<u8>) -> TunnelModel {
    let (ep, color) = tunnel_sub_fold(spec_tlvs(v, 1, 1));
    TunnelModel { tunnel_type: t, tunnel_type_name: tunnel_type_text(t), endpoint: ep, color }
}

/// Tunnels of a Tunnel Encapsulation attribute: TLVs of type(2) + length(2),
/// read until one runs past the end.
pub open spec fn spec_tunnel_encap(s: Seq<u8>) -> Seq<TunnelModel> {
    spec_tlvs(s, 2, 2).map_values(|p: (u16, Seq<u8>)| spec_tunnel(p.0, p.1))
}

fn parse_tunnel_subtlvs(buf: &[u8], start: usize, end: usize) -> (r: (Option<IpAddress>, Option<u32>))
    requires
        start <= end <= buf.len(),
    ensures
        ((match r.0 {
            Some(a) => Some(a@),
            None => None::<IpModel>,
        }), r.1) == tunnel_sub_fold(spec_tlvs(buf@.subrange(start as int, end as int), 1, 1)),
{
    let items = split_tlvs(buf, start, end, 1, 1);
    let ghost spec_items = spec_tlvs(buf@.subrange(start as int, end as int), 1, 1);
    let mut endpoint: Option<IpAddress> = None;
    let mut color: Option<u32> = None;
    let mut i: usize = 0;
    while i < items.len()
        invariant
            i <= items@.len(),
            tlv_refs_match(buf@, items@, spec_items),
            ((match endpoint {
                Some(a) => Some(a@),
                None => None::<IpModel>,
            }), color) == tunnel_sub_fold(spec_items.subrange(0, i as int)),
        decreases items@.len() - i,
    {
        let it = items[i];
        let ghost d = spec_items[i as int].1;
        assert(items@[i as int].t == spec_items[i as int].0);
        assert(it.off + it.len <= buf.len());
        assert(buf@.subrange(it.off as int, it.off + it.len) == d);
        if it.t == 1 && it.len == 4 {
            endpoint = Some(IpAddress::V4(read_array4(buf, it.off)));
        } else if it.t == 1 && it.len == 16 {
            endpoint = Some(IpAddress::V6(read_array16(buf, it.off)));
        } else if it.t == 9 && it.len >= 6 {
            color = Some(read_u32(buf, it.off + 2));
        }
        proof {
            assert(spec_items.subrange(0, i + 1).drop_last() =~= spec_items.subrange(0, i as int));
        }
        i = i + 1;
    }
    assert(spec_items.subrange(0, spec_items.len() as int) =~= spec_items);
    (endpoint, color)
}

pub open spec fn tunnels_view(v: Seq<TunnelEncapEntry>) -> Seq<TunnelModel> {
    v.map_values(|e: TunnelEncapEntry| e@)
}

/// Decodes a Tunnel Encapsulation attribute.
pub fn parse_tunnel_encap(buf: &[u8]) -> (r: Vec<TunnelEncapEntry>)
    ensures
        tunnels_view(r@) == spec_tunnel_encap(buf@),
{
    let items = split_tlvs(buf, 0, buf.len(), 2, 2);
    let ghost spec_items = spec_tlvs(buf@.subrange(0, buf@.len() as int), 2, 2);
    assert(buf@.subrange(0, buf@.len() as int) =~= buf@);
    let mut entries: Vec<TunnelEncapEntry> = Vec::new();
    let mut i: usize = 0;
    while i < items.len()
        invariant
            i <= items@.len(),
            tlv_refs_match(buf@, items@, spec_items),
            spec_items == spec_tlvs(buf@, 2, 2),
            tunnels_view(entries@) == spec_tunnel_encap(buf@).subrange(0, i as int),
        decreases items@.len() - i,
    {
        let it = items[i];
        assert(items@[i as int].t == spec_items[i as int].0);
        assert(it.off + it.len <= buf.len());
        assert(buf@.subrange(it.off as int, it.off + it.len) == spec_items[i as int].1);
        let (endpoint, color) = parse_tunnel_subtlvs(buf, it.off, it.off + it.len);
        let mut name = String::new();
        name.append(tunnel_type_name(it.t));
        let e = TunnelEncapEntry { tunnel_type: it.t, tunnel_type_name: name, endpoint, color };
        let ghost before = tunnels_view(entries@);
        entries.push(e);
        proof {
            assert(e@ == spec_tunnel(it.t, spec_items[i as int].1));
            assert(tunnels_view(entries@) =~= before.push(e@));
            assert(tunnels_view(entries@) =~= spec_tunnel_encap(buf@).subrange(0, i + 1));
        }
        i = i + 1;
    }
    assert(tunnels_view(entries@) =~= spec_tunnel_encap(buf@));
    entries
}

// ─── BGPsec_Path (type 30, RFC 8205) ─────────────────────────────────────────

/// A BGPsec_Path attribute: the signing ASNs of its Secure_Path, the number
/// of signature blocks, and the raw bytes.
#[derive(Clone, Debug)]
pub struct BgpsecPath {
    pub signing_asns: Vec<u32>,
    pub sig_block_count: u8,
    pub raw: Vec<u8>,
}

pub struct BgpsecModel {
    pub signing_asns: Seq<u32>,
    pub sig_block_count: u8,
    pub raw: Seq<u8>,
}

impl View for BgpsecPath {
    type V = BgpsecModel;

    open spec fn view(&self) -> BgpsecModel {
        BgpsecModel { signing_asns: self.signing_asns@, sig_block_count: self.sig_block_count, raw: self.raw@ }
    }
}

/// Number of signature blocks in `r`: each starts with a 2-byte length
/// that counts the bytes after it; counting stops when fewer than 3 bytes
/// remain.
pub open spec fn sig_blocks(r: Seq<u8>) -> nat
    decreases r.len(),
{
    if r.len() < 3 {
        0
    } else {
        let bl = be16_at(r, 0);
        1 + if 2 + bl <= r.len() {
            sig_blocks(r.skip(2 + bl))
        } else {
            0
        }
    }
}

/// Length of the Secure_Path, or None when absent or truncated.
pub open spec fn secure_path_len(s: Seq<u8>) -> Option<int> {
    if s.len() < 2 || s.len() < 2 + be16_at(s, 0) {
        None
    } else {
        Some(be16_at(s, 0))
    }
}

/// Signing ASNs: the ASN (bytes 2..6) of each 6-byte Secure_Path segment.
pub open spec fn spec_signing_asns(s: Seq<u8>) -> Seq<u32> {
    match secure_path_len(s) {
        None => Seq::empty(),
        Some(spl) => Seq::new((spl / 6) as nat, |k: int| be32_at(s, 2 + 6 * k + 2) as u32),
    }
}

/// Number of signature blocks after the Secure_Path.
pub open spec fn spec_sig_block_count(s: Seq<u8>) -> nat {
    match secure_path_len(s) {
        None => 0,
        Some(spl) => sig_blocks(s.skip(2 + spl)),
    }
}

/// Whether `parse_bgpsec_path` may be given `buf`: it holds at most 255
/// signature blocks.
pub fn bgpsec_path_decodable(buf: &[u8]) -> (r: bool)
    ensures
        r == (spec_sig_block_count(buf@) <= 255),
{
    if buf.len() < 2 {
        return true;
    }
    let spl = read_u16(buf, 0) as usize;
    if buf.len() - 2 < spl {
        return true;
    }
    let mut n: usize = 0;
    let mut pos: usize = 2 + spl;
    proof {
        assert(buf@.skip(pos as int) == buf@.skip(2 + spl));
    }
    loop
        invariant_except_break
            2 + spl <= pos <= buf.len(),
            n <= pos,
            n + sig_blocks(buf@.skip(pos as int)) == spec_sig_block_count(buf@),
        invariant
            secure_path_len(buf@) == Some(spl as int),
        ensures
            n == spec_sig_block_count(buf@),
        decreases buf.len() - pos,
    {
        let ghost r = buf@.skip(pos as int);
        if buf.len() - pos < 3 {
            break;
        }
        let bl = read_u16(buf, pos) as usize;
        assert(be16_at(r, 0) == be16_at(buf@, pos as int));
        n = n + 1;
        if bl <= buf.len() - pos - 2 {
            assert(r.skip(2 + bl) =~= buf@.skip(pos + 2 + bl));
            pos = pos + 2 + bl;
        } else {
            break;
        }
    }
    n <= 255
}

/// Decodes a BGPsec_Path attribute. The count of signature blocks is a
/// byte, so `buf` may hold at most 255 of them.
pub fn parse_bgpsec_path(buf: &[u8]) -> (r: BgpsecPath)
    requires
        spec_sig_block_count(buf@) <= 255,
    ensures
        r.signing_asns@ == spec_signing_asns(buf@),
        r.sig_block_count == spec_sig_block_count(buf@),
        r.raw@ == buf@,
{
    let raw = copy_range(buf, 0, buf.len());
    assert(raw@ =~= buf@);
    let mut signing_asns: Vec<u32> = Vec::new();
    if buf.len() < 2 {
        return BgpsecPath { signing_asns, sig_block_count: 0, raw };
    }
    let spl = read_u16(buf, 0) as usize;
    if buf.len() - 2 < spl {
        return BgpsecPath { signing_asns, sig_block_count: 0, raw };
    }
    let count: usize = spl / 6;
    let mut k: usize = 0;
    while k < count
        invariant
            k <= count,
            count == spl / 6,
            spl + 2 <= buf.len(),
            secure_path_len(buf@) == Some(spl as int),
            signing_asns@ == spec_signing_asns(buf@).subrange(0, k as int),
        decreases count - k,
    {
        signing_asns.push(read_u32(buf, 2 + 6 * k + 2));
        k = k + 1;
        assert(signing_asns@ =~= spec_signing_asns(buf@).subrange(0, k as int));
    }
    assert(signing_asns@ =~= spec_signing_asns(buf@));
    let mut n: u8 = 0;
    let mut pos: usize = 2 + spl;
    proof {
        assert(buf@.skip(pos as int) == buf@.skip(2 + spl));
    }
    loop
        invariant_except_break
            2 + spl <= pos <= buf.len(),
            n + sig_blocks(buf@.skip(pos as int)) == spec_sig_block_count(buf@),
        invariant
            secure_path_len(buf@) == Some(spl as int),
            spec_sig_block_count(buf@) <= 255,
        ensures
            n == spec_sig_block_count(buf@),
        decreases buf.len() - pos,
    {
        let ghost r = buf@.skip(pos as int);
        if buf.len() - pos < 3 {
            break;
        }
        let bl = read_u16(buf, pos) as usize;
        assert(be16_at(r, 0) == be16_at(buf@, pos as int));
        n = n + 1;
        if bl <= buf.len() - pos - 2 {
            assert(r.skip(2 + bl) =~= buf@.skip(pos + 2 + bl));
            pos = pos + 2 + bl;
        } else {
            break;
        }
    }
    BgpsecPath { signing_asns, sig_block_count: n, raw }
}

} // verus!
