//! BGP Prefix-SID attribute decoding (RFC 8669, RFC 9252).

use vstd::prelude::*;
use crate::error::Error;
use crate::wire::{TlvRef, be16_at, be24_at, copy_range, read_array16, read_u16, read_u24, read_u32,
    spec_tlvs, split_tlvs, tlv_refs_match, be32_at};
use crate::bgp::types::{PrefixSid, PrefixSidModel, Srv6L3Service, Srv6SubSubTlv, sid_info_view};

verus! {

/// SID information entries among SRv6 service sub-TLVs: type 1 values of at
/// least 19 bytes give SID(16) + flags(1) + behavior(2).
pub open spec fn spec_sid_infos(items: Seq<(u16, Seq<u8>)>) -> Seq<(Seq<u8>, u8, u16)>
    decreases items.len(),
{
    if items.len() == 0 {
        Seq::empty()
    } else {
        let (t, d) = items[0];
        (if t == 1 && d.len() >= 19 {
            seq![(d.subrange(0, 16), d[16], be16_at(d, 17) as u16)]
        } else {
            Seq::empty()
        }) + spec_sid_infos(items.drop_first())
    }
}

/// SRv6 L3 Service TLV value: a reserved byte, then sub-TLVs with a 1-byte
/// type and a 2-byte length.
pub open spec fn spec_srv6_l3(d: Seq<u8>) -> Seq<(Seq<u8>, u8, u16)> {
    if d.len() < 1 {
        Seq::empty()
    } else {
        spec_sid_infos(spec_tlvs(d.skip(1), 1, 2))
    }
}

/// Decodes the SRv6 L3 Service TLV value; never fails.
pub fn parse_srv6_l3_service(buf: &[u8]) -> (r: Result<Srv6L3Service, Error>)
    ensures
        r matches Ok(s) && s@ == spec_srv6_l3(buf@),
{
    let mut out: Vec<Srv6SubSubTlv> = Vec::new();
    if buf.len() < 1 {
        let s = Srv6L3Service { sub_sub_tlvs: out };
        assert(s@ =~= spec_srv6_l3(buf@));
        return Ok(s);
    }
    let items = split_tlvs(buf, 1, buf.len(), 1, 2);
    let ghost spec_items = spec_tlvs(buf@.subrange(1, buf@.len() as int), 1, 2);
    assert(buf@.subrange(1, buf@.len() as int) =~= buf@.skip(1));
    let mut i: usize = 0;
    assert(spec_items.subrange(0, spec_items.len() as int) =~= spec_items);
    assert(out@.map_values(|t: Srv6SubSubTlv| sid_info_view(t)) + spec_sid_infos(spec_items)
        =~= spec_sid_infos(spec_items));
    while i < items.len()
        invariant
            i <= items@.len(),
            tlv_refs_match(buf@, items@, spec_items),
            spec_infos_split(spec_items, i as int, out@.map_values(|t: Srv6SubSubTlv| sid_info_view(t))),
        decreases items@.len() - i,
    {
        let it = items[i];
        let ghost d = spec_items[i as int].1;
        assert(items@[i as int].t == spec_items[i as int].0);
        assert(it.off + it.len <= buf@.len());
        assert(it.off + it.len <= buf.len());
        assert(buf@.subrange(it.off as int, it.off + it.len) == d);
        let ghost before = out@.map_values(|t: Srv6SubSubTlv| sid_info_view(t));
        if it.t == 1 && it.len >= 19 {
            let sid = read_array16(buf, it.off);
            let e = Srv6SubSubTlv {
                sid,
                sid_flags: buf[it.off + 16],
                endpoint_behavior: read_u16(buf, it.off + 17),
            };
            assert(sid@ =~= d.subrange(0, 16));
            assert(d[16] == buf@[it.off + 16]);
            assert(d[17] == buf@[it.off + 17] && d[18] == buf@[it.off + 18]);
            out.push(e);
            assert(out@.map_values(|t: Srv6SubSubTlv| sid_info_view(t)) =~= before.push(sid_info_view(e)));
            proof {
                lemma_sid_infos_step(spec_items, i as int);
                assert(before.push(sid_info_view(e)) + spec_sid_infos(spec_items.subrange(i + 1, spec_items.len() as int))
                    =~= before + (seq![sid_info_view(e)] + spec_sid_infos(spec_items.subrange(i + 1, spec_items.len() as int))));
            }
        } else {
            proof {
                lemma_sid_infos_step(spec_items, i as int);
                assert(before + (Seq::<(Seq<u8>, u8, u16)>::empty() + spec_sid_infos(spec_items.subrange(i + 1, spec_items.len() as int)))
                    =~= before + spec_sid_infos(spec_items.subrange(i + 1, spec_items.len() as int)));
            }
        }
        i = i + 1;
    }
    proof {
        assert(spec_items.subrange(spec_items.len() as int, spec_items.len() as int) =~= Seq::<(u16, Seq<u8>)>::empty());
        assert(out@.map_values(|t: Srv6SubSubTlv| sid_info_view(t)) + Seq::<(Seq<u8>, u8, u16)>::empty()
            =~= out@.map_values(|t: Srv6SubSubTlv| sid_info_view(t)));
    }
    let s = Srv6L3Service { sub_sub_tlvs: out };
    assert(s@ =~= spec_srv6_l3(buf@));
    Ok(s)
}

/// `acc` is the SID information of the first `k` items.
pub open spec fn spec_infos_split(items: Seq<(u16, Seq<u8>)>, k: int, acc: Seq<(Seq<u8>, u8, u16)>) -> bool {
    0 <= k <= items.len() && spec_sid_infos(items) == acc + spec_sid_infos(items.subrange(k, items.len() as int))
}

/// Advancing the split point by one item.
proof fn lemma_sid_infos_step(items: Seq<(u16, Seq<u8>)>, k: int)
    requires
        0 <= k < items.len(),
    ensures
        spec_sid_infos(items.subrange(k, items.len() as int)) == (if items[k].0 == 1
            && items[k].1.len() >= 19 {
            seq![(items[k].1.subrange(0, 16), items[k].1[16], be16_at(items[k].1, 17) as u16)]
        } else {
            Seq::empty()
        }) + spec_sid_infos(items.subrange(k + 1, items.len() as int)),
{
    assert(items.subrange(k, items.len() as int).drop_first() =~= items.subrange(k + 1, items.len() as int));
}

} // verus!

verus! {

/// Originator SRGB entries: 3-byte base and 3-byte range pairs from offset 2.
pub open spec fn spec_srgbs(d: Seq<u8>) -> Seq<(u32, u32)> {
    Seq::new(
        ((d.len() - 2) / 6) as nat,
        |k: int| (be24_at(d, 2 + 6 * k) as u32, be24_at(d, 2 + 6 * k + 3) as u32),
    )
}

/// Prefix-SID state after one more TLV.
pub open spec fn psid_step(acc: PrefixSidModel, t: u16, d: Seq<u8>) -> PrefixSidModel {
    if t == 1 {
        if d.len() >= 6 {
            PrefixSidModel { label_index: Some(be32_at(d, 2) as u32), ..acc }
        } else {
            acc
        }
    } else if t == 3 {
        if d.len() >= 2 {
            PrefixSidModel { originator_srgb: Some((be16_at(d, 0) as u16, spec_srgbs(d))), ..acc }
        } else {
            acc
        }
    } else if t == 5 {
        PrefixSidModel { srv6_l3_service: Some(spec_srv6_l3(d)), ..acc }
    } else {
        PrefixSidModel { raw_tlvs: acc.raw_tlvs.push((t as u8, d)), ..acc }
    }
}

/// Prefix-SID state after the TLVs `items` (later TLVs of a known type
/// replace earlier ones).
pub open spec fn psid_fold(items: Seq<(u16, Seq<u8>)>) -> PrefixSidModel
    decreases items.len(),
{
    if items.len() == 0 {
        PrefixSidModel {
            label_index: None,
            originator_srgb: None,
            srv6_l3_service: None,
            raw_tlvs: Seq::empty(),
        }
    } else {
        psid_step(psid_fold(items.drop_last()), items.last().0, items.last().1)
    }
}

/// The Prefix-SID attribute encoded in `s`: TLVs of type(1) + length(2).
pub open spec fn spec_prefix_sid(s: Seq<u8>) -> PrefixSidModel {
    psid_fold(spec_tlvs(s, 1, 2))
}

/// Decodes SRGB entries of an Originator SRGB TLV value.
fn parse_srgbs(buf: &[u8], off: usize, len: usize) -> (r: Vec<(u32, u32)>)
    requires
        off + len <= buf.len(),
        len >= 2,
    ensures
        r@ == spec_srgbs(buf@.subrange(off as int, off + len)),
{
    let ghost d = buf@.subrange(off as int, off + len);
    let count = (len - 2) / 6;
    let mut out: Vec<(u32, u32)> = Vec::new();
    let mut k: usize = 0;
    while k < count
        invariant
            off + len <= buf.len(),
            len >= 2,
            count == (len - 2) / 6,
            k <= count,
            d == buf@.subrange(off as int, off + len),
            out@ == spec_srgbs(d).subrange(0, k as int),
        decreases count - k,
    {
        let p = off + 2 + 6 * k;
        let base = read_u24(buf, p);
        let range = read_u24(buf, p + 3);
        out.push((base, range));
        k = k + 1;
        assert(out@ =~= spec_srgbs(d).subrange(0, k as int));
    }
    assert(out@ =~= spec_srgbs(d));
    out
}

/// Decodes a BGP Prefix-SID attribute (RFC 8669, type 40); never fails.
pub fn parse_prefix_sid(buf: &[u8]) -> (r: Result<PrefixSid, Error>)
    ensures
        r matches Ok(p) && p@ == spec_prefix_sid(buf@),
{
    let items = split_tlvs(buf, 0, buf.len(), 1, 2);
    let ghost spec_items = spec_tlvs(buf@.subrange(0, buf@.len() as int), 1, 2);
    assert(buf@.subrange(0, buf@.len() as int) =~= buf@);
    let mut out = PrefixSid {
        label_index: None,
        originator_srgb: None,
        srv6_l3_service: None,
        raw_tlvs: Vec::new(),
    };
    assert(out@ == psid_fold(spec_items.subrange(0, 0))) by {
        assert(out@.raw_tlvs =~= Seq::<(u8, Seq<u8>)>::empty());
    }
    let mut i: usize = 0;
    while i < items.len()
        invariant
            i <= items@.len(),
            tlv_refs_match(buf@, items@, spec_items),
            out@ == psid_fold(spec_items.subrange(0, i as int)),
        decreases items@.len() - i,
    {
        let it = items[i];
        let ghost d = spec_items[i as int].1;
        assert(items@[i as int].t == spec_items[i as int].0);
        assert(it.off + it.len <= buf@.len());
        assert(it.off + it.len <= buf.len());
        assert(buf@.subrange(it.off as int, it.off + it.len) == d);
        let ghost prev = out@;
        if it.t == 1 {
            if it.len >= 6 {
                out.label_index = Some(read_u32(buf, it.off + 2));
            }
        } else if it.t == 3 {
            if it.len >= 2 {
                let flags = read_u16(buf, it.off);
                let srgbs = parse_srgbs(buf, it.off, it.len);
                out.originator_srgb = Some((flags, srgbs));
            }
        } else if it.t == 5 {
            let data = copy_range(buf, it.off, it.len);
            match parse_srv6_l3_service(data.as_slice()) {
                Ok(s) => {
                    out.srv6_l3_service = Some(s);
                },
                Err(e) => {
                    return Err(e);
                },
            }
        } else {
            let data = copy_range(buf, it.off, it.len);
            let ghost before = out.raw_tlvs@;
            out.raw_tlvs.push((it.t as u8, data));
            assert(out@.raw_tlvs =~= prev.raw_tlvs.push((it.t as u8, d)));
        }
        proof {
            assert(spec_items.subrange(0, i + 1).drop_last() =~= spec_items.subrange(0, i as int));
            assert(out@ == psid_step(prev, it.t, d));
        }
        i = i + 1;
    }
    assert(spec_items.subrange(0, spec_items.len() as int) =~= spec_items);
    Ok(out)
}

} // verus!
