//! Capability decoding from BGP OPEN optional parameters (RFC 5492).

use vstd::prelude::*;
use crate::error::{Error, ErrorModel, eof};
use crate::text::{lossy_string, utf8_lossy};
use crate::wire::{be16_at, be32_at, copy_range, read_u16, read_u32};
use crate::bgp::types::{
    Afi, AfiSafi, BgpCapability, CapabilityModel, Safi, afi_of, afi_safi_of, safi_of,
};

verus! {

/// Graceful-restart family entries: AFI(2) + SAFI(1) + flags(1) from offset 2,
/// the last entry's flags read as 0 when the data ends after its SAFI.
pub open spec fn spec_gr_entries(d: Seq<u8>) -> Seq<(AfiSafi, u8)> {
    Seq::new(
        ((d.len() - 1) / 4) as nat,
        |k: int|
            (
                afi_safi_of(be16_at(d, 2 + 4 * k) as u16, d[2 + 4 * k + 2]),
                if 2 + 4 * k + 3 < d.len() { d[2 + 4 * k + 3] } else { 0u8 },
            ),
    )
}

/// Add-Path entries: AFI(2) + SAFI(1) + mode(1), whole entries only.
pub open spec fn spec_add_path_entries(d: Seq<u8>) -> Seq<(AfiSafi, u8)> {
    Seq::new(
        d.len() / 4,
        |k: int| (afi_safi_of(be16_at(d, 4 * k) as u16, d[4 * k + 2]), d[4 * k + 3]),
    )
}

/// The bytes `d[lo..hi]`, or nothing when that range is outside `d`.
pub open spec fn get_or_empty(d: Seq<u8>, lo: int, hi: int) -> Seq<u8> {
    if hi <= d.len() { d.subrange(lo, hi) } else { Seq::empty() }
}

/// The capability with `code` and value bytes `d`.
pub open spec fn spec_capability(code: u8, d: Seq<u8>) -> CapabilityModel {
    if code == 1 && d.len() >= 4 {
        CapabilityModel::Multiprotocol(afi_safi_of(be16_at(d, 0) as u16, d[3]))
    } else if code == 2 {
        CapabilityModel::RouteRefresh
    } else if code == 5 && d.len() >= 6 {
        CapabilityModel::ExtendedNextHop {
            afi: afi_of(be16_at(d, 0) as u16),
            safi: safi_of(d[3]),
            next_hop_afi: afi_of(be16_at(d, 4) as u16),
        }
    } else if code == 6 {
        CapabilityModel::ExtendedMessage
    } else if code == 64 && d.len() >= 2 {
        CapabilityModel::GracefulRestart {
            restart_time: ((d[0] % 16) * 256 + d[1]) as u16,
            afi_safis: spec_gr_entries(d),
        }
    } else if code == 65 && d.len() >= 4 {
        CapabilityModel::FourByteAsn(be32_at(d, 0) as u32)
    } else if code == 69 {
        CapabilityModel::AddPath(spec_add_path_entries(d))
    } else if code == 70 {
        CapabilityModel::EnhancedRouteRefresh
    } else if code == 71 {
        CapabilityModel::LongLivedGracefulRestart { entries: d }
    } else if code == 73 && d.len() > 0 {
        let hl = d[0] as int;
        CapabilityModel::Fqdn {
            hostname: utf8_lossy(get_or_empty(d, 1, 1 + hl)),
            domain: if d.len() > 1 + hl {
                utf8_lossy(get_or_empty(d, 2 + hl, 2 + hl + d[1 + hl]))
            } else {
                Seq::empty()
            },
        }
    } else {
        CapabilityModel::Unknown { code, data: d }
    }
}

/// Bytes `lo..hi` of `d` as a vector, or an empty vector when out of range.
fn get_or_empty_vec(d: &[u8], lo: usize, hi: usize) -> (r: Vec<u8>)
    requires
        lo <= hi,
    ensures
        r@ == get_or_empty(d@, lo as int, hi as int),
{
    if hi <= d.len() {
        copy_range(d, lo, hi - lo)
    } else {
        Vec::new()
    }
}

/// Decodes one capability from its code and value bytes.
pub fn parse_one_capability(code: u8, data: &[u8]) -> (r: Result<BgpCapability, Error>)
    ensures
        r matches Ok(c) && c@ == spec_capability(code, data@),
{
    let n: usize = data.len();
    if code == 1 && n >= 4 {
        Ok(BgpCapability::Multiprotocol(AfiSafi::new(read_u16(data, 0), data[3])))
    } else if code == 2 {
        Ok(BgpCapability::RouteRefresh)
    } else if code == 5 && n >= 6 {
        Ok(BgpCapability::ExtendedNextHop {
            afi: Afi::from_u16(read_u16(data, 0)),
            safi: Safi::from_u8(data[3]),
            next_hop_afi: Afi::from_u16(read_u16(data, 4)),
        })
    } else if code == 6 {
        Ok(BgpCapability::ExtendedMessage)
    } else if code == 64 && n >= 2 {
        let restart_time: u16 = ((data[0] % 16) as u16) * 256 + (data[1] as u16);
        let mut afi_safis: Vec<(AfiSafi, u8)> = Vec::new();
        let count: usize = (n - 1) / 4;
        let mut k: usize = 0;
        while k < count
            invariant
                n == data@.len(),
                n >= 2,
                count == (n - 1) / 4,
                k <= count,
                afi_safis@ == spec_gr_entries(data@).subrange(0, k as int),
            decreases count - k,
        {
            let i = 2 + 4 * k;
            let afi = read_u16(data, i);
            let safi = data[i + 2];
            let flags = if i + 3 < n { data[i + 3] } else { 0 };
            afi_safis.push((AfiSafi::new(afi, safi), flags));
            k = k + 1;
            assert(afi_safis@ =~= spec_gr_entries(data@).subrange(0, k as int));
        }
        assert(afi_safis@ =~= spec_gr_entries(data@));
        Ok(BgpCapability::GracefulRestart { restart_time, afi_safis })
    } else if code == 65 && n >= 4 {
        Ok(BgpCapability::FourByteAsn(read_u32(data, 0)))
    } else if code == 69 {
        let mut entries: Vec<(AfiSafi, u8)> = Vec::new();
        let mut k: usize = 0;
        while k < n / 4
            invariant
                n == data@.len(),
                k <= n / 4,
                entries@ == spec_add_path_entries(data@).subrange(0, k as int),
            decreases n / 4 - k,
        {
            let i = 4 * k;
            let afi = read_u16(data, i);
            entries.push((AfiSafi::new(afi, data[i + 2]), data[i + 3]));
            k = k + 1;
            assert(entries@ =~= spec_add_path_entries(data@).subrange(0, k as int));
        }
        assert(entries@ =~= spec_add_path_entries(data@));
        Ok(BgpCapability::AddPath(entries))
    } else if code == 70 {
        Ok(BgpCapability::EnhancedRouteRefresh)
    } else if code == 71 {
        let entries = copy_range(data, 0, n);
        assert(entries@ =~= data@);
        Ok(BgpCapability::LongLivedGracefulRestart { entries })
    } else if code == 73 && n > 0 {
        let hl = data[0] as usize;
        let hbytes = get_or_empty_vec(data, 1, 1 + hl);
        let hostname = lossy_string(hbytes.as_slice());
        let domain = if n > 1 + hl {
            let dl = data[1 + hl] as usize;
            let dbytes = get_or_empty_vec(data, 2 + hl, 2 + hl + dl);
            lossy_string(dbytes.as_slice())
        } else {
            String::new()
        };
        Ok(BgpCapability::Fqdn { hostname, domain })
    } else {
        let raw = copy_range(data, 0, n);
        assert(raw@ =~= data@);
        Ok(BgpCapability::Unknown { code, data: raw })
    }
}

/// The models of a list of capabilities.
pub open spec fn caps_view(v: Seq<BgpCapability>) -> Seq<CapabilityModel> {
    v.map_values(|c: BgpCapability| c@)
}

/// Capabilities of the capability parameters within the value `p` of one
/// optional parameter: code(1) + length(1) + value entries.
pub open spec fn spec_cap_list(p: Seq<u8>) -> Result<Seq<CapabilityModel>, ErrorModel>
    decreases p.len(),
{
    if p.len() < 2 {
        Ok(Seq::empty())
    } else {
        let len = p[1] as int;
        let rest = p.skip(2);
        if rest.len() < len {
            Err(eof(len, rest.len() as int))
        } else {
            match spec_cap_list(rest.skip(len)) {
                Ok(t) => Ok(seq![spec_capability(p[0], rest.subrange(0, len))] + t),
                Err(e) => Err(e),
            }
        }
    }
}

/// Capabilities in the optional parameters `s`: type(1) + length(1) + value;
/// only parameters of type 2 hold capabilities.
pub open spec fn spec_capabilities(s: Seq<u8>) -> Result<Seq<CapabilityModel>, ErrorModel>
    decreases s.len(),
{
    if s.len() < 2 {
        Ok(Seq::empty())
    } else {
        let len = s[1] as int;
        let rest = s.skip(2);
        if rest.len() < len {
            Err(eof(len, rest.len() as int))
        } else {
            let here = if s[0] == 2 { spec_cap_list(rest.subrange(0, len)) } else { Ok(Seq::empty()) };
            match here {
                Err(e) => Err(e),
                Ok(h) => match spec_capabilities(rest.skip(len)) {
                    Ok(t) => Ok(h + t),
                    Err(e) => Err(e),
                },
            }
        }
    }
}

/// Decodes the capabilities of one type-2 optional parameter value found at
/// `buf[start..end]`, appending them to `caps`.
fn parse_cap_list(buf: &[u8], start: usize, end: usize, caps: &mut Vec<BgpCapability>) -> (r: Result<(), Error>)
    requires
        start <= end <= buf.len(),
    ensures
        match spec_cap_list(buf@.subrange(start as int, end as int)) {
            Ok(t) => r is Ok && caps_view(final(caps)@) == caps_view(old(caps)@) + t,
            Err(e) => r matches Err(x) && x@ == e,
        },
{
    let mut pos: usize = start;
    assert(buf@.subrange(start as int, end as int) =~= buf@.subrange(pos as int, end as int));
    let ghost base = caps_view(caps@);
    while end - pos >= 2
        invariant
            start <= pos <= end <= buf.len(),
            spec_cap_list(buf@.subrange(start as int, end as int)) == match spec_cap_list(
                buf@.subrange(pos as int, end as int),
            ) {
                Ok(t) => Ok(caps_view(caps@).subrange(base.len() as int, caps@.len() as int) + t),
                Err(e) => Err(e),
            },
            caps_view(caps@).len() >= base.len(),
            caps_view(caps@).subrange(0, base.len() as int) == base,
        decreases end - pos,
    {
        let ghost p = buf@.subrange(pos as int, end as int);
        let code = buf[pos];
        let len = buf[pos + 1] as usize;
        pos = pos + 2;
        assert(p.skip(2) =~= buf@.subrange(pos as int, end as int));
        if end - pos < len {
            return Err(Error::UnexpectedEof { needed: len, have: end - pos });
        }
        let data = copy_range(buf, pos, len);
        assert(data@ =~= p.skip(2).subrange(0, len as int));
        let cap = match parse_one_capability(code, data.as_slice()) {
            Ok(c) => c,
            Err(e) => return Err(e),
        };
        pos = pos + len;
        assert(p.skip(2).skip(len as int) =~= buf@.subrange(pos as int, end as int));
        let ghost before = caps_view(caps@);
        caps.push(cap);
        proof {
            assert(caps_view(caps@) =~= before.push(cap@));
            assert(caps_view(caps@).subrange(0, base.len() as int) =~= before.subrange(0, base.len() as int));
            match spec_cap_list(buf@.subrange(pos as int, end as int)) {
                Ok(t) => {
                    assert(before.subrange(base.len() as int, before.len() as int) + (seq![cap@] + t)
                        =~= caps_view(caps@).subrange(base.len() as int, caps@.len() as int) + t);
                },
                Err(e) => {},
            }
        }
    }
    assert(spec_cap_list(buf@.subrange(pos as int, end as int)) == Ok::<Seq<CapabilityModel>, ErrorModel>(Seq::empty()));
    assert(caps_view(caps@) =~= base + caps_view(caps@).subrange(base.len() as int, caps@.len() as int));
    Ok(())
}

/// Decodes the capabilities in BGP OPEN optional parameters.
pub fn parse_capabilities(buf: &[u8]) -> (r: Result<Vec<BgpCapability>, Error>)
    ensures
        match r {
            Ok(v) => spec_capabilities(buf@) == Ok::<Seq<CapabilityModel>, ErrorModel>(caps_view(v@)),
            Err(e) => spec_capabilities(buf@) == Err::<Seq<CapabilityModel>, ErrorModel>(e@),
        },
{
    let mut caps: Vec<BgpCapability> = Vec::new();
    let mut pos: usize = 0;
    assert(buf@.skip(0) =~= buf@);
    while buf.len() - pos >= 2
        invariant
            pos <= buf.len(),
            spec_capabilities(buf@) == match spec_capabilities(buf@.skip(pos as int)) {
                Ok(t) => Ok(caps_view(caps@) + t),
                Err(e) => Err(e),
            },
        decreases buf.len() - pos,
    {
        let ghost s = buf@.skip(pos as int);
        let ptype = buf[pos];
        let len = buf[pos + 1] as usize;
        pos = pos + 2;
        assert(s.skip(2) =~= buf@.skip(pos as int));
        if buf.len() - pos < len {
            return Err(Error::UnexpectedEof { needed: len, have: buf.len() - pos });
        }
        let start = pos;
        pos = pos + len;
        assert(s.skip(2).skip(len as int) =~= buf@.skip(pos as int));
        assert(s.skip(2).subrange(0, len as int) =~= buf@.subrange(start as int, pos as int));
        let ghost before = caps_view(caps@);
        if ptype == 2 {
            match parse_cap_list(buf, start, pos, &mut caps) {
                Ok(()) => {},
                Err(e) => return Err(e),
            }
        }
        proof {
            let here = if ptype == 2 {
                spec_cap_list(buf@.subrange(start as int, pos as int))
            } else {
                Ok(Seq::empty())
            };
            match here {
                Ok(h) => {
                    assert(caps_view(caps@) =~= before + h);
                    match spec_capabilities(buf@.skip(pos as int)) {
                        Ok(t) => {
                            assert(before + (h + t) =~= caps_view(caps@) + t);
                        },
                        Err(e) => {},
                    }
                },
                Err(e) => {},
            }
        }
    }
    assert(caps_view(caps@) + Seq::<CapabilityModel>::empty() =~= caps_view(caps@));
    Ok(caps)
}

} // verus!
