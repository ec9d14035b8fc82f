//! NLRI decoding: plain, Add-Path, labeled, VPN, VPLS prefixes and next hops.

use vstd::prelude::*;
use crate::error::{Error, ErrorModel, eof, res_view};
use crate::net::{IpAddress, IpModel, ip_at, read_ip};
use crate::wire::{be16_at, be24_at, be32_at, read_array8, read_u16, read_u24, read_u32};
use crate::bgp::types::{
    Afi, Ipv4Net, Ipv6Net, Prefix, PrefixModel, RouteDistinguisher, VplsNlri, afi_code,
};

verus! {

/// The mask keeping the `k` (0..=7) high bits of a byte.
pub open spec fn high_mask(k: int) -> u8 {
    if k <= 0 { 0x00 }
    else if k == 1 { 0x80 }
    else if k == 2 { 0xC0 }
    else if k == 3 { 0xE0 }
    else if k == 4 { 0xF0 }
    else if k == 5 { 0xF8 }
    else if k == 6 { 0xFC }
    else if k == 7 { 0xFE }
    else { 0xFF }
}

/// Address octets of a `len`-bit prefix whose significant octets start at
/// `s[0]`, in an address `width` octets wide, with host bits cleared.
pub open spec fn masked_addr(s: Seq<u8>, len: nat, width: nat) -> Seq<u8> {
    Seq::new(
        width,
        |i: int|
            if i < len / 8 {
                s[i]
            } else if i == len / 8 && len % 8 != 0 {
                s[i] & high_mask((len % 8) as int)
            } else {
                0u8
            },
    )
}

/// Number of octets that carry a `len`-bit prefix.
pub open spec fn octets_for(len: int) -> int {
    (len + 7) / 8
}

/// Maximum prefix length of a family: 128 for IPv6, 32 otherwise.
pub open spec fn max_bits(afi: Afi) -> int {
    if afi == Afi::Ipv6 { 128 } else { 32 }
}

/// Address width of a family in octets: 16 for IPv6, 4 otherwise.
pub open spec fn width_of(afi: Afi) -> int {
    if afi == Afi::Ipv6 { 16 } else { 4 }
}

/// The network model of a `len`-bit prefix at the start of `s`.
pub open spec fn net_model(s: Seq<u8>, len: u8, afi: Afi) -> PrefixModel {
    if afi == Afi::Ipv6 {
        PrefixModel::V6 { addr: masked_addr(s, len as nat, 16), len }
    } else {
        PrefixModel::V4 { addr: masked_addr(s, len as nat, 4), len }
    }
}

/// Reads a `len`-bit prefix whose octets start at `pos`.
pub fn read_net(buf: &[u8], pos: usize, len: u8, afi: Afi) -> (r: Prefix)
    requires
        octets_for(len as int) <= width_of(afi),
        pos + octets_for(len as int) <= buf.len(),
    ensures
        r@ == net_model(buf@.skip(pos as int), len, afi),
{
    let v6 = match afi {
        Afi::Ipv6 => true,
        _ => false,
    };
    let octets: usize = (len as usize + 7) / 8;
    let full: usize = len as usize / 8;
    let rem: u8 = len % 8;
    let mask: u8 = if rem == 0 { 0x00 } else if rem == 1 { 0x80 } else if rem == 2 { 0xC0 }
        else if rem == 3 { 0xE0 } else if rem == 4 { 0xF0 } else if rem == 5 { 0xF8 }
        else if rem == 6 { 0xFC } else { 0xFE };
    let ghost s = buf@.skip(pos as int);
    let width: usize = if v6 { 16 } else { 4 };
    let mut a: Vec<u8> = Vec::new();
    let mut i: usize = 0;
    while i < width
        invariant
            i <= width,
            width == width_of(afi),
            octets == octets_for(len as int),
            octets <= width,
            pos + octets <= buf.len(),
            full == len / 8,
            rem == len % 8,
            mask == high_mask(rem as int),
            s == buf@.skip(pos as int),
            a@ == masked_addr(s, len as nat, width as nat).subrange(0, i as int),
        decreases width - i,
    {
        let b: u8 = if i < full {
            buf[pos + i]
        } else if i == full && rem != 0 {
            buf[pos + i] & mask
        } else {
            0u8
        };
        a.push(b);
        i = i + 1;
        assert(a@ =~= masked_addr(s, len as nat, width as nat).subrange(0, i as int));
    }
    assert(a@ =~= masked_addr(s, len as nat, width as nat));
    if v6 {
        let arr = [a[0], a[1], a[2], a[3], a[4], a[5], a[6], a[7], a[8], a[9], a[10], a[11],
            a[12], a[13], a[14], a[15]];
        assert(arr@ =~= a@);
        Prefix::V6(Ipv6Net { addr: arr, prefix_len: len })
    } else {
        let arr = [a[0], a[1], a[2], a[3]];
        assert(arr@ =~= a@);
        Prefix::V4(Ipv4Net { addr: arr, prefix_len: len })
    }
}

/// Plain NLRI: entries of length(1) + ceil(length/8) octets, until the end.
pub open spec fn spec_nlri(s: Seq<u8>, afi: Afi) -> Result<Seq<PrefixModel>, ErrorModel>
    decreases s.len(),
{
    if s.len() == 0 {
        Ok(Seq::empty())
    } else {
        let len = s[0];
        let rest = s.skip(1);
        let oct = octets_for(len as int);
        if rest.len() < oct {
            Err(eof(oct, rest.len() as int))
        } else if len > max_bits(afi) {
            Err(ErrorModel::InvalidPrefixLen { prefix_len: len, afi: afi_code(afi) })
        } else {
            match spec_nlri(rest.skip(oct), afi) {
                Ok(t) => Ok(seq![net_model(rest, len, afi)] + t),
                Err(e) => Err(e),
            }
        }
    }
}

/// The model of a vector of prefixes.
pub open spec fn prefixes_view(v: Seq<Prefix>) -> Seq<PrefixModel> {
    v.map_values(|p: Prefix| p@)
}

/// The model of a result holding prefixes.
pub open spec fn prefixes_res(r: Result<Vec<Prefix>, Error>) -> Result<Seq<PrefixModel>, ErrorModel> {
    match r {
        Ok(v) => Ok(prefixes_view(v@)),
        Err(e) => Err(e@),
    }
}

/// Decodes length-prefixed NLRI (IPv6 for `Afi::Ipv6`, IPv4 otherwise).
pub fn decode_nlri(buf: &[u8], afi: Afi) -> (r: Result<Vec<Prefix>, Error>)
    ensures
        prefixes_res(r) == spec_nlri(buf@, afi),
{
    let mut out: Vec<Prefix> = Vec::new();
    let mut pos: usize = 0;
    let max: u8 = match afi {
        Afi::Ipv6 => 128,
        _ => 32,
    };
    assert(buf@.skip(0) =~= buf@);
    while pos < buf.len()
        invariant
            pos <= buf@.len(),
            max == max_bits(afi),
            spec_nlri(buf@, afi) == match spec_nlri(buf@.skip(pos as int), afi) {
                Ok(t) => Ok(prefixes_view(out@) + t),
                Err(e) => Err(e),
            },
        decreases buf@.len() - pos,
    {
        let ghost s = buf@.skip(pos as int);
        let len = buf[pos];
        pos = pos + 1;
        assert(s.skip(1) =~= buf@.skip(pos as int));
        let octets: usize = (len as usize + 7) / 8;
        if buf.len() - pos < octets {
            return Err(Error::UnexpectedEof { needed: octets, have: buf.len() - pos });
        }
        if len > max {
            return Err(Error::InvalidPrefixLen { prefix_len: len, afi: afi.as_u16() });
        }
        let p = read_net(buf, pos, len, afi);
        pos = pos + octets;
        assert(buf@.skip((pos - octets) as int).skip(octets as int) =~= buf@.skip(pos as int));
        let ghost before = prefixes_view(out@);
        out.push(p);
        proof {
            assert(prefixes_view(out@) =~= before.push(p@));
            match spec_nlri(buf@.skip(pos as int), afi) {
                Ok(t) => {
                    assert(before + (seq![p@] + t) =~= before.push(p@) + t);
                },
                Err(e) => {},
            }
        }
    }
    assert(prefixes_view(out@) + Seq::<PrefixModel>::empty() =~= prefixes_view(out@));
    Ok(out)
}

/// Add-Path NLRI (RFC 7911): like plain NLRI, each entry preceded by a
/// 4-byte path identifier when `add_path` is set. None when the decoder of
/// the wire format would run past the buffer while reading a length byte
/// (an entry whose path identifier ends the buffer).
pub open spec fn spec_nlri_path_id(s: Seq<u8>, afi: Afi, add_path: bool) -> Option<
    Result<Seq<(PrefixModel, Option<u32>)>, ErrorModel>,
>
    decreases s.len(),
{
    if s.len() == 0 {
        Some(Ok(Seq::empty()))
    } else if add_path && s.len() < 4 {
        Some(Err(eof(4, s.len() as int)))
    } else {
        let pid: Option<u32> = if add_path { Some(be32_at(s, 0) as u32) } else { None };
        let s1 = if add_path { s.skip(4) } else { s };
        if s1.len() == 0 {
            None
        } else {
            let len = s1[0];
            let rest = s1.skip(1);
            let oct = octets_for(len as int);
            if rest.len() < oct {
                Some(Err(eof(oct, rest.len() as int)))
            } else if len > max_bits(afi) {
                Some(Err(ErrorModel::InvalidPrefixLen { prefix_len: len, afi: afi_code(afi) }))
            } else {
                match spec_nlri_path_id(rest.skip(oct), afi, add_path) {
                    Some(Ok(t)) => Some(Ok(seq![(net_model(rest, len, afi), pid)] + t)),
                    other => other,
                }
            }
        }
    }
}

/// The model of prefix / path-id pairs.
pub open spec fn pairs_view(v: Seq<(Prefix, Option<u32>)>) -> Seq<(PrefixModel, Option<u32>)> {
    v.map_values(|e: (Prefix, Option<u32>)| (e.0@, e.1))
}

/// Decodes NLRI with optional Add-Path identifiers; each entry's path id is
/// None when `add_path` is false.
#[verifier::rlimit(40)]
pub fn decode_nlri_with_path_id(buf: &[u8], afi: Afi, add_path: bool) -> (r: Result<
    Vec<(Prefix, Option<u32>)>,
    Error,
>)
    requires
        spec_nlri_path_id(buf@, afi, add_path) is Some,
    ensures
        Some(
            match r {
                Ok(v) => Ok(pairs_view(v@)),
                Err(e) => Err(e@),
            },
        ) == spec_nlri_path_id(buf@, afi, add_path),
{
    let mut out: Vec<(Prefix, Option<u32>)> = Vec::new();
    let mut pos: usize = 0;
    let max: u8 = match afi {
        Afi::Ipv6 => 128,
        _ => 32,
    };
    assert(buf@.skip(0) =~= buf@);
    while pos < buf.len()
        invariant
            pos <= buf@.len(),
            max == max_bits(afi),
            spec_nlri_path_id(buf@.skip(pos as int), afi, add_path) is Some,
            spec_nlri_path_id(buf@, afi, add_path) == match spec_nlri_path_id(
                buf@.skip(pos as int),
                afi,
                add_path,
            ) {
                Some(Ok(t)) => Some(Ok(pairs_view(out@) + t)),
                other => other,
            },
        decreases buf@.len() - pos,
    {
        let ghost s = buf@.skip(pos as int);
        let path_id = if add_path {
            if buf.len() - pos < 4 {
                return Err(Error::UnexpectedEof { needed: 4, have: buf.len() - pos });
            }
            let v = read_u32(buf, pos);
            pos = pos + 4;
            assert(s.skip(4) =~= buf@.skip(pos as int));
            Some(v)
        } else {
            None
        };
        let ghost s1 = buf@.skip(pos as int);
        let len = buf[pos];
        pos = pos + 1;
        assert(s1.skip(1) =~= buf@.skip(pos as int));
        let octets: usize = (len as usize + 7) / 8;
        if buf.len() - pos < octets {
            return Err(Error::UnexpectedEof { needed: octets, have: buf.len() - pos });
        }
        if len > max {
            return Err(Error::InvalidPrefixLen { prefix_len: len, afi: afi.as_u16() });
        }
        let p = read_net(buf, pos, len, afi);
        pos = pos + octets;
        assert(buf@.skip((pos - octets) as int).skip(octets as int) =~= buf@.skip(pos as int));
        let ghost before = pairs_view(out@);
        let ghost pm = p@;
        out.push((p, path_id));
        proof {
            assert(pairs_view(out@) =~= before.push((pm, path_id)));
            match spec_nlri_path_id(buf@.skip(pos as int), afi, add_path) {
                Some(Ok(t)) => {
                    assert(before + (seq![(pm, path_id)] + t) =~= before.push((pm, path_id)) + t);
                },
                _ => {},
            }
        }
    }
    assert(pairs_view(out@) + Seq::<(PrefixModel, Option<u32>)>::empty() =~= pairs_view(out@));
    Ok(out)
}

} // verus!

verus! {

/// An MPLS label stack at the start of `s`: 3-byte entries (label in the top
/// 20 bits) up to and including the one with the bottom-of-stack bit, as
/// (labels, bytes consumed).
pub open spec fn spec_labels(s: Seq<u8>) -> Result<(Seq<u32>, nat), ErrorModel>
    decreases s.len(),
{
    if s.len() < 3 {
        Err(eof(3, s.len() as int))
    } else {
        let raw = be24_at(s, 0);
        let label = (raw / 16) as u32;
        if raw % 2 == 1 {
            Ok((seq![label], 3))
        } else {
            match spec_labels(s.skip(3)) {
                Ok((ls, n)) => Ok((seq![label] + ls, n + 3)),
                Err(e) => Err(e),
            }
        }
    }
}

/// Labeled-unicast NLRI (RFC 3107 / RFC 8277): total length in bits(1),
/// label stack, then the prefix bits. None when the prefix is wider than the
/// family's address (the wire decoder would overrun its address buffer).
pub open spec fn spec_labeled_nlri(s: Seq<u8>, afi: Afi) -> Option<Result<Seq<PrefixModel>, ErrorModel>>
    decreases s.len(),
{
    if s.len() == 0 {
        Some(Ok(Seq::empty()))
    } else {
        let total = s[0] as int;
        let rest = s.skip(1);
        match spec_labels(rest) {
            Err(e) => Some(Err(e)),
            Ok((labels, n)) => {
                proof {
                    lemma_labels_len(rest);
                }
                let label_bits = 24 * labels.len();
                let plen: u8 = if total > label_bits { (total - label_bits) as u8 } else { 0 };
                let body = rest.skip(n as int);
                let oct = octets_for(plen as int);
                if body.len() < oct {
                    Some(Err(eof(oct, body.len() as int)))
                } else if oct > width_of(afi) {
                    None
                } else {
                    match spec_labeled_nlri(body.skip(oct), afi) {
                        Some(Ok(t)) => Some(Ok(seq![PrefixModel::Labeled {
                            prefix: Box::new(net_model(body, plen, afi)),
                            labels,
                        }] + t)),
                        other => other,
                    }
                }
            },
        }
    }
}

/// Reads a label stack starting at `pos`.
fn read_labels(buf: &[u8], pos: usize) -> (r: Result<(Vec<u32>, usize), Error>)
    requires
        pos <= buf.len(),
    ensures
        match r {
            Ok((v, n)) => spec_labels(buf@.skip(pos as int)) == Ok::<(Seq<u32>, nat), ErrorModel>(
                (v@, n as nat),
            ) && pos + n <= buf.len(),
            Err(e) => spec_labels(buf@.skip(pos as int)) == Err::<(Seq<u32>, nat), ErrorModel>(e@),
        },
{
    let mut labels: Vec<u32> = Vec::new();
    let mut p: usize = pos;
    assert(buf@.skip(pos as int).skip(0) =~= buf@.skip(pos as int));
    loop
        invariant
            pos <= p <= buf.len(),
            labels@.len() * 3 == p - pos,
            spec_labels(buf@.skip(pos as int)) == match spec_labels(buf@.skip(p as int)) {
                Ok((ls, n)) => Ok((labels@ + ls, n + (p - pos) as nat)),
                Err(e) => Err(e),
            },
        decreases buf.len() - p,
    {
        let ghost s = buf@.skip(p as int);
        if buf.len() - p < 3 {
            return Err(Error::UnexpectedEof { needed: 3, have: buf.len() - p });
        }
        let raw = read_u24(buf, p);
        let label = raw / 16;
        let bos = raw % 2 == 1;
        let ghost before = labels@;
        labels.push(label);
        p = p + 3;
        assert(s.skip(3) =~= buf@.skip(p as int));
        if bos {
            assert(before + seq![label] =~= labels@);
            return Ok((labels, p - pos));
        }
        proof {
            match spec_labels(buf@.skip(p as int)) {
                Ok((ls, n)) => {
                    assert(before + (seq![label] + ls) =~= labels@ + ls);
                },
                Err(e) => {},
            }
        }
    }
}

/// Decodes labeled-unicast NLRI.
pub fn decode_labeled_nlri(buf: &[u8], afi: Afi) -> (r: Result<Vec<Prefix>, Error>)
    requires
        spec_labeled_nlri(buf@, afi) is Some,
    ensures
        Some(prefixes_res(r)) == spec_labeled_nlri(buf@, afi),
{
    let mut out: Vec<Prefix> = Vec::new();
    let mut pos: usize = 0;
    let width: usize = match afi {
        Afi::Ipv6 => 16,
        _ => 4,
    };
    assert(buf@.skip(0) =~= buf@);
    while pos < buf.len()
        invariant
            pos <= buf@.len(),
            width == width_of(afi),
            spec_labeled_nlri(buf@.skip(pos as int), afi) is Some,
            spec_labeled_nlri(buf@, afi) == match spec_labeled_nlri(buf@.skip(pos as int), afi) {
                Some(Ok(t)) => Some(Ok(prefixes_view(out@) + t)),
                other => other,
            },
        decreases buf@.len() - pos,
    {
        let ghost s = buf@.skip(pos as int);
        let total = buf[pos] as usize;
        pos = pos + 1;
        assert(s.skip(1) =~= buf@.skip(pos as int));
        let (labels, n) = match read_labels(buf, pos) {
            Ok(x) => x,
            Err(e) => return Err(e),
        };
        let ghost lab_model = labels@;
        pos = pos + n;
        assert(buf@.skip((pos - n) as int).skip(n as int) =~= buf@.skip(pos as int));
        proof {
            assert(labels@.len() * 3 == n) by {
                reveal_with_fuel(spec_labels, 1);
                lemma_labels_len(buf@.skip((pos - n) as int));
            }
        }
        let plen: u8 = if labels.len() < 11 && total > labels.len() * 24 {
            (total - labels.len() * 24) as u8
        } else {
            0
        };
        let octets: usize = (plen as usize + 7) / 8;
        if buf.len() - pos < octets {
            return Err(Error::UnexpectedEof { needed: octets, have: buf.len() - pos });
        }
        let inner = read_net(buf, pos, plen, afi);
        pos = pos + octets;
        assert(buf@.skip((pos - octets) as int).skip(octets as int) =~= buf@.skip(pos as int));
        let ghost before = prefixes_view(out@);
        let p = Prefix::Labeled { prefix: Box::new(inner), labels };
        let ghost pm = p@;
        out.push(p);
        proof {
            assert(prefixes_view(out@) =~= before.push(pm));
            match spec_labeled_nlri(buf@.skip(pos as int), afi) {
                Some(Ok(t)) => {
                    assert(before + (seq![pm] + t) =~= before.push(pm) + t);
                },
                _ => {},
            }
        }
    }
    assert(prefixes_view(out@) + Seq::<PrefixModel>::empty() =~= prefixes_view(out@));
    Ok(out)
}

/// A decoded label stack of `k` labels takes `3 * k` bytes.
pub proof fn lemma_labels_len(s: Seq<u8>)
    ensures
        spec_labels(s) matches Ok((ls, n)) ==> ls.len() * 3 == n && 3 <= n <= s.len(),
    decreases s.len(),
{
    if s.len() >= 3 {
        lemma_labels_len(s.skip(3));
    }
}

/// VPN NLRI (RFC 4364): total length in bits(1), one 3-byte label, an 8-byte
/// route distinguisher, then the prefix bits. None when the prefix is wider
/// than the family's address.
pub open spec fn spec_vpn_nlri(s: Seq<u8>, afi: Afi) -> Option<Result<Seq<PrefixModel>, ErrorModel>>
    decreases s.len(),
{
    if s.len() == 0 {
        Some(Ok(Seq::empty()))
    } else {
        let total = s[0] as int;
        let r1 = s.skip(1);
        if r1.len() < 3 {
            Some(Err(eof(3, r1.len() as int)))
        } else {
            let label = (be24_at(r1, 0) / 16) as u32;
            let r2 = r1.skip(3);
            if r2.len() < 8 {
                Some(Err(eof(8, r2.len() as int)))
            } else {
                let rd = r2.subrange(0, 8);
                let body = r2.skip(8);
                let plen: u8 = if total > 88 { (total - 88) as u8 } else { 0 };
                let oct = octets_for(plen as int);
                if body.len() < oct {
                    Some(Err(eof(oct, body.len() as int)))
                } else if oct > width_of(afi) {
                    None
                } else {
                    match spec_vpn_nlri(body.skip(oct), afi) {
                        Some(Ok(t)) => Some(Ok(seq![PrefixModel::Vpn {
                            rd,
                            prefix: Box::new(net_model(body, plen, afi)),
                            labels: seq![label],
                        }] + t)),
                        other => other,
                    }
                }
            }
        }
    }
}

/// Decodes VPN NLRI.
#[verifier::rlimit(40)]
pub fn decode_vpn_nlri(buf: &[u8], afi: Afi) -> (r: Result<Vec<Prefix>, Error>)
    requires
        spec_vpn_nlri(buf@, afi) is Some,
    ensures
        Some(prefixes_res(r)) == spec_vpn_nlri(buf@, afi),
{
    let mut out: Vec<Prefix> = Vec::new();
    let mut pos: usize = 0;
    assert(buf@.skip(0) =~= buf@);
    while pos < buf.len()
        invariant
            pos <= buf@.len(),
            spec_vpn_nlri(buf@.skip(pos as int), afi) is Some,
            spec_vpn_nlri(buf@, afi) == match spec_vpn_nlri(buf@.skip(pos as int), afi) {
                Some(Ok(t)) => Some(Ok(prefixes_view(out@) + t)),
                other => other,
            },
        decreases buf@.len() - pos,
    {
        let ghost s = buf@.skip(pos as int);
        let total = buf[pos] as usize;
        pos = pos + 1;
        assert(s.skip(1) =~= buf@.skip(pos as int));
        if buf.len() - pos < 3 {
            return Err(Error::UnexpectedEof { needed: 3, have: buf.len() - pos });
        }
        let label = read_u24(buf, pos) / 16;
        pos = pos + 3;
        assert(s.skip(1).skip(3) =~= buf@.skip(pos as int));
        if buf.len() - pos < 8 {
            return Err(Error::UnexpectedEof { needed: 8, have: buf.len() - pos });
        }
        let rd = RouteDistinguisher(read_array8(buf, pos));
        assert(rd.0@ =~= buf@.skip(pos as int).subrange(0, 8));
        pos = pos + 8;
        assert(s.skip(1).skip(3).skip(8) =~= buf@.skip(pos as int));
        let plen: u8 = if total > 88 { (total - 88) as u8 } else { 0 };
        let octets: usize = (plen as usize + 7) / 8;
        if buf.len() - pos < octets {
            return Err(Error::UnexpectedEof { needed: octets, have: buf.len() - pos });
        }
        let inner = read_net(buf, pos, plen, afi);
        pos = pos + octets;
        assert(buf@.skip((pos - octets) as int).skip(octets as int) =~= buf@.skip(pos as int));
        let mut labels: Vec<u32> = Vec::new();
        labels.push(label);
        let ghost before = prefixes_view(out@);
        let p = Prefix::Vpn { rd, prefix: Box::new(inner), labels };
        let ghost pm = p@;
        assert(labels@ =~= seq![label]);
        out.push(p);
        proof {
            assert(prefixes_view(out@) =~= before.push(pm));
            match spec_vpn_nlri(buf@.skip(pos as int), afi) {
                Some(Ok(t)) => {
                    assert(before + (seq![pm] + t) =~= before.push(pm) + t);
                },
                _ => {},
            }
        }
    }
    assert(prefixes_view(out@) + Seq::<PrefixModel>::empty() =~= prefixes_view(out@));
    Ok(out)
}

} // verus!

verus! {

/// The VPLS entry held in the 17+ bytes `e`.
pub open spec fn vpls_entry_ok(v: VplsNlri, e: Seq<u8>) -> bool {
    &&& v.rd@ == e.subrange(0, 8)
    &&& v.ve_id == be16_at(e, 8)
    &&& v.ve_block_offset == be16_at(e, 10)
    &&& v.ve_block_size == be16_at(e, 12)
    &&& v.label_base == be24_at(e, 14) / 16
}

/// VPLS NLRI entries: length(2) + body; bodies shorter than 17 bytes are
/// skipped and decoding stops at a body that overruns the buffer. Returns
/// the bodies that yield entries.
pub open spec fn spec_vpls_bodies(s: Seq<u8>) -> Seq<Seq<u8>>
    decreases s.len(),
{
    if s.len() < 2 {
        Seq::empty()
    } else {
        let len = be16_at(s, 0);
        let rest = s.skip(2);
        if rest.len() < len {
            Seq::empty()
        } else if len < 17 {
            spec_vpls_bodies(rest.skip(len))
        } else {
            seq![rest.subrange(0, len)] + spec_vpls_bodies(rest.skip(len))
        }
    }
}

/// Decodes VPLS NLRI; never fails.
pub fn decode_vpls_nlri(buf: &[u8]) -> (r: Result<Vec<VplsNlri>, Error>)
    ensures
        r matches Ok(v) && v@.len() == spec_vpls_bodies(buf@).len() && forall|i: int|
            0 <= i < v@.len() ==> vpls_entry_ok(#[trigger] v@[i], spec_vpls_bodies(buf@)[i]),
{
    let mut out: Vec<VplsNlri> = Vec::new();
    let mut pos: usize = 0;
    let ghost done: Seq<Seq<u8>> = Seq::empty();
    assert(buf@.skip(0) =~= buf@);
    while buf.len() - pos >= 2
        invariant
            pos <= buf@.len(),
            spec_vpls_bodies(buf@) == done + spec_vpls_bodies(buf@.skip(pos as int)),
            out@.len() == done.len(),
            forall|i: int| 0 <= i < out@.len() ==> vpls_entry_ok(#[trigger] out@[i], done[i]),
        decreases buf@.len() - pos,
    {
        let ghost s = buf@.skip(pos as int);
        let len = read_u16(buf, pos) as usize;
        pos = pos + 2;
        assert(s.skip(2) =~= buf@.skip(pos as int));
        if buf.len() - pos < len {
            assert(spec_vpls_bodies(s) =~= Seq::<Seq<u8>>::empty());
            assert(done + Seq::<Seq<u8>>::empty() =~= done);
            return Ok(out);
        }
        let start = pos;
        pos = pos + len;
        assert(buf@.skip(start as int).skip(len as int) =~= buf@.skip(pos as int));
        if len < 17 {
            continue;
        }
        let rd = read_array8(buf, start);
        let v = VplsNlri {
            rd,
            ve_id: read_u16(buf, start + 8),
            ve_block_offset: read_u16(buf, start + 10),
            ve_block_size: read_u16(buf, start + 12),
            label_base: read_u24(buf, start + 14) / 16,
        };
        let ghost body = buf@.skip(start as int).subrange(0, len as int);
        assert(rd@ =~= body.subrange(0, 8));
        assert(vpls_entry_ok(v, body));
        out.push(v);
        proof {
            let old_done = done;
            done = done.push(body);
            assert(old_done + (seq![body] + spec_vpls_bodies(buf@.skip(pos as int))) =~= done
                + spec_vpls_bodies(buf@.skip(pos as int)));
            assert forall|i: int| 0 <= i < out@.len() implies vpls_entry_ok(#[trigger] out@[i], done[i]) by {
                if i < old_done.len() {
                    assert(done[i] == old_done[i]);
                }
            }
        }
    }
    assert(spec_vpls_bodies(buf@.skip(pos as int)) =~= Seq::<Seq<u8>>::empty());
    assert(done + Seq::<Seq<u8>>::empty() =~= done);
    Ok(out)
}

/// Next hops of an MP_REACH attribute: length(1) then as many whole 16-byte
/// (IPv6) or 4-byte (others) addresses as fit in that length.
pub open spec fn spec_next_hops(s: Seq<u8>, afi: Afi) -> Result<(Seq<IpModel>, nat), ErrorModel> {
    let nh_len = s[0] as int;
    let rest = s.skip(1);
    if rest.len() < nh_len {
        Err(eof(nh_len, rest.len() as int))
    } else {
        let w = width_of(afi);
        Ok((Seq::new((nh_len / w) as nat, |i: int| ip_at(rest, i * w, afi == Afi::Ipv6)), (1
            + nh_len) as nat))
    }
}

/// Decodes MP_REACH next hops, returning the addresses and the bytes consumed.
pub fn decode_next_hops(buf: &[u8], afi: Afi) -> (r: Result<(Vec<IpAddress>, usize), Error>)
    requires
        buf.len() >= 1,
    ensures
        match r {
            Ok((v, n)) => spec_next_hops(buf@, afi) == Ok::<(Seq<IpModel>, nat), ErrorModel>(
                (v@.map_values(|a: IpAddress| a@), n as nat),
            ),
            Err(e) => spec_next_hops(buf@, afi) == Err::<(Seq<IpModel>, nat), ErrorModel>(e@),
        },
{
    let nh_len = buf[0] as usize;
    if buf.len() - 1 < nh_len {
        return Err(Error::UnexpectedEof { needed: nh_len, have: buf.len() - 1 });
    }
    let v6 = match afi {
        Afi::Ipv6 => true,
        _ => false,
    };
    let w: usize = if v6 { 16 } else { 4 };
    let mut hops: Vec<IpAddress> = Vec::new();
    let mut k: usize = 0;
    let count = nh_len / w;
    while k < count
        invariant
            w == width_of(afi),
            v6 == (afi == Afi::Ipv6),
            count == nh_len / w,
            1 + nh_len <= buf.len(),
            k <= count,
            hops@.map_values(|a: IpAddress| a@) =~= Seq::new(
                k as nat,
                |i: int| ip_at(buf@.skip(1), i * w, v6),
            ),
        decreases count - k,
    {
        proof {
            assert(k * w + w <= count * w) by (nonlinear_arith)
                requires k < count;
            assert(count * w <= nh_len) by (nonlinear_arith)
                requires count == nh_len / w, w > 0;
        }
        let a = read_ip(buf, 1 + k * w, v6);
        proof {
            assert(ip_at(buf@, 1 + k * w, v6) == ip_at(buf@.skip(1), k * w, v6)) by {
                if v6 {
                    assert(buf@.subrange(1 + k * w, 1 + k * w + 16) =~= buf@.skip(1).subrange(
                        k * w,
                        k * w + 16,
                    ));
                } else {
                    assert(buf@.subrange(1 + k * w, 1 + k * w + 4) =~= buf@.skip(1).subrange(
                        k * w,
                        k * w + 4,
                    ));
                }
            }
        }
        let ghost before = hops@.map_values(|a: IpAddress| a@);
        hops.push(a);
        proof {
            assert(hops@.map_values(|a: IpAddress| a@) =~= before.push(a@));
            assert(Seq::new((k + 1) as nat, |i: int| ip_at(buf@.skip(1), i * w, v6)) =~= Seq::new(
                k as nat,
                |i: int| ip_at(buf@.skip(1), i * w, v6),
            ).push(ip_at(buf@.skip(1), k * w, v6)));
        }
        k = k + 1;
    }
    Ok((hops, 1 + nh_len))
}

} // verus!
