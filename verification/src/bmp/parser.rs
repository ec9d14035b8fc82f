//! BMP message decoding (RFC 7854 and extensions).

use vstd::prelude::*;
use crate::error::{Error, ErrorModel, eof};
use crate::net::{IpAddress, IpModel};
use crate::text::{lossy_string, utf8_lossy};
use crate::wire::{
    TlvRef, be16_at, be32_at, be64_at, read_u16, read_u32, read_u64, read_array4, read_array8, read_array16,
    copy_range, spec_tlvs, split_tlvs, tlv_refs_match,
};
use crate::bgp::types::{AfiSafi, afi_safi_of};
use crate::bgp::open::{parse_bgp_open, spec_open};
use crate::bgp::update::{parse_bgp_update, spec_update, UpdateModel};
use crate::bmp::types::{
    PeerType, PeerFlags, RibType, PeerHeader, PeerHeaderModel, BgpOpenInfo, OpenModel, PeerDownReason,
    PeerDownModel, PeerUpMessage, PeerUpModel, StatEntry, StatModel, BmpPayload, PayloadModel, BmpMsgType,
    bit_set, rib_type_of, spec_peer_type, opt_text, texts_view, stats_view, stat_name, stat_text,
};

verus! {

/// Version carried by every BMP message.
pub const BMP_VERSION: u8 = 3;

/// Largest BMP frame accepted by default.
pub const DEFAULT_MAX_FRAME: u32 = 65535;

// ─── Per-peer header ─────────────────────────────────────────────────────────

/// The per-peer header at the start of `s` (42 bytes) and the bytes after it.
pub open spec fn spec_peer_header(s: Seq<u8>) -> Result<(PeerHeaderModel, Seq<u8>), ErrorModel> {
    if s.len() < 42 {
        Err(eof(42, s.len() as int))
    } else {
        match spec_peer_type(s[0]) {
            Err(e) => Err(e),
            Ok(pt) => {
                let flags = s[1];
                Ok(
                    (
                        PeerHeaderModel {
                            peer_type: pt,
                            peer_flags: flags,
                            peer_distinguisher: s.subrange(2, 10),
                            peer_address: if bit_set(flags, 0x80) {
                                IpModel::V6(s.subrange(10, 26))
                            } else {
                                IpModel::V4(s.subrange(22, 26))
                            },
                            peer_as: be32_at(s, 26) as u32,
                            peer_bgp_id: s.subrange(30, 34),
                            timestamp_secs: be32_at(s, 34) as u32,
                            timestamp_micros: be32_at(s, 38) as u32,
                            rib_type: rib_type_of(pt, flags),
                        },
                        s.skip(42),
                    ),
                )
            },
        }
    }
}

/// Decodes the per-peer header at the start of `buf`.
fn parse_peer_header(buf: &[u8]) -> (r: Result<PeerHeader, Error>)
    ensures
        match r {
            Ok(h) => buf.len() >= 42 && spec_peer_header(buf@) == Ok::<(PeerHeaderModel, Seq<u8>), ErrorModel>(
                (h@, buf@.skip(42)),
            ),
            Err(e) => spec_peer_header(buf@) == Err::<(PeerHeaderModel, Seq<u8>), ErrorModel>(e@),
        },
{
    if buf.len() < 42 {
        return Err(Error::UnexpectedEof { needed: 42, have: buf.len() });
    }
    let peer_type = match PeerType::try_from_u8(buf[0]) {
        Ok(t) => t,
        Err(e) => {
            return Err(e);
        },
    };
    let peer_flags = PeerFlags(buf[1]);
    let peer_address = if peer_flags.ipv6() {
        IpAddress::V6(read_array16(buf, 10))
    } else {
        IpAddress::V4(read_array4(buf, 22))
    };
    let rib_type = RibType::from_peer(peer_type, peer_flags);
    Ok(
        PeerHeader {
            peer_type,
            peer_flags,
            peer_distinguisher: read_array8(buf, 2),
            peer_address,
            peer_as: read_u32(buf, 26),
            peer_bgp_id: read_array4(buf, 30),
            timestamp_secs: read_u32(buf, 34),
            timestamp_micros: read_u32(buf, 38),
            rib_type,
        },
    )
}

// ─── Initiation and Termination ──────────────────────────────────────────────

/// Initiation state after one more TLV: type 0 is sysDescr, 1 sysName, 2 an
/// admin label; values are decoded as lossy UTF-8.
pub open spec fn init_step(
    acc: (Option<Seq<char>>, Option<Seq<char>>, Seq<Seq<char>>),
    t: u16,
    v: Seq<u8>,
) -> (Option<Seq<char>>, Option<Seq<char>>, Seq<Seq<char>>) {
    if t == 0 {
        (acc.0, Some(utf8_lossy(v)), acc.2)
    } else if t == 1 {
        (Some(utf8_lossy(v)), acc.1, acc.2)
    } else if t == 2 {
        (acc.0, acc.1, acc.2.push(utf8_lossy(v)))
    } else {
        acc
    }
}

pub open spec fn init_fold(items: Seq<(u16, Seq<u8>)>) -> (Option<Seq<char>>, Option<Seq<char>>, Seq<Seq<char>>)
    decreases items.len(),
{
    if items.len() == 0 {
        (None, None, Seq::empty())
    } else {
        init_step(init_fold(items.drop_last()), items.last().0, items.last().1)
    }
}

/// An Initiation message body: TLVs of type(2) + length(2).
pub open spec fn spec_initiation(s: Seq<u8>) -> PayloadModel {
    let (name, descr, labels) = init_fold(spec_tlvs(s, 2, 2));
    PayloadModel::Initiation { sys_name: name, sys_descr: descr, labels }
}

fn parse_initiation(buf: &[u8]) -> (r: BmpPayload)
    ensures
        r@ == spec_initiation(buf@),
{
    let items = split_tlvs(buf, 0, buf.len(), 2, 2);
    let ghost spec_items = spec_tlvs(buf@.subrange(0, buf@.len() as int), 2, 2);
    assert(buf@.subrange(0, buf@.len() as int) =~= buf@);
    let mut sys_name: Option<String> = None;
    let mut sys_descr: Option<String> = None;
    let mut labels: Vec<String> = Vec::new();
    assert(texts_view(labels@) =~= Seq::<Seq<char>>::empty());
    let mut i: usize = 0;
    while i < items.len()
        invariant
            i <= items@.len(),
            tlv_refs_match(buf@, items@, spec_items),
            (opt_text(sys_name), opt_text(sys_descr), texts_view(labels@)) == init_fold(
                spec_items.subrange(0, i as int),
            ),
        decreases items@.len() - i,
    {
        let it = items[i];
        let ghost v = spec_items[i as int].1;
        assert(items@[i as int].t == spec_items[i as int].0);
        assert(it.off + it.len <= buf.len());
        assert(buf@.subrange(it.off as int, it.off + it.len) == v);
        let bytes = copy_range(buf, it.off, it.len);
        let val = lossy_string(bytes.as_slice());
        let ghost before = texts_view(labels@);
        if it.t == 0 {
            sys_descr = Some(val);
        } else if it.t == 1 {
            sys_name = Some(val);
        } else if it.t == 2 {
            let ghost vv = val@;
            labels.push(val);
            assert(texts_view(labels@) =~= before.push(vv));
        }
        proof {
            assert(spec_items.subrange(0, i + 1).drop_last() =~= spec_items.subrange(0, i as int));
        }
        i = i + 1;
    }
    assert(spec_items.subrange(0, spec_items.len() as int) =~= spec_items);
    BmpPayload::Initiation { sys_name, sys_descr, labels }
}

/// Termination state after one more TLV: type 0 (at least 2 bytes) is the
/// reason code, type 1 the reason text.
pub open spec fn term_step(acc: (u16, Option<Seq<char>>), t: u16, v: Seq<u8>) -> (u16, Option<Seq<char>>) {
    if t == 0 && v.len() >= 2 {
        (be16_at(v, 0) as u16, acc.1)
    } else if t == 1 {
        (acc.0, Some(utf8_lossy(v)))
    } else {
        acc
    }
}

pub open spec fn term_fold(items: Seq<(u16, Seq<u8>)>) -> (u16, Option<Seq<char>>)
    decreases items.len(),
{
    if items.len() == 0 {
        (0, None)
    } else {
        term_step(term_fold(items.drop_last()), items.last().0, items.last().1)
    }
}

/// A Termination message body: TLVs of type(2) + length(2).
pub open spec fn spec_termination(s: Seq<u8>) -> PayloadModel {
    let (code, text) = term_fold(spec_tlvs(s, 2, 2));
    PayloadModel::Termination { reason_code: code, reason_text: text }
}

fn parse_termination(buf: &[u8]) -> (r: BmpPayload)
    ensures
        r@ == spec_termination(buf@),
{
    let items = split_tlvs(buf, 0, buf.len(), 2, 2);
    let ghost spec_items = spec_tlvs(buf@.subrange(0, buf@.len() as int), 2, 2);
    assert(buf@.subrange(0, buf@.len() as int) =~= buf@);
    let mut reason_code: u16 = 0;
    let mut reason_text: Option<String> = None;
    let mut i: usize = 0;
    while i < items.len()
        invariant
            i <= items@.len(),
            tlv_refs_match(buf@, items@, spec_items),
            (reason_code, opt_text(reason_text)) == term_fold(spec_items.subrange(0, i as int)),
        decreases items@.len() - i,
    {
        let it = items[i];
        let ghost v = spec_items[i as int].1;
        assert(items@[i as int].t == spec_items[i as int].0);
        assert(it.off + it.len <= buf.len());
        assert(buf@.subrange(it.off as int, it.off + it.len) == v);
        if it.t == 0 && it.len >= 2 {
            reason_code = read_u16(buf, it.off);
        } else if it.t == 1 {
            let bytes = copy_range(buf, it.off, it.len);
            reason_text = Some(lossy_string(bytes.as_slice()));
        }
        proof {
            assert(spec_items.subrange(0, i + 1).drop_last() =~= spec_items.subrange(0, i as int));
        }
        i = i + 1;
    }
    assert(spec_items.subrange(0, spec_items.len() as int) =~= spec_items);
    BmpPayload::Termination { reason_code, reason_text }
}

// ─── Peer Up ─────────────────────────────────────────────────────────────────

/// Length of the first BGP message of `s`: its length field, or all of `s`
/// when shorter than a BGP header.
pub open spec fn open_pdu_len(s: Seq<u8>) -> int {
    if s.len() < 19 {
        s.len() as int
    } else {
        be16_at(s, 17)
    }
}

/// The BGP OPEN message at the start of `s`, bounded by its length field.
/// None where the decoder would panic: a length field below the 19-byte
/// header.
pub open spec fn spec_open_pdu(s: Seq<u8>) -> Option<Result<OpenModel, ErrorModel>> {
    if s.len() < 19 {
        Some(Err(eof(19, s.len() as int)))
    } else {
        let ml = be16_at(s, 17);
        if s.len() < ml {
            Some(Err(eof(ml, s.len() as int)))
        } else if ml < 19 {
            None
        } else {
            Some(spec_open(s.subrange(0, ml)))
        }
    }
}

/// Decodes the length-bounded BGP OPEN at `buf[start..]`.
fn parse_bgp_open_pdu(buf: &[u8], start: usize) -> (r: Result<BgpOpenInfo, Error>)
    requires
        start <= buf.len(),
        spec_open_pdu(buf@.skip(start as int)) is Some,
    ensures
        match r {
            Ok(o) => spec_open_pdu(buf@.skip(start as int)) == Some(Ok::<OpenModel, ErrorModel>(o@)),
            Err(e) => spec_open_pdu(buf@.skip(start as int)) == Some(Err::<OpenModel, ErrorModel>(e@)),
        },
{
    let ghost s = buf@.skip(start as int);
    let have: usize = buf.len() - start;
    if have < 19 {
        return Err(Error::UnexpectedEof { needed: 19, have });
    }
    let msg_len = read_u16(buf, start + 17) as usize;
    assert(be16_at(s, 17) == be16_at(buf@, start + 17));
    if have < msg_len {
        return Err(Error::UnexpectedEof { needed: msg_len, have });
    }
    let pdu = copy_range(buf, start, msg_len);
    assert(pdu@ =~= s.subrange(0, msg_len as int));
    parse_bgp_open(pdu.as_slice())
}

/// A Peer Up body: per-peer header, local address (16 bytes; an IPv4
/// address in the last 4), local and remote ports, then the sent and the
/// received OPEN. None where a decoder would panic.
pub open spec fn spec_peer_up(s: Seq<u8>) -> Option<Result<PayloadModel, ErrorModel>> {
    match spec_peer_header(s) {
        Err(e) => Some(Err(e)),
        Ok((ph, rest)) => if rest.len() < 20 {
            Some(Err(eof(20, rest.len() as int)))
        } else {
            let pdus = rest.skip(20);
            match spec_open_pdu(pdus) {
                None => None,
                Some(Err(e)) => Some(Err(e)),
                Some(Ok(sent)) => match spec_open_pdu(pdus.skip(open_pdu_len(pdus))) {
                    None => None,
                    Some(Err(e)) => Some(Err(e)),
                    Some(Ok(recv)) => Some(
                        Ok(
                            PayloadModel::PeerUp(
                                PeerUpModel {
                                    peer_header: ph,
                                    local_addr: if bit_set(ph.peer_flags, 0x80) {
                                        IpModel::V6(rest.subrange(0, 16))
                                    } else {
                                        IpModel::V4(rest.subrange(12, 16))
                                    },
                                    local_port: be16_at(rest, 16) as u16,
                                    remote_port: be16_at(rest, 18) as u16,
                                    sent_open: sent,
                                    recv_open: recv,
                                },
                            ),
                        ),
                    ),
                },
            }
        },
    }
}

fn parse_peer_up(buf: &[u8]) -> (r: Result<BmpPayload, Error>)
    requires
        spec_peer_up(buf@) is Some,
    ensures
        match r {
            Ok(p) => spec_peer_up(buf@) == Some(Ok::<PayloadModel, ErrorModel>(p@)),
            Err(e) => spec_peer_up(buf@) == Some(Err::<PayloadModel, ErrorModel>(e@)),
        },
{
    let peer_header = match parse_peer_header(buf) {
        Ok(h) => h,
        Err(e) => {
            return Err(e);
        },
    };
    let ghost rest = buf@.skip(42);
    if buf.len() - 42 < 20 {
        return Err(Error::UnexpectedEof { needed: 20, have: buf.len() - 42 });
    }
    let local_addr = if peer_header.peer_flags.ipv6() {
        IpAddress::V6(read_array16(buf, 42))
    } else {
        IpAddress::V4(read_array4(buf, 54))
    };
    let local_port = read_u16(buf, 58);
    let remote_port = read_u16(buf, 60);
    proof {
        assert(rest.subrange(0, 16) =~= buf@.subrange(42, 58));
        assert(rest.subrange(12, 16) =~= buf@.subrange(54, 58));
        assert(be16_at(rest, 16) == be16_at(buf@, 58));
        assert(be16_at(rest, 18) == be16_at(buf@, 60));
    }
    let ghost pdus = rest.skip(20);
    assert(pdus =~= buf@.skip(62));
    let sent_open = match parse_bgp_open_pdu(buf, 62) {
        Ok(o) => o,
        Err(e) => {
            return Err(e);
        },
    };
    let sent_len: usize = if buf.len() - 62 < 19 {
        buf.len() - 62
    } else {
        read_u16(buf, 62 + 17) as usize
    };
    assert(sent_len == open_pdu_len(pdus)) by {
        if buf.len() - 62 >= 19 {
            assert(be16_at(pdus, 17) == be16_at(buf@, 79));
        }
    }
    assert(pdus.skip(sent_len as int) =~= buf@.skip(62 + sent_len));
    let recv_open = match parse_bgp_open_pdu(buf, 62 + sent_len) {
        Ok(o) => o,
        Err(e) => {
            return Err(e);
        },
    };
    Ok(BmpPayload::PeerUp(PeerUpMessage { peer_header, local_addr, local_port, remote_port, sent_open, recv_open }))
}

// ─── Peer Down, Route Monitoring, Route Mirroring ────────────────────────────

/// The Peer Down reason of `rest` (at least one byte): reason code, then
/// for codes 1 and 3 the notification bytes.
pub open spec fn spec_down_reason(rest: Seq<u8>) -> PeerDownModel {
    let c = rest[0];
    if c == 1 {
        PeerDownModel::LocalSystemClosed { notification: Some(rest.skip(1)) }
    } else if c == 2 {
        PeerDownModel::LocalSystemClosed2
    } else if c == 3 {
        PeerDownModel::RemoteSystemClosed { notification: Some(rest.skip(1)) }
    } else if c == 4 {
        PeerDownModel::RemoteSystemClosed2
    } else if c == 5 {
        PeerDownModel::PeerDeConfigured
    } else if c == 6 {
        PeerDownModel::VrfDown
    } else {
        PeerDownModel::Unknown(c)
    }
}

pub open spec fn spec_peer_down(s: Seq<u8>) -> Result<PayloadModel, ErrorModel> {
    match spec_peer_header(s) {
        Err(e) => Err(e),
        Ok((ph, rest)) => if rest.len() == 0 {
            Err(eof(1, 0))
        } else {
            Ok(PayloadModel::PeerDown { peer_header: ph, reason: spec_down_reason(rest) })
        },
    }
}

fn parse_peer_down(buf: &[u8]) -> (r: Result<BmpPayload, Error>)
    ensures
        match r {
            Ok(p) => spec_peer_down(buf@) == Ok::<PayloadModel, ErrorModel>(p@),
            Err(e) => spec_peer_down(buf@) == Err::<PayloadModel, ErrorModel>(e@),
        },
{
    let peer_header = match parse_peer_header(buf) {
        Ok(h) => h,
        Err(e) => {
            return Err(e);
        },
    };
    let ghost rest = buf@.skip(42);
    if buf.len() == 42 {
        return Err(Error::UnexpectedEof { needed: 1, have: 0 });
    }
    let code = buf[42];
    let reason = if code == 1 || code == 3 {
        let note = copy_range(buf, 43, buf.len() - 43);
        assert(note@ =~= rest.skip(1));
        if code == 1 {
            PeerDownReason::LocalSystemClosed { notification: Some(note) }
        } else {
            PeerDownReason::RemoteSystemClosed { notification: Some(note) }
        }
    } else if code == 2 {
        PeerDownReason::LocalSystemClosed2
    } else if code == 4 {
        PeerDownReason::RemoteSystemClosed2
    } else if code == 5 {
        PeerDownReason::PeerDeConfigured
    } else if code == 6 {
        PeerDownReason::VrfDown
    } else {
        PeerDownReason::Unknown(code)
    };
    Ok(BmpPayload::PeerDown { peer_header, reason })
}

/// A Route Monitoring body: per-peer header, then a BGP UPDATE (decoded
/// without Add-Path). None where the decoder would panic.
pub open spec fn spec_route_monitoring(s: Seq<u8>) -> Option<Result<PayloadModel, ErrorModel>> {
    match spec_peer_header(s) {
        Err(e) => Some(Err(e)),
        Ok((ph, rest)) => if rest.len() < 19 {
            Some(Err(eof(19, rest.len() as int)))
        } else {
            match spec_update(rest, false) {
                None => None,
                Some(Err(e)) => Some(Err(e)),
                Some(Ok(u)) => Some(Ok(PayloadModel::RouteMonitoring { peer_header: ph, update: u })),
            }
        },
    }
}

fn parse_route_monitoring(buf: &[u8]) -> (r: Result<BmpPayload, Error>)
    requires
        spec_route_monitoring(buf@) is Some,
        buf.len() <= isize::MAX,
    ensures
        match r {
            Ok(p) => spec_route_monitoring(buf@) == Some(Ok::<PayloadModel, ErrorModel>(p@)),
            Err(e) => spec_route_monitoring(buf@) == Some(Err::<PayloadModel, ErrorModel>(e@)),
        },
{
    let peer_header = match parse_peer_header(buf) {
        Ok(h) => h,
        Err(e) => {
            return Err(e);
        },
    };
    if buf.len() - 42 < 19 {
        return Err(Error::UnexpectedEof { needed: 19, have: buf.len() - 42 });
    }
    let rest = copy_range(buf, 42, buf.len() - 42);
    assert(rest@ =~= buf@.skip(42));
    match parse_bgp_update(rest.as_slice(), false) {
        Ok(update) => Ok(BmpPayload::RouteMonitoring { peer_header, update }),
        Err(e) => Err(e),
    }
}

/// Route Mirroring: the last TLV of type 0 (a BGP PDU) after the header.
pub open spec fn mirror_fold(items: Seq<(u16, Seq<u8>)>) -> Seq<u8>
    decreases items.len(),
{
    if items.len() == 0 {
        Seq::empty()
    } else if items.last().0 == 0 {
        items.last().1
    } else {
        mirror_fold(items.drop_last())
    }
}

pub open spec fn spec_route_mirroring(s: Seq<u8>) -> Result<PayloadModel, ErrorModel> {
    match spec_peer_header(s) {
        Err(e) => Err(e),
        Ok((ph, rest)) => Ok(PayloadModel::RouteMirroring { peer_header: ph, pdu: mirror_fold(spec_tlvs(rest, 2, 2)) }),
    }
}

fn parse_route_mirroring(buf: &[u8]) -> (r: Result<BmpPayload, Error>)
    ensures
        match r {
            Ok(p) => spec_route_mirroring(buf@) == Ok::<PayloadModel, ErrorModel>(p@),
            Err(e) => spec_route_mirroring(buf@) == Err::<PayloadModel, ErrorModel>(e@),
        },
{
    let peer_header = match parse_peer_header(buf) {
        Ok(h) => h,
        Err(e) => {
            return Err(e);
        },
    };
    let items = split_tlvs(buf, 42, buf.len(), 2, 2);
    let ghost spec_items = spec_tlvs(buf@.subrange(42, buf@.len() as int), 2, 2);
    assert(buf@.subrange(42, buf@.len() as int) =~= buf@.skip(42));
    let mut pdu: Vec<u8> = Vec::new();
    assert(pdu@ =~= mirror_fold(spec_items.subrange(0, 0)));
    let mut i: usize = 0;
    while i < items.len()
        invariant
            i <= items@.len(),
            tlv_refs_match(buf@, items@, spec_items),
            pdu@ == mirror_fold(spec_items.subrange(0, i as int)),
        decreases items@.len() - i,
    {
        let it = items[i];
        assert(items@[i as int].t == spec_items[i as int].0);
        assert(it.off + it.len <= buf.len());
        assert(buf@.subrange(it.off as int, it.off + it.len) == spec_items[i as int].1);
        if it.t == 0 {
            pdu = copy_range(buf, it.off, it.len);
        }
        proof {
            assert(spec_items.subrange(0, i + 1).drop_last() =~= spec_items.subrange(0, i as int));
        }
        i = i + 1;
    }
    assert(spec_items.subrange(0, spec_items.len() as int) =~= spec_items);
    Ok(BmpPayload::RouteMirroring { peer_header, pdu })
}

// ─── Statistics Report ───────────────────────────────────────────────────────

/// Statistics types whose value is AFI(2) + SAFI(1) + a 64-bit gauge:
/// the per-AFI/SAFI route counts (RFC 7854 types 9, 10; RFC 8671 16, 17).
pub open spec fn stat_is_per_afi_safi_11byte(t: u16) -> bool {
    t == 9 || t == 10 || t == 16 || t == 17
}

/// Statistics types whose value is AFI(2) + SAFI(1) + a 32-bit counter:
/// the per-AFI/SAFI counters of the extended statistics registry (20..=38).
pub open spec fn stat_is_per_afi_safi_7byte(t: u16) -> bool {
    20 <= t <= 38
}

/// One statistics entry of type `t` with value bytes `d`.
pub open spec fn spec_stat_entry(t: u16, d: Seq<u8>) -> StatModel {
    if stat_is_per_afi_safi_11byte(t) && d.len() == 11 {
        StatModel {
            stat_type: t,
            name: stat_text(t),
            value: be64_at(d, 3) as u64,
            afi_safi: Some(afi_safi_of(be16_at(d, 0) as u16, d[2])),
        }
    } else if stat_is_per_afi_safi_7byte(t) && d.len() == 7 {
        StatModel {
            stat_type: t,
            name: stat_text(t),
            value: be32_at(d, 3) as u64,
            afi_safi: Some(afi_safi_of(be16_at(d, 0) as u16, d[2])),
        }
    } else {
        StatModel {
            stat_type: t,
            name: stat_text(t),
            value: if d.len() == 4 {
                be32_at(d, 0) as u64
            } else if d.len() == 8 {
                be64_at(d, 0) as u64
            } else {
                0
            },
            afi_safi: None,
        }
    }
}

/// At most `k` statistics entries of `r` from offset `p`, appended to `acc`:
/// type(2) + length(2) + value; reading stops at an entry that does not fit.
pub open spec fn spec_stats_from(r: Seq<u8>, p: nat, k: nat, acc: Seq<StatModel>) -> Seq<StatModel>
    decreases k,
{
    if k == 0 || p + 4 > r.len() {
        acc
    } else {
        let t = be16_at(r, p as int) as u16;
        let l = be16_at(r, p + 2 as int);
        if p + 4 + l > r.len() {
            acc
        } else {
            spec_stats_from(
                r,
                (p + 4 + l) as nat,
                (k - 1) as nat,
                acc.push(spec_stat_entry(t, r.subrange(p + 4 as int, p + 4 + l))),
            )
        }
    }
}

/// A Statistics Report body: per-peer header, a 32-bit entry count, then the
/// entries.
pub open spec fn spec_stats_report(s: Seq<u8>) -> Result<PayloadModel, ErrorModel> {
    match spec_peer_header(s) {
        Err(e) => Err(e),
        Ok((ph, rest)) => if rest.len() < 4 {
            Err(eof(4, rest.len() as int))
        } else {
            Ok(
                PayloadModel::StatsReport {
                    peer_header: ph,
                    stats: spec_stats_from(rest, 4, be32_at(rest, 0) as nat, Seq::empty()),
                },
            )
        },
    }
}

fn make_stat_entry(buf: &[u8], off: usize, t: u16, len: usize) -> (r: StatEntry)
    requires
        off + len <= buf.len(),
    ensures
        r@ == spec_stat_entry(t, buf@.subrange(off as int, off + len)),
{
    let ghost d = buf@.subrange(off as int, off + len);
    let mut name = String::new();
    name.append(stat_name(t));
    assert(name@ =~= stat_text(t));
    let is11 = t == 9 || t == 10 || t == 16 || t == 17;
    let is7 = 20 <= t && t <= 38;
    if is11 && len == 11 {
        let afi = read_u16(buf, off);
        let safi = buf[off + 2];
        let value = read_u64(buf, off + 3);
        StatEntry { stat_type: t, name, value, afi_safi: Some(AfiSafi::new(afi, safi)) }
    } else if is7 && len == 7 {
        let afi = read_u16(buf, off);
        let safi = buf[off + 2];
        let value = read_u32(buf, off + 3) as u64;
        StatEntry { stat_type: t, name, value, afi_safi: Some(AfiSafi::new(afi, safi)) }
    } else {
        let value: u64 = if len == 4 {
            read_u32(buf, off) as u64
        } else if len == 8 {
            read_u64(buf, off)
        } else {
            0
        };
        StatEntry { stat_type: t, name, value, afi_safi: None }
    }
}

#[verifier::rlimit(30)]
fn parse_stats_report(buf: &[u8]) -> (r: Result<BmpPayload, Error>)
    ensures
        match r {
            Ok(p) => spec_stats_report(buf@) == Ok::<PayloadModel, ErrorModel>(p@),
            Err(e) => spec_stats_report(buf@) == Err::<PayloadModel, ErrorModel>(e@),
        },
{
    let peer_header = match parse_peer_header(buf) {
        Ok(h) => h,
        Err(e) => {
            return Err(e);
        },
    };
    let ghost rest = buf@.skip(42);
    if buf.len() - 42 < 4 {
        return Err(Error::UnexpectedEof { needed: 4, have: buf.len() - 42 });
    }
    let count = read_u32(buf, 42);
    assert(be32_at(rest, 0) == be32_at(buf@, 42));
    let mut stats: Vec<StatEntry> = Vec::new();
    let mut pos: usize = 4;
    let mut k: u32 = count;
    assert(stats_view(stats@) =~= Seq::<StatModel>::empty());
    loop
        invariant_except_break
            42 + pos <= buf.len(),
            spec_stats_from(rest, 4, count as nat, Seq::empty()) == spec_stats_from(
                rest,
                pos as nat,
                k as nat,
                stats_view(stats@),
            ),
        invariant
            rest == buf@.skip(42),
            buf.len() >= 46,
        ensures
            stats_view(stats@) == spec_stats_from(rest, 4, count as nat, Seq::empty()),
        decreases k,
    {
        let rl: usize = buf.len() - 42;
        if k == 0 || pos > rl || rl - pos < 4 {
            break;
        }
        let t = read_u16(buf, 42 + pos);
        let l = read_u16(buf, 42 + pos + 2) as usize;
        proof {
            assert(be16_at(rest, pos as int) == be16_at(buf@, 42 + pos));
            assert(be16_at(rest, pos + 2) == be16_at(buf@, 42 + pos + 2));
        }
        if rl - pos - 4 < l {
            break;
        }
        let e = make_stat_entry(buf, 42 + pos + 4, t, l);
        proof {
            assert(rest.subrange(pos + 4, pos + 4 + l) =~= buf@.subrange(42 + pos + 4, 42 + pos + 4 + l));
        }
        let ghost before = stats_view(stats@);
        let ghost ev = e@;
        stats.push(e);
        assert(stats_view(stats@) =~= before.push(ev));
        pos = pos + 4 + l;
        k = k - 1;
    }
    Ok(BmpPayload::StatsReport { peer_header, stats })
}

// ─── Messages ────────────────────────────────────────────────────────────────

/// A BMP message: common header version(1) = 3, length(4) (at most
/// `max_frame`), type(1), then the body decoded by type. None where a decoder
/// would panic.
pub open spec fn spec_bmp_message(s: Seq<u8>, max_frame: u32) -> Option<Result<PayloadModel, ErrorModel>> {
    if s.len() < 6 {
        Some(Err(eof(6, s.len() as int)))
    } else if s[0] != 3 {
        Some(Err(ErrorModel::InvalidBmpVersion(s[0])))
    } else if be32_at(s, 1) > max_frame {
        Some(Err(ErrorModel::FrameTooLarge(be32_at(s, 1) as u32, max_frame)))
    } else if s[5] > 6 {
        Some(Err(ErrorModel::InvalidMessageType(s[5])))
    } else {
        let body = s.skip(6);
        let t = s[5];
        if t == 4 {
            Some(Ok(spec_initiation(body)))
        } else if t == 5 {
            Some(Ok(spec_termination(body)))
        } else if t == 3 {
            spec_peer_up(body)
        } else if t == 2 {
            Some(spec_peer_down(body))
        } else if t == 0 {
            spec_route_monitoring(body)
        } else if t == 1 {
            Some(spec_stats_report(body))
        } else {
            Some(spec_route_mirroring(body))
        }
    }
}

/// Decodes one BMP message. `speaker_addr` is the address of the router that
/// sent it; `max_frame` bounds the length announced in the header.
pub fn parse_bmp_message(buf: &[u8], speaker_addr: IpAddress, max_frame: u32) -> (r: Result<BmpPayload, Error>)
    requires
        spec_bmp_message(buf@, max_frame) is Some,
        buf.len() <= isize::MAX,
    ensures
        match r {
            Ok(p) => spec_bmp_message(buf@, max_frame) == Some(Ok::<PayloadModel, ErrorModel>(p@)),
            Err(e) => spec_bmp_message(buf@, max_frame) == Some(Err::<PayloadModel, ErrorModel>(e@)),
        },
{
    if buf.len() < 6 {
        return Err(Error::UnexpectedEof { needed: 6, have: buf.len() });
    }
    let version = buf[0];
    let msg_len = read_u32(buf, 1);
    if version != 3 {
        return Err(Error::InvalidBmpVersion(version));
    }
    if msg_len > max_frame {
        return Err(Error::FrameTooLarge(msg_len, max_frame));
    }
    let msg_type = match BmpMsgType::try_from_u8(buf[5]) {
        Ok(t) => t,
        Err(e) => {
            return Err(e);
        },
    };
    let body = copy_range(buf, 6, buf.len() - 6);
    assert(body@ =~= buf@.skip(6));
    let b = body.as_slice();
    match msg_type {
        BmpMsgType::Initiation => Ok(parse_initiation(b)),
        BmpMsgType::Termination => Ok(parse_termination(b)),
        BmpMsgType::PeerUp => parse_peer_up(b),
        BmpMsgType::PeerDown => parse_peer_down(b),
        BmpMsgType::RouteMonitoring => parse_route_monitoring(b),
        BmpMsgType::StatsReport => parse_stats_report(b),
        BmpMsgType::RouteMirroring => parse_route_mirroring(b),
    }
}

} // verus!
