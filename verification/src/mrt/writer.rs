//! MRT writing: BGP4MP messages and state changes, TABLE_DUMP_V2 peer index
//! tables and unicast RIB records, appended to a byte buffer.

use vstd::prelude::*;
use vstd::utf8::encode_utf8;
use crate::bgp::types::{Prefix, PrefixModel};
use crate::mrt::types::{BgpState, bgp_state_code};
use crate::net::{IpAddress, IpModel};
use crate::rib::event::RibEventPayload;
use crate::wire::{be16_at, be32_at, lemma_u16_be, lemma_u32_be, put_prefix_of, put_slice, put_u16, put_u32, u16_be, u32_be};
use crate::mrt::reader::{HeaderModel, RecordModel, spec_bgp4mp_header, spec_read_record};
use crate::net::ip_at;

verus! {

/// Seconds since the epoch as the header's 32-bit field: 0 before the
/// epoch, else the low 32 bits.
pub open spec fn spec_epoch(ts: i64) -> u32 {
    if ts < 0 { 0 } else { ts as u32 }
}

/// The header's timestamp field for `ts` seconds since the epoch.
pub fn epoch_secs(ts: i64) -> (r: u32)
    ensures
        r == spec_epoch(ts),
{
    if ts < 0 { 0 } else { ts as u32 }
}

/// The MRT common header.
pub open spec fn header_bytes(ts: u32, mrt_type: u16, subtype: u16, length: u32) -> Seq<u8> {
    u32_be(ts) + u16_be(mrt_type) + u16_be(subtype) + u32_be(length)
}

fn write_mrt_header(buf: &mut Vec<u8>, ts: u32, mrt_type: u16, subtype: u16, length: u32)
    ensures
        final(buf)@ == old(buf)@ + header_bytes(ts, mrt_type, subtype, length),
{
    put_u32(buf, ts);
    put_u16(buf, mrt_type);
    put_u16(buf, subtype);
    put_u32(buf, length);
    assert(final(buf)@ =~= old(buf)@ + header_bytes(ts, mrt_type, subtype, length));
}

/// The octets of an address.
pub open spec fn ip_bytes(a: IpModel) -> Seq<u8> {
    match a {
        IpModel::V4(b) => b,
        IpModel::V6(b) => b,
    }
}

fn write_ip(buf: &mut Vec<u8>, a: &IpAddress)
    ensures
        final(buf)@ == old(buf)@ + ip_bytes(a@),
{
    match a {
        IpAddress::V4(b) => put_slice(buf, b),
        IpAddress::V6(b) => put_slice(buf, b),
    }
}

/// AFI 2 for an IPv6 peer address, else 1; and the address length.
pub open spec fn afi_of(a: IpModel) -> u16 {
    if a is V6 { 2 } else { 1 }
}

pub open spec fn addr_len_of(a: IpModel) -> int {
    if a is V6 { 16 } else { 4 }
}

/// The BGP4MP peer/local header: ASNs, interface, AFI of the peer address,
/// both addresses.
pub open spec fn bgp4mp_fields(peer_as: u32, local_as: u32, iface: u16, peer: IpModel, local: IpModel) -> Seq<u8> {
    u32_be(peer_as) + u32_be(local_as) + u16_be(iface) + u16_be(afi_of(peer)) + ip_bytes(peer) + ip_bytes(local)
}

fn write_bgp4mp_fields(
    buf: &mut Vec<u8>,
    peer_as: u32,
    local_as: u32,
    iface: u16,
    peer: &IpAddress,
    local: &IpAddress,
)
    ensures
        final(buf)@ == old(buf)@ + bgp4mp_fields(peer_as, local_as, iface, peer@, local@),
{
    put_u32(buf, peer_as);
    put_u32(buf, local_as);
    put_u16(buf, iface);
    put_u16(buf, if peer.is_ipv6() { 2 } else { 1 });
    write_ip(buf, peer);
    write_ip(buf, local);
    assert(final(buf)@ =~= old(buf)@ + bgp4mp_fields(peer_as, local_as, iface, peer@, local@));
}

/// A BGP4MP_MESSAGE_AS4 record; the length field counts the peer address's
/// length twice.
#[verifier::opaque]
pub open spec fn message_record(
    ts: i64,
    peer_as: u32,
    local_as: u32,
    iface: u16,
    peer: IpModel,
    local: IpModel,
    bgp: Seq<u8>,
) -> Seq<u8> {
    let body_len = 12 + 2 * addr_len_of(peer) + bgp.len();
    header_bytes(spec_epoch(ts), 16, 4, body_len as u32) + (bgp4mp_fields(peer_as, local_as, iface, peer, local) + bgp)
}

/// Appends a BGP4MP_MESSAGE_AS4 record carrying the raw BGP PDU `bgp_bytes`
/// (19-byte BGP header included).
pub fn write_bgp4mp_message(
    out: &mut Vec<u8>,
    ts: i64,
    peer_as: u32,
    local_as: u32,
    interface_idx: u16,
    peer_addr: IpAddress,
    local_addr: IpAddress,
    bgp_bytes: &[u8],
)
    requires
        bgp_bytes.len() <= isize::MAX,
    ensures
        final(out)@ == old(out)@ + message_record(
            ts,
            peer_as,
            local_as,
            interface_idx,
            peer_addr@,
            local_addr@,
            bgp_bytes@,
        ),
{
    let addr_len: usize = if peer_addr.is_ipv6() { 16 } else { 4 };
    let body_len = 12 + addr_len + addr_len + bgp_bytes.len();
    write_mrt_header(out, epoch_secs(ts), 16, 4, body_len as u32);
    write_bgp4mp_fields(out, peer_as, local_as, interface_idx, &peer_addr, &local_addr);
    put_slice(out, bgp_bytes);
    reveal(message_record);
    assert(final(out)@ =~= old(out)@ + message_record(
        ts,
        peer_as,
        local_as,
        interface_idx,
        peer_addr@,
        local_addr@,
        bgp_bytes@,
    ));
}

/// A BGP4MP_STATE_CHANGE_AS4 record (interface 0).
#[verifier::opaque]
pub open spec fn state_change_record(
    ts: i64,
    peer_as: u32,
    local_as: u32,
    peer: IpModel,
    local: IpModel,
    old_state: BgpState,
    new_state: BgpState,
) -> Seq<u8> {
    let body_len = 12 + 2 * addr_len_of(peer) + 4;
    header_bytes(spec_epoch(ts), 16, 5, body_len as u32) + (bgp4mp_fields(peer_as, local_as, 0, peer, local)
        + state_codes(old_state, new_state))
}

/// Appends a BGP4MP_STATE_CHANGE_AS4 record for a peer FSM transition.
pub fn write_bgp4mp_state_change(
    out: &mut Vec<u8>,
    ts: i64,
    peer_as: u32,
    local_as: u32,
    peer_addr: IpAddress,
    local_addr: IpAddress,
    old_state: BgpState,
    new_state: BgpState,
)
    ensures
        final(out)@ == old(out)@ + state_change_record(
            ts,
            peer_as,
            local_as,
            peer_addr@,
            local_addr@,
            old_state,
            new_state,
        ),
{
    let addr_len: u32 = if peer_addr.is_ipv6() { 16 } else { 4 };
    let body_len: u32 = 12 + addr_len + addr_len + 4;
    write_mrt_header(out, epoch_secs(ts), 16, 5, body_len);
    write_bgp4mp_fields(out, peer_as, local_as, 0, &peer_addr, &local_addr);
    put_u16(out, old_state.code());
    put_u16(out, new_state.code());
    reveal(state_change_record);
    assert(final(out)@ =~= old(out)@ + state_change_record(
        ts,
        peer_as,
        local_as,
        peer_addr@,
        local_addr@,
        old_state,
        new_state,
    ));
}

/// One peer of a PEER_INDEX_TABLE.
#[derive(Debug, Clone, Copy)]
pub struct MrtPeerEntry {
    pub bgp_id: [u8; 4],
    pub addr: IpAddress,
    pub peer_as: u32,
}

/// A peer entry: type (bit 0 IPv6, bit 1 four-byte AS, always set), BGP ID,
/// address, AS.
pub open spec fn peer_entry_bytes(p: MrtPeerEntry) -> Seq<u8> {
    seq![if p.addr is V6 { 3u8 } else { 2u8 }] + p.bgp_id@ + ip_bytes(p.addr@) + u32_be(p.peer_as)
}

/// The entries of `ps`, one after another.
pub open spec fn peer_entries_bytes(ps: Seq<MrtPeerEntry>) -> Seq<u8>
    decreases ps.len(),
{
    if ps.len() == 0 {
        Seq::empty()
    } else {
        peer_entries_bytes(ps.drop_last()) + peer_entry_bytes(ps.last())
    }
}

/// The body of a PEER_INDEX_TABLE: collector ID, view name length and name,
/// peer count and peers (both counts as their low 16 bits).
pub open spec fn peer_index_body(collector_id: Seq<u8>, view: Seq<u8>, peers: Seq<MrtPeerEntry>) -> Seq<u8> {
    collector_id + u16_be(view.len() as u16) + view + u16_be(peers.len() as u16) + peer_entries_bytes(peers)
}

/// Appends a TABLE_DUMP_V2 PEER_INDEX_TABLE record.
pub fn write_peer_index_table(
    out: &mut Vec<u8>,
    ts: i64,
    collector_id: [u8; 4],
    view_name: &str,
    peers: &[MrtPeerEntry],
)
    ensures
        final(out)@ == old(out)@ + header_bytes(
            spec_epoch(ts),
            13,
            1,
            peer_index_body(collector_id@, encode_utf8(view_name@), peers@).len() as u32,
        ) + peer_index_body(collector_id@, encode_utf8(view_name@), peers@),
{
    let mut body: Vec<u8> = Vec::new();
    put_slice(&mut body, &collector_id);
    let vn = view_name.as_bytes();
    put_u16(&mut body, vn.len() as u16);
    put_slice(&mut body, vn);
    put_u16(&mut body, peers.len() as u16);
    let ghost head = body@;
    let mut i: usize = 0;
    while i < peers.len()
        invariant
            i <= peers.len(),
            body@ == head + peer_entries_bytes(peers@.subrange(0, i as int)),
        decreases peers.len() - i,
    {
        let p = &peers[i];
        let ghost before = body@;
        body.push(if p.addr.is_ipv6() { 3u8 } else { 2u8 });
        put_slice(&mut body, &p.bgp_id);
        write_ip(&mut body, &p.addr);
        put_u32(&mut body, p.peer_as);
        proof {
            assert(peers@.subrange(0, i + 1).drop_last() =~= peers@.subrange(0, i as int));
            assert(body@ =~= before + peer_entry_bytes(peers@[i as int]));
        }
        i = i + 1;
    }
    proof {
        assert(peers@.subrange(0, peers@.len() as int) =~= peers@);
        assert(body@ =~= peer_index_body(collector_id@, encode_utf8(view_name@), peers@));
    }
    write_mrt_header(out, epoch_secs(ts), 13, 1, body.len() as u32);
    put_slice(out, body.as_slice());
}

/// A prefix's length fits its family, so its NLRI bytes can be taken.
pub open spec fn nlri_writable(p: PrefixModel) -> bool
    decreases p,
{
    match p {
        PrefixModel::V4 { len, .. } => len <= 32,
        PrefixModel::V6 { len, .. } => len <= 128,
        PrefixModel::Labeled { prefix, .. } => nlri_writable(*prefix),
        PrefixModel::Vpn { prefix, .. } => nlri_writable(*prefix),
    }
}

/// NLRI wire form of a prefix: length byte and the octets that hold it
/// (labels and distinguishers are not written).
pub open spec fn nlri_bytes(p: PrefixModel) -> Seq<u8>
    decreases p,
{
    match p {
        PrefixModel::V4 { addr, len } => seq![len] + addr.subrange(0, (len + 7) / 8),
        PrefixModel::V6 { addr, len } => seq![len] + addr.subrange(0, (len + 7) / 8),
        PrefixModel::Labeled { prefix, .. } => nlri_bytes(*prefix),
        PrefixModel::Vpn { prefix, .. } => nlri_bytes(*prefix),
    }
}

fn write_prefix_nlri(buf: &mut Vec<u8>, prefix: &Prefix)
    requires
        nlri_writable(prefix@),
    ensures
        final(buf)@ == old(buf)@ + nlri_bytes(prefix@),
    decreases prefix,
{
    match prefix {
        Prefix::V4(net) => {
            let len = net.prefix_len;
            let n = ((len as usize) + 7) / 8;
            buf.push(len);
            put_prefix_of(buf, &net.addr, n);
            assert(final(buf)@ =~= old(buf)@ + nlri_bytes(prefix@));
        },
        Prefix::V6(net) => {
            let len = net.prefix_len;
            let n = ((len as usize) + 7) / 8;
            buf.push(len);
            put_prefix_of(buf, &net.addr, n);
            assert(final(buf)@ =~= old(buf)@ + nlri_bytes(prefix@));
        },
        Prefix::Labeled { prefix: inner, .. } => {
            write_prefix_nlri(buf, inner);
        },
        Prefix::Vpn { prefix: inner, .. } => {
            write_prefix_nlri(buf, inner);
        },
    }
}

/// One path of a TABLE_DUMP_V2 RIB record.
#[derive(Debug, Clone)]
pub struct MrtRibEntry {
    pub peer_index: u16,
    /// Seconds since the epoch the path was learned.
    pub originated: i64,
    /// Serialised BGP path attributes.
    pub path_attrs: Vec<u8>,
}

/// An entry: peer index, originated time, attribute length (low 16 bits)
/// and attributes.
pub open spec fn rib_entry_bytes(e: MrtRibEntry) -> Seq<u8> {
    u16_be(e.peer_index) + u32_be(spec_epoch(e.originated)) + u16_be(e.path_attrs@.len() as u16) + e.path_attrs@
}

pub open spec fn rib_entries_bytes(es: Seq<MrtRibEntry>) -> Seq<u8>
    decreases es.len(),
{
    if es.len() == 0 {
        Seq::empty()
    } else {
        rib_entries_bytes(es.drop_last()) + rib_entry_bytes(es.last())
    }
}

/// The body of a RIB record: sequence number, prefix, entry count (low 16
/// bits), entries.
pub open spec fn rib_body(seq_no: u32, p: PrefixModel, es: Seq<MrtRibEntry>) -> Seq<u8> {
    u32_be(seq_no) + nlri_bytes(p) + u16_be(es.len() as u16) + rib_entries_bytes(es)
}

/// Appends a TABLE_DUMP_V2 RIB_IPV4_UNICAST record, or RIB_IPV6_UNICAST for
/// a plain IPv6 prefix.
pub fn write_rib_entry(out: &mut Vec<u8>, ts: i64, seq_no: u32, prefix: &Prefix, entries: &[MrtRibEntry])
    requires
        nlri_writable(prefix@),
    ensures
        final(out)@ == old(out)@ + header_bytes(
            spec_epoch(ts),
            13,
            if prefix@ is V6 { 4u16 } else { 2u16 },
            rib_body(seq_no, prefix@, entries@).len() as u32,
        ) + rib_body(seq_no, prefix@, entries@),
{
    let is_v6 = match prefix {
        Prefix::V6(_) => true,
        _ => false,
    };
    let mut body: Vec<u8> = Vec::new();
    put_u32(&mut body, seq_no);
    write_prefix_nlri(&mut body, prefix);
    put_u16(&mut body, entries.len() as u16);
    let ghost head = body@;
    let mut i: usize = 0;
    while i < entries.len()
        invariant
            i <= entries.len(),
            body@ == head + rib_entries_bytes(entries@.subrange(0, i as int)),
        decreases entries.len() - i,
    {
        let e = &entries[i];
        let ghost before = body@;
        put_u16(&mut body, e.peer_index);
        put_u32(&mut body, epoch_secs(e.originated));
        put_u16(&mut body, e.path_attrs.len() as u16);
        put_slice(&mut body, e.path_attrs.as_slice());
        proof {
            assert(entries@.subrange(0, i + 1).drop_last() =~= entries@.subrange(0, i as int));
            assert(body@ =~= before + rib_entry_bytes(entries@[i as int]));
        }
        i = i + 1;
    }
    proof {
        assert(entries@.subrange(0, entries@.len() as int) =~= entries@);
        assert(body@ =~= rib_body(seq_no, prefix@, entries@));
    }
    let subtype: u16 = if is_v6 { 4 } else { 2 };
    write_mrt_header(out, epoch_secs(ts), 13, subtype, body.len() as u32);
    put_slice(out, body.as_slice());
}

/// Appends the BGP4MP_STATE_CHANGE_AS4 record of a peer event at `ts`: a
/// peer up goes Active to Established, a peer down Established to Idle,
/// local AS 0 and local address 0.0.0.0. Other events append nothing.
pub fn rib_event_to_mrt(out: &mut Vec<u8>, ts: i64, payload: &RibEventPayload)
    ensures
        match payload {
            RibEventPayload::PeerUp { peer_header, .. } => final(out)@ == old(out)@ + state_change_record(
                ts,
                peer_header.peer_as,
                0,
                peer_header.peer_address@,
                IpModel::V4(seq![0u8, 0u8, 0u8, 0u8]),
                BgpState::Active,
                BgpState::Established,
            ),
            RibEventPayload::PeerDown { peer_header, .. } => final(out)@ == old(out)@ + state_change_record(
                ts,
                peer_header.peer_as,
                0,
                peer_header.peer_address@,
                IpModel::V4(seq![0u8, 0u8, 0u8, 0u8]),
                BgpState::Established,
                BgpState::Idle,
            ),
            _ => final(out)@ == old(out)@,
        },
{
    match payload {
        RibEventPayload::PeerUp { peer_header, .. } => {
            write_bgp4mp_state_change(
                out,
                ts,
                peer_header.peer_as,
                0,
                peer_header.peer_address,
                IpAddress::v4_unspecified(),
                BgpState::Active,
                BgpState::Established,
            );
        },
        RibEventPayload::PeerDown { peer_header, .. } => {
            write_bgp4mp_state_change(
                out,
                ts,
                peer_header.peer_as,
                0,
                peer_header.peer_address,
                IpAddress::v4_unspecified(),
                BgpState::Established,
                BgpState::Idle,
            );
        },
        _ => {},
    }
}


/// The bytes after a state-change record's BGP4MP header.
pub open spec fn state_codes(old_state: BgpState, new_state: BgpState) -> Seq<u8> {
    u16_be(bgp_state_code(old_state)) + u16_be(bgp_state_code(new_state))
}

/// A header whose length field is the body's length frames that body.
proof fn lemma_frame_read_back(e: u32, t: u16, st: u16, body: Seq<u8>)
    requires
        body.len() <= u32::MAX,
    ensures
        spec_read_record(header_bytes(e, t, st, body.len() as u32) + body) == Ok::<
            Option<(RecordModel, int)>,
            (),
        >(Some(((e, t, st, body), 12 + body.len() as int))),
{
    reveal(spec_read_record);
    let rec = header_bytes(e, t, st, body.len() as u32) + body;
    lemma_u32_be(e);
    lemma_u16_be(t);
    lemma_u16_be(st);
    lemma_u32_be(body.len() as u32);
    assert(be32_at(rec, 0) == be32_at(u32_be(e), 0));
    assert(be16_at(rec, 4) == be16_at(u16_be(t), 0));
    assert(be16_at(rec, 6) == be16_at(u16_be(st), 0));
    assert(be32_at(rec, 8) == be32_at(u32_be(body.len() as u32), 0));
    assert(rec.subrange(12, rec.len() as int) =~= body);
}

proof fn lemma_fields_len(peer_as: u32, local_as: u32, iface: u16, peer: IpAddress, local: IpAddress, rest: Seq<u8>)
    requires
        (peer is V6) == (local is V6),
    ensures
        (bgp4mp_fields(peer_as, local_as, iface, peer@, local@) + rest).len() == 12 + 2 * addr_len_of(peer@)
            + rest.len(),
{
    assert(ip_bytes(peer@).len() == addr_len_of(peer@));
    assert(ip_bytes(local@).len() == addr_len_of(peer@));
}

/// Written BGP4MP header fields decode back, with what follows them.
proof fn lemma_fields_read_back(peer_as: u32, local_as: u32, iface: u16, peer: IpAddress, local: IpAddress, rest: Seq<u8>)
    requires
        (peer is V6) == (local is V6),
    ensures
        spec_bgp4mp_header(bgp4mp_fields(peer_as, local_as, iface, peer@, local@) + rest) == Ok::<
            (HeaderModel, Seq<u8>),
            (int, int),
        >((HeaderModel { peer_as, local_as, interface: iface, peer_addr: peer@, local_addr: local@ }, rest)),
{
    reveal(spec_bgp4mp_header);
    let al = addr_len_of(peer@);
    let pb = ip_bytes(peer@);
    let lb = ip_bytes(local@);
    assert(pb.len() == al && lb.len() == al);
    let body = bgp4mp_fields(peer_as, local_as, iface, peer@, local@) + rest;
    lemma_u32_be(peer_as);
    lemma_u32_be(local_as);
    lemma_u16_be(iface);
    lemma_u16_be(afi_of(peer@));
    assert(be32_at(body, 0) == be32_at(u32_be(peer_as), 0));
    assert(be32_at(body, 4) == be32_at(u32_be(local_as), 0));
    assert(be16_at(body, 8) == be16_at(u16_be(iface), 0));
    assert(be16_at(body, 10) == be16_at(u16_be(afi_of(peer@)), 0));
    let v6 = be16_at(body, 10) == 2;
    assert(v6 == (peer is V6));
    assert(body.subrange(12, 12 + al) =~= pb);
    assert(body.subrange(12 + al, 12 + 2 * al) =~= lb);
    assert(body.subrange(12 + 2 * al, body.len() as int) =~= rest);
}

#[verifier::rlimit(60)]
/// Reading back a written BGP4MP state-change record gives its timestamp
/// field, type 16 and subtype 5, and decoding its body gives the ASNs,
/// interface 0, both addresses and the two state codes, when the peer and
/// local addresses are of one family.
pub proof fn lemma_state_change_read_back(
    ts: i64,
    peer_as: u32,
    local_as: u32,
    peer: IpAddress,
    local: IpAddress,
    old_state: BgpState,
    new_state: BgpState,
)
    requires
        (peer is V6) == (local is V6),
    ensures
        ({
            let rec = state_change_record(ts, peer_as, local_as, peer@, local@, old_state, new_state);
            let body = bgp4mp_fields(peer_as, local_as, 0, peer@, local@) + state_codes(old_state, new_state);
            &&& spec_read_record(rec) == Ok::<Option<(RecordModel, int)>, ()>(
                Some(((spec_epoch(ts), 16u16, 5u16, body), rec.len() as int)),
            )
            &&& spec_bgp4mp_header(body) == Ok::<(HeaderModel, Seq<u8>), (int, int)>(
                (
                    HeaderModel { peer_as, local_as, interface: 0, peer_addr: peer@, local_addr: local@ },
                    state_codes(old_state, new_state),
                ),
            )
            &&& be16_at(state_codes(old_state, new_state), 0) == bgp_state_code(old_state)
            &&& be16_at(state_codes(old_state, new_state), 2) == bgp_state_code(new_state)
        }),
{
    let codes = state_codes(old_state, new_state);
    let body = bgp4mp_fields(peer_as, local_as, 0, peer@, local@) + codes;
    lemma_fields_len(peer_as, local_as, 0, peer, local, codes);
    assert(state_change_record(ts, peer_as, local_as, peer@, local@, old_state, new_state) == header_bytes(
        spec_epoch(ts),
        16,
        5,
        body.len() as u32,
    ) + body) by {
        reveal(state_change_record);
    }
    lemma_frame_read_back(spec_epoch(ts), 16, 5, body);
    lemma_fields_read_back(peer_as, local_as, 0, peer, local, codes);
    lemma_codes_read_back(old_state, new_state);
}

proof fn lemma_codes_read_back(old_state: BgpState, new_state: BgpState)
    ensures
        be16_at(state_codes(old_state, new_state), 0) == bgp_state_code(old_state),
        be16_at(state_codes(old_state, new_state), 2) == bgp_state_code(new_state),
{
    let codes = state_codes(old_state, new_state);
    lemma_u16_be(bgp_state_code(old_state));
    lemma_u16_be(bgp_state_code(new_state));
    assert(be16_at(codes, 0) == be16_at(u16_be(bgp_state_code(old_state)), 0));
    assert(be16_at(codes, 2) == be16_at(u16_be(bgp_state_code(new_state)), 0));
}

#[verifier::rlimit(60)]
/// Reading back a written BGP4MP message record gives its timestamp field,
/// type 16 and subtype 4, and decoding its body gives the ASNs, interface,
/// both addresses and the BGP PDU, when the addresses are of one family and
/// the body's length fits the 32-bit length field.
pub proof fn lemma_message_read_back(
    ts: i64,
    peer_as: u32,
    local_as: u32,
    iface: u16,
    peer: IpAddress,
    local: IpAddress,
    bgp: Seq<u8>,
)
    requires
        (peer is V6) == (local is V6),
        12 + 2 * addr_len_of(peer@) + bgp.len() <= u32::MAX,
    ensures
        ({
            let rec = message_record(ts, peer_as, local_as, iface, peer@, local@, bgp);
            let body = bgp4mp_fields(peer_as, local_as, iface, peer@, local@) + bgp;
            &&& spec_read_record(rec) == Ok::<Option<(RecordModel, int)>, ()>(
                Some(((spec_epoch(ts), 16u16, 4u16, body), rec.len() as int)),
            )
            &&& spec_bgp4mp_header(body) == Ok::<(HeaderModel, Seq<u8>), (int, int)>(
                (HeaderModel { peer_as, local_as, interface: iface, peer_addr: peer@, local_addr: local@ }, bgp),
            )
        }),
{
    let body = bgp4mp_fields(peer_as, local_as, iface, peer@, local@) + bgp;
    lemma_fields_len(peer_as, local_as, iface, peer, local, bgp);
    assert(message_record(ts, peer_as, local_as, iface, peer@, local@, bgp) == header_bytes(
        spec_epoch(ts),
        16,
        4,
        body.len() as u32,
    ) + body) by {
        reveal(message_record);
    }
    lemma_frame_read_back(spec_epoch(ts), 16, 4, body);
    lemma_fields_read_back(peer_as, local_as, iface, peer, local, bgp);
}

} // verus!
