//! The RIB engine: per-speaker sessions and per-peer route tables, driven by
//! BMP messages, emitting one event per state change.

use vstd::prelude::*;
use std::sync::Arc;
use crate::bgp::path_attrs::PathAttributes;
use crate::bgp::types::{
    AfiSafi, LlgrState, Prefix, PrefixModel, afi_safi_text, capability_code,
};
use crate::bgp::update::{id_at, tagged_prefixes};
use crate::bmp::types::{BmpMessage, BmpPayload, PeerHeader, RibType};
use crate::net::{IpAddress, IpModel};
use crate::rib::event::{
    EventModel, RibEventPayload, RouteAction, RouteChange, down_reason_string, down_reason_text,
    events_view, texts_of,
};
use crate::rib::filter::{
    CompiledFilter, FilterEngine, FilterVerdict, chain_result, route_ctx_model,
};
use crate::rib::session::{
    BmpSession, PeerModel, PeerSession, PeerState, SessionModel, Timestamp, caps_view, find_peer,
    new_peer_model, new_session_model, opt_chars, peer_down_model, peer_model_index,
    peer_up_model, peers_view, put_peer, up_count,
};
use crate::rib::table::{
    RibEntry, RibTable, RowModel, row_model, rows_best, rows_insert, rows_remove, same_ip,
    stale_row,
};
use crate::text::{dec, push_dec, push_text};

verus! {

/// `Arc::clone`: another pointer to the same value.
#[verifier::external_body]
fn share<T>(a: &Arc<T>) -> (r: Arc<T>)
    ensures
        *r == **a,
{
    Arc::clone(a)
}

// ─── Model ───────────────────────────────────────────────────────────────────

/// Model of the engine: speaker sessions, and the route table of each peer
/// address.
pub struct ManagerModel {
    pub speakers: Seq<SessionModel>,
    pub ribs: Seq<(IpModel, Seq<RowModel>)>,
}

pub open spec fn sessions_view(v: Seq<BmpSession>) -> Seq<SessionModel> {
    v.map_values(|s: BmpSession| s@)
}

pub open spec fn ribs_view(v: Seq<(IpAddress, RibTable)>) -> Seq<(IpModel, Seq<RowModel>)> {
    v.map_values(|e: (IpAddress, RibTable)| (e.0@, e.1@))
}

pub open spec fn session_index(v: Seq<SessionModel>, a: IpModel) -> Option<int> {
    if exists|i: int| 0 <= i < v.len() && (#[trigger] v[i]).speaker == a {
        Some(
            choose|i: int|
                0 <= i < v.len() && v[i].speaker == a && forall|j: int|
                    0 <= j < i ==> (#[trigger] v[j]).speaker != a,
        )
    } else {
        None
    }
}

pub open spec fn put_session(v: Seq<SessionModel>, a: IpModel, s: SessionModel) -> Seq<SessionModel> {
    match session_index(v, a) {
        Some(i) => v.update(i, s),
        None => v.push(s),
    }
}

pub open spec fn rib_index(v: Seq<(IpModel, Seq<RowModel>)>, a: IpModel) -> Option<int> {
    if exists|i: int| 0 <= i < v.len() && (#[trigger] v[i]).0 == a {
        Some(
            choose|i: int|
                0 <= i < v.len() && v[i].0 == a && forall|j: int|
                    0 <= j < i ==> (#[trigger] v[j]).0 != a,
        )
    } else {
        None
    }
}

/// The routes held for peer `a` (none when it has no table).
pub open spec fn rows_of(v: Seq<(IpModel, Seq<RowModel>)>, a: IpModel) -> Seq<RowModel> {
    match rib_index(v, a) {
        Some(i) => v[i].1,
        None => Seq::empty(),
    }
}

/// Set the table of peer `a`, adding it when missing.
pub open spec fn put_rib(v: Seq<(IpModel, Seq<RowModel>)>, a: IpModel, rows: Seq<RowModel>) -> Seq<
    (IpModel, Seq<RowModel>),
> {
    match rib_index(v, a) {
        Some(i) => v.update(i, (a, rows)),
        None => v.push((a, rows)),
    }
}

/// Drop the table of peer `a`.
pub open spec fn drop_rib(v: Seq<(IpModel, Seq<RowModel>)>, a: IpModel) -> Seq<(IpModel, Seq<RowModel>)> {
    match rib_index(v, a) {
        Some(i) => v.remove(i),
        None => v,
    }
}

proof fn lemma_first_rib(v: Seq<(IpModel, Seq<RowModel>)>, a: IpModel, k: int)
    requires
        0 <= k < v.len(),
        v[k].0 == a,
    ensures
        exists|i: int| 0 <= i < v.len() && v[i].0 == a && forall|j: int| 0 <= j < i ==> (#[trigger] v[j]).0 != a,
    decreases k,
{
    if exists|j: int| 0 <= j < k && (#[trigger] v[j]).0 == a {
        let j = choose|j: int| 0 <= j < k && (#[trigger] v[j]).0 == a;
        lemma_first_rib(v, a, j);
    } else {
        assert(0 <= k < v.len() && v[k].0 == a && forall|j: int| 0 <= j < k ==> (#[trigger] v[j]).0 != a);
    }
}

proof fn lemma_rib_index_found(v: Seq<(IpModel, Seq<RowModel>)>, a: IpModel)
    ensures
        match rib_index(v, a) {
            Some(i) => 0 <= i < v.len() && v[i].0 == a && forall|j: int| 0 <= j < i ==> (#[trigger] v[j]).0 != a,
            None => forall|j: int| 0 <= j < v.len() ==> (#[trigger] v[j]).0 != a,
        },
{
    if exists|i: int| 0 <= i < v.len() && (#[trigger] v[i]).0 == a {
        let k = choose|i: int| 0 <= i < v.len() && (#[trigger] v[i]).0 == a;
        lemma_first_rib(v, a, k);
    }
}

proof fn lemma_rib_index_is(v: Seq<(IpModel, Seq<RowModel>)>, a: IpModel, k: int)
    requires
        0 <= k < v.len(),
        v[k].0 == a,
        forall|j: int| 0 <= j < k ==> (#[trigger] v[j]).0 != a,
    ensures
        rib_index(v, a) == Some(k),
{
    lemma_rib_index_found(v, a);
    let c = rib_index(v, a)->0;
    if c < k {
        assert(v[c].0 != a);
    }
    if k < c {
        assert(v[k].0 != a);
    }
}

/// Setting one peer's table: reading that peer's routes gives the rows set,
/// and every other peer's routes are unchanged.
pub proof fn lemma_rows_of_put_rib(v: Seq<(IpModel, Seq<RowModel>)>, a: IpModel, rows: Seq<RowModel>, b: IpModel)
    ensures
        rows_of(put_rib(v, a, rows), a) == rows,
        b != a ==> rows_of(put_rib(v, a, rows), b) == rows_of(v, b),
{
    lemma_rib_index_found(v, a);
    lemma_rib_index_found(v, b);
    let w = put_rib(v, a, rows);
    let k = match rib_index(v, a) {
        Some(i) => i,
        None => v.len() as int,
    };
    assert(w[k] == (a, rows));
    assert forall|j: int| 0 <= j < k implies (#[trigger] w[j]).0 != a by {
        assert(w[j] == v[j]);
    }
    lemma_rib_index_is(w, a, k);
    if b != a {
        match rib_index(v, b) {
            Some(i) => {
                assert(i != k);
                assert forall|j: int| 0 <= j < i implies (#[trigger] w[j]).0 != b by {
                    if j != k {
                        assert(w[j] == v[j]);
                    }
                }
                assert(w[i] == v[i]);
                lemma_rib_index_is(w, b, i);
            },
            None => {
                lemma_rib_index_found(w, b);
                assert forall|j: int| 0 <= j < w.len() implies (#[trigger] w[j]).0 != b by {
                    if j != k {
                        assert(w[j] == v[j]);
                    }
                }
            },
        }
    }
}

/// Dropping one peer's table leaves it with no routes.
pub proof fn lemma_rows_of_drop_rib(v: Seq<(IpModel, Seq<RowModel>)>, a: IpModel)
    requires
        forall|i: int, j: int| 0 <= i < v.len() && 0 <= j < v.len() && i != j ==> v[i].0 != v[j].0,
    ensures
        rows_of(drop_rib(v, a), a) == Seq::<RowModel>::empty(),
{
    lemma_rib_index_found(v, a);
    let w = drop_rib(v, a);
    match rib_index(v, a) {
        Some(k) => {
            assert forall|j: int| 0 <= j < w.len() implies (#[trigger] w[j]).0 != a by {
                let oj = if j < k { j } else { j + 1 };
                assert(w[j] == v[oj]);
            }
        },
        None => {},
    }
    lemma_rib_index_found(w, a);
}

/// Drop the tables of the given peers, in order.
pub open spec fn drop_ribs(v: Seq<(IpModel, Seq<RowModel>)>, peers: Seq<PeerModel>) -> Seq<
    (IpModel, Seq<RowModel>),
>
    decreases peers.len(),
{
    if peers.len() == 0 {
        v
    } else {
        drop_rib(drop_ribs(v, peers.drop_last()), peers.last().address)
    }
}

/// The time a message was received.
pub open spec fn msg_time(m: BmpMessage) -> Timestamp {
    Timestamp { secs: m.received_at_secs, nanos: m.received_at_nanos }
}

/// Prefixes with their path ids: `ps` (ids from `ids`), then `extra`
/// (without ids).
pub open spec fn tagged(ps: Seq<Prefix>, ids: Seq<Option<u32>>, extra: Option<Seq<Prefix>>) -> Seq<
    (PrefixModel, Option<u32>),
> {
    let n = ps.len() + match extra {
        Some(e) => e.len(),
        None => 0,
    };
    Seq::new(
        n as nat,
        |i: int|
            if i < ps.len() {
                (ps[i]@, id_at(ids, i))
            } else {
                (extra->0[i - ps.len()]@, None::<u32>)
            },
    )
}

pub proof fn lemma_tagged(ps: Seq<Prefix>, ids: Seq<Option<u32>>, extra: Option<Seq<Prefix>>)
    ensures
        tagged(ps, ids, extra).len() == ps.len() + match extra {
            Some(e) => e.len(),
            None => 0,
        },
        forall|i: int| 0 <= i < ps.len() ==> #[trigger] tagged(ps, ids, extra)[i] == (ps[i]@, id_at(ids, i)),
        forall|i: int|
            ps.len() <= i < tagged(ps, ids, extra).len() ==> #[trigger] tagged(ps, ids, extra)[i] == (
                extra->0[i - ps.len()]@,
                None::<u32>,
            ),
{
}

/// The withdrawn routes of an UPDATE: IPv4 NLRI then MP_UNREACH.
pub open spec fn withdrawn_pairs(u: crate::bgp::update::BgpUpdate) -> Seq<(PrefixModel, Option<u32>)> {
    tagged(
        u.withdrawn@,
        u.withdrawn_path_ids@,
        match u.attributes.mp_unreach {
            Some(m) => Some(m.prefixes@),
            None => None,
        },
    )
}

/// The announced routes of an UPDATE: IPv4 NLRI then MP_REACH.
pub open spec fn announced_pairs(u: crate::bgp::update::BgpUpdate) -> Seq<(PrefixModel, Option<u32>)> {
    tagged(
        u.announced@,
        u.announced_path_ids@,
        match u.attributes.mp_reach {
            Some(m) => Some(m.prefixes@),
            None => None,
        },
    )
}

/// Whether the filter chain (if any) lets an announced route in.
pub open spec fn accepts(
    filters: Option<Seq<CompiledFilter>>,
    p: PrefixModel,
    peer_as: u32,
    peer: IpModel,
    a: &PathAttributes,
) -> bool {
    match filters {
        None => true,
        Some(fs) => chain_result(
            fs,
            p,
            peer_as,
            peer,
            a,
            if exists|i: int| 0 <= i < fs.len() && (#[trigger] fs[i]).compiled_expr is Some {
                Some(route_ctx_model(p, peer_as, "announce"@, a, None))
            } else {
                None
            },
        ).0 != FilterVerdict::Deny,
    }
}

/// The table after the withdrawals `w`, in order.
pub open spec fn withdraw_all(rows: Seq<RowModel>, rib: RibType, w: Seq<(PrefixModel, Option<u32>)>) -> Seq<
    RowModel,
>
    decreases w.len(),
{
    if w.len() == 0 {
        rows
    } else {
        let r = withdraw_all(rows, rib, w.drop_last());
        rows_remove(r, rib, w.last().0, w.last().1)
    }
}

/// The row installed for an announced route.
pub open spec fn announce_row(
    rib: RibType,
    p: PrefixModel,
    pid: Option<u32>,
    a: PathAttributes,
    now: Timestamp,
    peer: IpModel,
    peer_as: u32,
) -> RowModel {
    RowModel {
        rib,
        prefix: p,
        path_id: pid,
        attrs: a,
        received_at: now,
        peer_addr: peer,
        peer_as,
        is_best: true,
        llgr: LlgrState::Normal,
        stale_at: None,
    }
}

/// The table after the announcements `an`, in order: each accepted route is
/// installed, and with a path id its prefix's best path is recomputed.
pub open spec fn announce_all(
    rows: Seq<RowModel>,
    rib: RibType,
    an: Seq<(PrefixModel, Option<u32>)>,
    filters: Option<Seq<CompiledFilter>>,
    a: &PathAttributes,
    now: Timestamp,
    peer: IpModel,
    peer_as: u32,
) -> Seq<RowModel>
    decreases an.len(),
{
    if an.len() == 0 {
        rows
    } else {
        let r = announce_all(rows, rib, an.drop_last(), filters, a, now, peer, peer_as);
        let (p, pid) = an.last();
        if accepts(filters, p, peer_as, peer, a) {
            let r2 = rows_insert(r, announce_row(rib, p, pid, *a, now, peer, peer_as));
            if pid is Some {
                rows_best(r2, rib, p)
            } else {
                r2
            }
        } else {
            r
        }
    }
}

/// One withdrawal event per withdrawn route.
pub open spec fn withdraw_events(w: Seq<(PrefixModel, Option<u32>)>, h: PeerHeader) -> Seq<EventModel> {
    w.map_values(
        |e: (PrefixModel, Option<u32>)|
            EventModel::RouteChange {
                action: RouteAction::Withdraw,
                peer_header: h,
                rib_type: h.rib_type,
                prefix: e.0,
                attributes: None,
            },
    )
}

/// One announcement event per accepted announced route.
pub open spec fn announce_events(
    an: Seq<(PrefixModel, Option<u32>)>,
    h: PeerHeader,
    filters: Option<Seq<CompiledFilter>>,
    a: &PathAttributes,
) -> Seq<EventModel>
    decreases an.len(),
{
    if an.len() == 0 {
        Seq::empty()
    } else {
        let prev = announce_events(an.drop_last(), h, filters, a);
        let p = an.last().0;
        if accepts(filters, p, h.peer_as, h.peer_address@, a) {
            prev.push(
                EventModel::RouteChange {
                    action: RouteAction::Announce,
                    peer_header: h,
                    rib_type: h.rib_type,
                    prefix: p,
                    attributes: Some(*a),
                },
            )
        } else {
            prev
        }
    }
}

/// The capability codes, as decimal texts.
pub open spec fn cap_names(c: Seq<crate::bgp::types::CapabilityModel>) -> Seq<Seq<char>> {
    c.map_values(|x: crate::bgp::types::CapabilityModel| dec(capability_code(x) as nat))
}

/// The session a message applies to: the existing one, or a new one.
pub open spec fn session_or_new(m: ManagerModel, a: IpModel, now: Timestamp) -> SessionModel {
    match session_index(m.speakers, a) {
        Some(i) => m.speakers[i],
        None => new_session_model(a, now),
    }
}

/// After an Initiation: the speaker's session (created if new) takes the
/// system name and description.
pub open spec fn initiation_step(
    m: ManagerModel,
    sp: IpModel,
    now: Timestamp,
    sys_name: Option<Seq<char>>,
    sys_descr: Option<Seq<char>>,
) -> (ManagerModel, Seq<EventModel>) {
    let s = SessionModel { sys_name, sys_descr, ..session_or_new(m, sp, now) };
    (
        ManagerModel { speakers: put_session(m.speakers, sp, s), ..m },
        seq![EventModel::SpeakerUp { sys_name, sys_descr }],
    )
}

/// The reason text of a Termination: its text, else "code=N".
pub open spec fn termination_reason(code: u16, text: Option<Seq<char>>) -> Seq<char> {
    match text {
        Some(t) => t,
        None => "code="@ + dec(code as nat),
    }
}

/// After a Termination: the speaker's session and its peers' tables are
/// dropped.
pub open spec fn termination_step(m: ManagerModel, sp: IpModel, reason: Seq<char>) -> (
    ManagerModel,
    Seq<EventModel>,
) {
    let m2 = match session_index(m.speakers, sp) {
        Some(i) => ManagerModel {
            speakers: m.speakers.remove(i),
            ribs: drop_ribs(m.ribs, m.speakers[i].peers),
        },
        None => m,
    };
    (m2, seq![EventModel::SpeakerDown { reason }])
}

/// After a Peer Up: the peer's session (created if new, in a speaker session
/// created if new) is up with the negotiated values.
pub open spec fn peer_up_step(
    m: ManagerModel,
    sp: IpModel,
    now: Timestamp,
    pu: crate::bmp::types::PeerUpMessage,
) -> (ManagerModel, Seq<EventModel>) {
    let pa = pu.peer_header.peer_address@;
    let s = session_or_new(m, sp, now);
    let p = match peer_model_index(s.peers, pa) {
        Some(j) => s.peers[j],
        None => new_peer_model(pu.peer_header),
    };
    let caps = caps_view(pu.recv_open.capabilities@);
    let p2 = peer_up_model(p, pu.sent_open.asn, pu.recv_open.hold_time, caps, now);
    let s2 = SessionModel { peers: put_peer(s.peers, pa, p2), ..s };
    (
        ManagerModel { speakers: put_session(m.speakers, sp, s2), ..m },
        seq![
            EventModel::PeerUp {
                peer_header: pu.peer_header,
                local_asn: pu.sent_open.asn,
                remote_asn: pu.recv_open.asn,
                hold_time: pu.recv_open.hold_time,
                capabilities: cap_names(caps),
            },
        ],
    )
}

/// After a Peer Down: the peer (if known) is down; with Long-Lived Graceful
/// Restart active its routes are marked stale, otherwise its table is
/// emptied (and created if missing).
pub open spec fn peer_down_step(
    m: ManagerModel,
    sp: IpModel,
    now: Timestamp,
    peer_header: PeerHeader,
    reason: Seq<char>,
) -> (ManagerModel, Seq<EventModel>) {
    let pa = peer_header.peer_address@;
    let found = match session_index(m.speakers, sp) {
        Some(i) => match peer_model_index(m.speakers[i].peers, pa) {
            Some(j) => Some((i, j)),
            None => None,
        },
        None => None,
    };
    let llgr = match found {
        Some((i, j)) => m.speakers[i].peers[j].llgr_active,
        None => false,
    };
    let speakers = match found {
        Some((i, j)) => m.speakers.update(
            i,
            SessionModel {
                peers: m.speakers[i].peers.update(j, peer_down_model(m.speakers[i].peers[j], now)),
                ..m.speakers[i]
            },
        ),
        None => m.speakers,
    };
    let ribs = if llgr {
        match rib_index(m.ribs, pa) {
            Some(k) => m.ribs.update(k, (pa, m.ribs[k].1.map_values(|r: RowModel| stale_row(r, now)))),
            None => m.ribs,
        }
    } else {
        put_rib(m.ribs, pa, Seq::empty())
    };
    (ManagerModel { speakers, ribs }, seq![EventModel::PeerDown { peer_header, reason }])
}

/// Whether an UPDATE is an End-of-RIB marker: nothing announced or withdrawn.
pub open spec fn update_is_eor(u: crate::bgp::update::BgpUpdate) -> bool {
    u.withdrawn@.len() == 0 && u.announced@.len() == 0 && u.attributes.mp_reach is None
        && match u.attributes.mp_unreach {
        None => true,
        Some(x) => x.prefixes@.len() == 0,
    }
}

/// After a Route Monitoring message: an End-of-RIB is reported; otherwise
/// the withdrawals are applied, then the accepted announcements, each with
/// its event.
pub open spec fn route_monitoring_step(
    m: ManagerModel,
    now: Timestamp,
    peer_header: PeerHeader,
    update: crate::bgp::update::BgpUpdate,
    filters: Option<Seq<CompiledFilter>>,
) -> (ManagerModel, Seq<EventModel>) {
    if update_is_eor(update) {
        let afi_safi = match update.attributes.mp_unreach {
            Some(u) => afi_safi_text(u.afi_safi),
            None => "ipv4-unicast"@,
        };
        (m, seq![EventModel::EndOfRib { peer_header, afi_safi }])
    } else {
        let pa = peer_header.peer_address@;
        let rib = peer_header.rib_type;
        let w = withdrawn_pairs(update);
        let an = announced_pairs(update);
        let a = &update.attributes;
        let rows1 = withdraw_all(rows_of(m.ribs, pa), rib, w);
        let rows2 = announce_all(rows1, rib, an, filters, a, now, pa, peer_header.peer_as);
        (
            ManagerModel { ribs: put_rib(m.ribs, pa, rows2), ..m },
            withdraw_events(w, peer_header) + announce_events(an, peer_header, filters, a),
        )
    }
}

/// Whether the peer `pa` of speaker `sp` has long-lived graceful restart
/// active.
pub open spec fn peer_llgr_active(m: ManagerModel, sp: IpModel, pa: IpModel) -> bool {
    match session_index(m.speakers, sp) {
        Some(i) => match peer_model_index(m.speakers[i].peers, pa) {
            Some(j) => m.speakers[i].peers[j].llgr_active,
            None => false,
        },
        None => false,
    }
}

/// A Peer Down for a peer without long-lived graceful restart leaves that
/// peer with no routes, and every other peer's routes as they were.
pub proof fn lemma_peer_down_clears_routes(
    m: ManagerModel,
    sp: IpModel,
    now: Timestamp,
    peer_header: PeerHeader,
    reason: Seq<char>,
    other: IpModel,
)
    requires
        !peer_llgr_active(m, sp, peer_header.peer_address@),
    ensures
        rows_of(peer_down_step(m, sp, now, peer_header, reason).0.ribs, peer_header.peer_address@)
            == Seq::<RowModel>::empty(),
        other != peer_header.peer_address@ ==> rows_of(peer_down_step(m, sp, now, peer_header, reason).0.ribs, other)
            == rows_of(m.ribs, other),
{
    let pa = peer_header.peer_address@;
    assert(peer_down_step(m, sp, now, peer_header, reason).0.ribs == put_rib(m.ribs, pa, Seq::empty()));
    lemma_rows_of_put_rib(m.ribs, pa, Seq::empty(), other);
}

/// A Route Monitoring message changes the routes of its own peer only.
pub proof fn lemma_route_monitoring_touches_own_peer(
    m: ManagerModel,
    now: Timestamp,
    peer_header: PeerHeader,
    update: crate::bgp::update::BgpUpdate,
    filters: Option<Seq<CompiledFilter>>,
    other: IpModel,
)
    requires
        other != peer_header.peer_address@,
    ensures
        rows_of(route_monitoring_step(m, now, peer_header, update, filters).0.ribs, other) == rows_of(m.ribs, other),
{
    let pa = peer_header.peer_address@;
    if !update_is_eor(update) {
        lemma_rows_of_put_rib(
            m.ribs,
            pa,
            announce_all(
                withdraw_all(rows_of(m.ribs, pa), peer_header.rib_type, withdrawn_pairs(update)),
                peer_header.rib_type,
                announced_pairs(update),
                filters,
                &update.attributes,
                now,
                pa,
                peer_header.peer_as,
            ),
            other,
        );
    }
}

/// The engine's state and events after one message.
pub open spec fn process_model(m: ManagerModel, msg: BmpMessage, filters: Option<Seq<CompiledFilter>>) -> (
    ManagerModel,
    Seq<EventModel>,
) {
    let sp = msg.speaker_addr@;
    let now = msg_time(msg);
    match msg.payload {
        BmpPayload::Initiation { sys_name, sys_descr, .. } => initiation_step(
            m,
            sp,
            now,
            opt_chars(sys_name),
            opt_chars(sys_descr),
        ),
        BmpPayload::Termination { reason_code, reason_text } => termination_step(
            m,
            sp,
            termination_reason(reason_code, opt_chars(reason_text)),
        ),
        BmpPayload::PeerUp(pu) => peer_up_step(m, sp, now, pu),
        BmpPayload::PeerDown { peer_header, reason } => peer_down_step(
            m,
            sp,
            now,
            peer_header,
            down_reason_text(reason@),
        ),
        BmpPayload::RouteMonitoring { peer_header, update } => route_monitoring_step(
            m,
            now,
            peer_header,
            update,
            filters,
        ),
        BmpPayload::StatsReport { peer_header, stats } => (
            m,
            seq![EventModel::Stats { peer_header, counters: stats@ }],
        ),
        BmpPayload::RouteMirroring { .. } => (m, Seq::empty()),
    }
}

/// Whether a Peer Up can be counted: a peer that is already up has room for
/// one more flap.
pub open spec fn flap_room(m: ManagerModel, msg: BmpMessage) -> bool {
    match msg.payload {
        BmpPayload::PeerUp(pu) => match session_index(m.speakers, msg.speaker_addr@) {
            Some(i) => match peer_model_index(m.speakers[i].peers, pu.peer_header.peer_address@) {
                Some(j) => m.speakers[i].peers[j].state == PeerState::Up
                    ==> m.speakers[i].peers[j].flap_count < u32::MAX,
                None => true,
            },
            None => true,
        },
        _ => true,
    }
}

// ─── Engine ──────────────────────────────────────────────────────────────────

/// Central RIB engine: owns the speaker sessions and the per-peer tables.
pub struct RibManager {
    speakers: Vec<BmpSession>,
    /// Peer address → route table (a peer is identified by its address
    /// across speakers).
    ribs: Vec<(IpAddress, RibTable)>,
    /// Optional route filter chain.
    filter: Option<FilterEngine>,
}

impl View for RibManager {
    type V = ManagerModel;

    closed spec fn view(&self) -> ManagerModel {
        ManagerModel { speakers: sessions_view(self.speakers@), ribs: ribs_view(self.ribs@) }
    }
}

fn find_session(v: &Vec<BmpSession>, a: &IpAddress) -> (r: Option<usize>)
    ensures
        match r {
            Some(i) => session_index(sessions_view(v@), a@) == Some(i as int) && i < v@.len(),
            None => session_index(sessions_view(v@), a@) is None,
        },
{
    let ghost m = sessions_view(v@);
    let mut i: usize = 0;
    while i < v.len()
        invariant
            i <= v@.len(),
            m == sessions_view(v@),
            forall|j: int| 0 <= j < i ==> (#[trigger] m[j]).speaker != a@,
        decreases v@.len() - i,
    {
        if same_ip(&v[i].speaker_addr, a) {
            assert(m[i as int].speaker == a@);
            return Some(i);
        }
        assert(m[i as int].speaker != a@);
        i = i + 1;
    }
    None
}

fn find_rib(v: &Vec<(IpAddress, RibTable)>, a: &IpAddress) -> (r: Option<usize>)
    ensures
        match r {
            Some(i) => rib_index(ribs_view(v@), a@) == Some(i as int) && i < v@.len(),
            None => rib_index(ribs_view(v@), a@) is None,
        },
{
    let ghost m = ribs_view(v@);
    let mut i: usize = 0;
    while i < v.len()
        invariant
            i <= v@.len(),
            m == ribs_view(v@),
            forall|j: int| 0 <= j < i ==> (#[trigger] m[j]).0 != a@,
        decreases v@.len() - i,
    {
        if same_ip(&v[i].0, a) {
            assert(m[i as int].0 == a@);
            return Some(i);
        }
        assert(m[i as int].0 != a@);
        i = i + 1;
    }
    None
}

fn clone_opt_string(o: &Option<String>) -> (r: Option<String>)
    ensures
        opt_chars(r) == opt_chars(*o),
{
    match o {
        Some(s) => Some(s.clone()),
        None => None,
    }
}

impl RibManager {
    /// The filter chain in use, if any.
    pub closed spec fn filters(&self) -> Option<Seq<CompiledFilter>> {
        match self.filter {
            Some(e) => Some(e.filters()),
            None => None,
        }
    }

    /// An engine with no sessions, no tables and no filter.
    pub fn new() -> (r: RibManager)
        ensures
            r@.speakers.len() == 0,
            r@.ribs.len() == 0,
            r.filters() is None,
    {
        RibManager { speakers: Vec::new(), ribs: Vec::new(), filter: None }
    }

    /// Replaces the filter chain.
    pub fn set_filter(&mut self, engine: FilterEngine)
        ensures
            final(self)@ == old(self)@,
            final(self).filters() == Some(engine.filters()),
    {
        self.filter = Some(engine);
    }

    /// Removes the filter chain (every route is accepted).
    pub fn clear_filter(&mut self)
        ensures
            final(self)@ == old(self)@,
            final(self).filters() is None,
    {
        self.filter = None;
    }
}


impl RibManager {
    fn on_initiation(
        &mut self,
        speaker: IpAddress,
        now: Timestamp,
        sys_name: Option<String>,
        sys_descr: Option<String>,
    ) -> (r: Vec<RibEventPayload>)
        ensures
            (final(self)@, events_view(r@)) == initiation_step(
                old(self)@,
                speaker@,
                now,
                opt_chars(sys_name),
                opt_chars(sys_descr),
            ),
            final(self).filters() == old(self).filters(),
    {
        let ev_name = clone_opt_string(&sys_name);
        let ev_descr = clone_opt_string(&sys_descr);
        let ghost old_v = sessions_view(self.speakers@);
        match find_session(&self.speakers, &speaker) {
            Some(i) => {
                let mut s = self.speakers.remove(i);
                s.sys_name = sys_name;
                s.sys_descr = sys_descr;
                let ghost sm = s@;
                self.speakers.insert(i, s);
                assert(sessions_view(self.speakers@) =~= old_v.update(i as int, sm));
            },
            None => {
                let mut s = BmpSession::new(speaker, now);
                s.sys_name = sys_name;
                s.sys_descr = sys_descr;
                assert(peers_view(s.peers@) =~= Seq::<PeerModel>::empty());
                let ghost sm = s@;
                self.speakers.push(s);
                assert(sessions_view(self.speakers@) =~= old_v.push(sm));
            },
        }
        let mut events: Vec<RibEventPayload> = Vec::new();
        events.push(RibEventPayload::SpeakerUp { sys_name: ev_name, sys_descr: ev_descr });
        assert(events_view(events@) =~= seq![
            EventModel::SpeakerUp { sys_name: opt_chars(sys_name), sys_descr: opt_chars(sys_descr) },
        ]);
        events
    }

    /// Drops the tables of the given peers, in order.
    fn drop_ribs_of(&mut self, peers: &Vec<PeerSession>)
        ensures
            ribs_view(final(self).ribs@) == drop_ribs(ribs_view(old(self).ribs@), peers_view(peers@)),
            final(self).speakers == old(self).speakers,
            final(self).filter == old(self).filter,
    {
        let ghost pv = peers_view(peers@);
        let mut k: usize = 0;
        while k < peers.len()
            invariant
                k <= peers@.len(),
                pv == peers_view(peers@),
                ribs_view(self.ribs@) == drop_ribs(ribs_view(old(self).ribs@), pv.subrange(0, k as int)),
                self.speakers == old(self).speakers,
                self.filter == old(self).filter,
            decreases peers@.len() - k,
        {
            proof {
                assert(pv.subrange(0, k + 1).drop_last() =~= pv.subrange(0, k as int));
                assert(pv.subrange(0, k + 1).last() == pv[k as int]);
            }
            let ghost before = ribs_view(self.ribs@);
            match find_rib(&self.ribs, &peers[k].peer_address) {
                Some(i) => {
                    self.ribs.remove(i);
                    assert(ribs_view(self.ribs@) =~= before.remove(i as int));
                },
                None => {},
            }
            k = k + 1;
        }
        assert(pv.subrange(0, pv.len() as int) =~= pv);
    }

    fn on_termination(&mut self, speaker: IpAddress, reason_code: u16, reason_text: Option<String>) -> (r:
        Vec<RibEventPayload>)
        ensures
            (final(self)@, events_view(r@)) == termination_step(
                old(self)@,
                speaker@,
                termination_reason(reason_code, opt_chars(reason_text)),
            ),
            final(self).filters() == old(self).filters(),
    {
        let ghost old_v = sessions_view(self.speakers@);
        match find_session(&self.speakers, &speaker) {
            Some(i) => {
                let s = self.speakers.remove(i);
                assert(sessions_view(self.speakers@) =~= old_v.remove(i as int));
                self.drop_ribs_of(&s.peers);
            },
            None => {},
        }
        let reason = match reason_text {
            Some(t) => t,
            None => {
                let mut s = String::new();
                push_text(&mut s, "code=");
                push_dec(&mut s, reason_code as u64);
                s
            },
        };
        let ghost rv = reason@;
        let mut events: Vec<RibEventPayload> = Vec::new();
        events.push(RibEventPayload::SpeakerDown { reason });
        assert(events_view(events@) =~= seq![EventModel::SpeakerDown { reason: rv }]);
        events
    }
}


impl RibManager {
    /// Takes out the session of `speaker` (a new one if there is none).
    fn take_session(&mut self, speaker: IpAddress, now: Timestamp) -> (r: (BmpSession, Option<usize>))
        ensures
            r.0@ == session_or_new(old(self)@, speaker@, now),
            match r.1 {
                Some(i) => session_index(old(self)@.speakers, speaker@) == Some(i as int) && i
                    < old(self).speakers@.len() && sessions_view(final(self).speakers@)
                    == old(self)@.speakers.remove(i as int) && final(self).speakers@.len()
                    == old(self).speakers@.len() - 1,
                None => session_index(old(self)@.speakers, speaker@) is None && final(self).speakers
                    == old(self).speakers,
            },
            final(self).ribs == old(self).ribs,
            final(self).filter == old(self).filter,
    {
        let ghost old_v = sessions_view(self.speakers@);
        match find_session(&self.speakers, &speaker) {
            Some(i) => {
                let s = self.speakers.remove(i);
                assert(sessions_view(self.speakers@) =~= old_v.remove(i as int));
                (s, Some(i))
            },
            None => {
                let s = BmpSession::new(speaker, now);
                assert(peers_view(s.peers@) =~= Seq::<PeerModel>::empty());
                (s, None)
            },
        }
    }

    /// Puts a session back where `take_session` took it from.
    fn put_session_back(&mut self, idx: Option<usize>, sess: BmpSession)
        requires
            idx matches Some(i) ==> i <= old(self).speakers@.len(),
        ensures
            sessions_view(final(self).speakers@) == match idx {
                Some(i) => sessions_view(old(self).speakers@).insert(i as int, sess@),
                None => sessions_view(old(self).speakers@).push(sess@),
            },
            final(self).ribs == old(self).ribs,
            final(self).filter == old(self).filter,
    {
        let ghost old_v = sessions_view(self.speakers@);
        let ghost sm = sess@;
        match idx {
            Some(i) => {
                self.speakers.insert(i, sess);
                assert(sessions_view(self.speakers@) =~= old_v.insert(i as int, sm));
            },
            None => {
                self.speakers.push(sess);
                assert(sessions_view(self.speakers@) =~= old_v.push(sm));
            },
        }
    }

    /// Takes out the table of peer `a` (an empty one if there is none).
    fn take_rib(&mut self, a: &IpAddress) -> (r: (RibTable, Option<usize>))
        ensures
            r.0@ == rows_of(old(self)@.ribs, a@),
            match r.1 {
                Some(i) => rib_index(old(self)@.ribs, a@) == Some(i as int) && i
                    < old(self).ribs@.len() && ribs_view(final(self).ribs@) == old(self)@.ribs.remove(
                    i as int,
                ) && final(self).ribs@.len() == old(self).ribs@.len() - 1,
                None => rib_index(old(self)@.ribs, a@) is None && final(self).ribs == old(self).ribs,
            },
            final(self).speakers == old(self).speakers,
            final(self).filter == old(self).filter,
    {
        let ghost old_r = ribs_view(self.ribs@);
        match find_rib(&self.ribs, a) {
            Some(i) => {
                let e = self.ribs.remove(i);
                assert(ribs_view(self.ribs@) =~= old_r.remove(i as int));
                (e.1, Some(i))
            },
            None => (RibTable::new(), None),
        }
    }

    /// Puts a table back where `take_rib` took it from.
    fn put_rib_back(&mut self, idx: Option<usize>, a: IpAddress, table: RibTable)
        requires
            idx matches Some(i) ==> i <= old(self).ribs@.len(),
        ensures
            ribs_view(final(self).ribs@) == match idx {
                Some(i) => ribs_view(old(self).ribs@).insert(i as int, (a@, table@)),
                None => ribs_view(old(self).ribs@).push((a@, table@)),
            },
            final(self).speakers == old(self).speakers,
            final(self).filter == old(self).filter,
    {
        let ghost old_r = ribs_view(self.ribs@);
        let ghost tm = table@;
        match idx {
            Some(i) => {
                self.ribs.insert(i, (a, table));
                assert(ribs_view(self.ribs@) =~= old_r.insert(i as int, (a@, tm)));
            },
            None => {
                self.ribs.push((a, table));
                assert(ribs_view(self.ribs@) =~= old_r.push((a@, tm)));
            },
        }
    }
}

/// Taking an element out at `i` and putting another in at `i` replaces it.
proof fn lemma_remove_insert<A>(s: Seq<A>, i: int, x: A)
    requires
        0 <= i < s.len(),
    ensures
        s.remove(i).insert(i, x) == s.update(i, x),
{
    assert(s.remove(i).insert(i, x) =~= s.update(i, x));
}

/// A session's peer (a new one if there is none), taken out of the session.
#[verifier::rlimit(40)]
fn take_peer(sess: &mut BmpSession, hdr: &PeerHeader) -> (r: (PeerSession, Option<usize>))
    ensures
        r.0@ == match peer_model_index(old(sess)@.peers, hdr.peer_address@) {
            Some(j) => old(sess)@.peers[j],
            None => new_peer_model(*hdr),
        },
        match r.1 {
            Some(j) => peer_model_index(old(sess)@.peers, hdr.peer_address@) == Some(j as int) && j
                < old(sess).peers@.len() && final(sess)@.peers == old(sess)@.peers.remove(j as int)
                && final(sess).peers@.len() == old(sess).peers@.len() - 1,
            None => peer_model_index(old(sess)@.peers, hdr.peer_address@) is None && final(sess)@
                == old(sess)@,
        },
        final(sess)@.speaker == old(sess)@.speaker,
        final(sess)@.sys_name == old(sess)@.sys_name,
        final(sess)@.sys_descr == old(sess)@.sys_descr,
        final(sess)@.connected_at == old(sess)@.connected_at,
{
    let ghost old_p = peers_view(sess.peers@);
    match find_peer(&sess.peers, &hdr.peer_address) {
        Some(j) => {
            let p = sess.peers.remove(j);
            assert(peers_view(sess.peers@) =~= old_p.remove(j as int));
            (p, Some(j))
        },
        None => (new_peer(hdr), None),
    }
}

fn new_peer(hdr: &PeerHeader) -> (r: PeerSession)
    ensures
        r@ == new_peer_model(*hdr),
{
    let p = PeerSession::new(hdr);
    assert(caps_view(p.capabilities@) =~= Seq::<crate::bgp::types::CapabilityModel>::empty());
    assert(p.route_counts@ =~= Seq::<(RibType, usize)>::empty());
    p
}

/// Puts a peer back where `take_peer` took it from.
fn put_peer_back(sess: &mut BmpSession, idx: Option<usize>, peer: PeerSession)
    requires
        idx matches Some(j) ==> j <= old(sess).peers@.len(),
    ensures
        final(sess)@.peers == match idx {
            Some(j) => old(sess)@.peers.insert(j as int, peer@),
            None => old(sess)@.peers.push(peer@),
        },
        final(sess)@.speaker == old(sess)@.speaker,
        final(sess)@.sys_name == old(sess)@.sys_name,
        final(sess)@.sys_descr == old(sess)@.sys_descr,
        final(sess)@.connected_at == old(sess)@.connected_at,
{
    let ghost old_p = peers_view(sess.peers@);
    let ghost pm = peer@;
    match idx {
        Some(j) => {
            sess.peers.insert(j, peer);
            assert(peers_view(sess.peers@) =~= old_p.insert(j as int, pm));
        },
        None => {
            sess.peers.push(peer);
            assert(peers_view(sess.peers@) =~= old_p.push(pm));
        },
    }
}


/// The capability codes of `caps`, as decimal texts.
fn capability_names(caps: &Vec<crate::bgp::types::BgpCapability>) -> (r: Vec<String>)
    ensures
        texts_of(r@) == cap_names(caps_view(caps@)),
{
    let ghost capsv = caps_view(caps@);
    let mut names: Vec<String> = Vec::new();
    let mut c: usize = 0;
    while c < caps.len()
        invariant
            c <= caps@.len(),
            capsv == caps_view(caps@),
            texts_of(names@) =~= cap_names(capsv.subrange(0, c as int)),
        decreases caps@.len() - c,
    {
        let mut s = String::new();
        push_dec(&mut s, caps[c].code() as u64);
        let ghost sv = s@;
        let ghost before = names@;
        names.push(s);
        proof {
            assert(sv == dec(capability_code(capsv[c as int]) as nat));
            assert(texts_of(names@) =~= texts_of(before).push(sv));
            assert(cap_names(capsv.subrange(0, c + 1)) =~= cap_names(capsv.subrange(0, c as int)).push(sv));
        }
        c = c + 1;
    }
    assert(capsv.subrange(0, capsv.len() as int) =~= capsv);
    names
}

impl RibManager {
    #[verifier::rlimit(40)]
    fn on_peer_up(&mut self, speaker: IpAddress, now: Timestamp, pu: crate::bmp::types::PeerUpMessage) -> (r:
        Vec<RibEventPayload>)
        requires
            match session_index(old(self)@.speakers, speaker@) {
                Some(i) => match peer_model_index(
                    old(self)@.speakers[i].peers,
                    pu.peer_header.peer_address@,
                ) {
                    Some(j) => old(self)@.speakers[i].peers[j].state == PeerState::Up
                        ==> old(self)@.speakers[i].peers[j].flap_count < u32::MAX,
                    None => true,
                },
                None => true,
            },
        ensures
            (final(self)@, events_view(r@)) == peer_up_step(old(self)@, speaker@, now, pu),
            final(self).filters() == old(self).filters(),
    {
        let ghost pu0 = pu;
        let ghost m0 = self@;
        let peer_header = pu.peer_header;
        let names = capability_names(&pu.recv_open.capabilities);
        let caps = pu.recv_open.capabilities;
        let (mut sess, idx) = self.take_session(speaker, now);
        let ghost s0 = sess@;
        let (mut peer, pidx) = take_peer(&mut sess, &peer_header);
        let ghost p0 = peer@;
        peer.on_up(pu.sent_open.asn, pu.recv_open.hold_time, caps, now);
        put_peer_back(&mut sess, pidx, peer);
        proof {
            match pidx {
                Some(j) => lemma_remove_insert(s0.peers, j as int, sess@.peers[j as int]),
                None => {},
            }
            assert(sess@.peers == put_peer(
                s0.peers,
                peer_header.peer_address@,
                peer_up_model(p0, pu0.sent_open.asn, pu0.recv_open.hold_time, caps_view(pu0.recv_open.capabilities@), now),
            ));
        }
        let ghost sm = sess@;
        self.put_session_back(idx, sess);
        proof {
            match idx {
                Some(i) => lemma_remove_insert(m0.speakers, i as int, sm),
                None => {},
            }
        }
        let mut events: Vec<RibEventPayload> = Vec::new();
        events.push(
            RibEventPayload::PeerUp {
                peer_header,
                local_asn: pu.sent_open.asn,
                remote_asn: pu.recv_open.asn,
                hold_time: pu.recv_open.hold_time,
                capabilities: names,
            },
        );
        proof {
            let e = peer_up_step(m0, speaker@, now, pu0);
            assert(events_view(events@) =~= e.1);
            assert(self@.speakers =~= e.0.speakers);
        }
        events
    }

    #[verifier::rlimit(40)]
    fn on_peer_down(
        &mut self,
        speaker: IpAddress,
        now: Timestamp,
        peer_header: PeerHeader,
        reason: crate::bmp::types::PeerDownReason,
    ) -> (r: Vec<RibEventPayload>)
        ensures
            (final(self)@, events_view(r@)) == peer_down_step(
                old(self)@,
                speaker@,
                now,
                peer_header,
                down_reason_text(reason@),
            ),
            final(self).filters() == old(self).filters(),
    {
        let ghost m0 = self@;
        let peer_addr = peer_header.peer_address;
        let reason_str = down_reason_string(&reason);
        let mut llgr = false;
        match find_session(&self.speakers, &speaker) {
            Some(_) => {
                let (mut sess, idx) = self.take_session(speaker, now);
                let ghost s0 = sess@;
                let ghost m1 = self@;
                match find_peer(&sess.peers, &peer_addr) {
                    Some(_) => {
                        let (mut peer, pidx) = take_peer(&mut sess, &peer_header);
                        let ghost p0 = peer@;
                        llgr = peer.llgr_active;
                        peer.on_down(now);
                        proof {
                            assert(peer@.route_counts =~= Seq::<(RibType, usize)>::empty());
                            assert(peer@ == peer_down_model(p0, now));
                        }
                        put_peer_back(&mut sess, pidx, peer);
                        proof {
                            let j = pidx->0 as int;
                            lemma_remove_insert(s0.peers, j, sess@.peers[j]);
                        }
                    },
                    None => {},
                }
                let ghost sm = sess@;
                self.put_session_back(idx, sess);
                proof {
                    lemma_remove_insert(m0.speakers, idx->0 as int, sm);
                }
            },
            None => {},
        }
        let ghost m2 = self@;
        assert(m2.ribs == m0.ribs);
        let (mut table, ridx) = self.take_rib(&peer_addr);
        if llgr {
            if ridx.is_some() {
                table.mark_stale_all(now);
                let ghost tm = table@;
                self.put_rib_back(ridx, peer_addr, table);
                proof {
                    lemma_remove_insert(m2.ribs, ridx->0 as int, (peer_addr@, tm));
                }
            }
        } else {
            table.clear_all();
            let ghost tm = table@;
            self.put_rib_back(ridx, peer_addr, table);
            proof {
                match ridx {
                    Some(k) => lemma_remove_insert(m2.ribs, k as int, (peer_addr@, tm)),
                    None => {},
                }
            }
        }
        let ghost rv = reason_str@;
        let mut events: Vec<RibEventPayload> = Vec::new();
        events.push(RibEventPayload::PeerDown { peer_header, reason: reason_str });
        proof {
            let e = peer_down_step(m0, speaker@, now, peer_header, rv);
            assert(events_view(events@) =~= e.1);
            assert(self@.speakers =~= e.0.speakers);
            assert(self@.ribs =~= e.0.ribs);
        }
        events
    }
}


impl RibManager {
    /// Whether the filter chain (if any) lets the announced route in.
    fn accepted(&self, p: &Prefix, peer_as: u32, peer: &IpAddress, a: &PathAttributes) -> (r: bool)
        ensures
            r == accepts(self.filters(), p@, peer_as, peer@, a),
    {
        match &self.filter {
            Some(engine) => {
                let (v, _) = engine.apply(p, peer_as, peer, a);
                !(v == FilterVerdict::Deny)
            },
            None => true,
        }
    }

    #[verifier::rlimit(60)]
    fn on_route_monitoring(
        &mut self,
        now: Timestamp,
        peer_header: PeerHeader,
        update: crate::bgp::update::BgpUpdate,
    ) -> (r: Vec<RibEventPayload>)
        ensures
            (final(self)@, events_view(r@)) == route_monitoring_step(
                old(self)@,
                now,
                peer_header,
                update,
                old(self).filters(),
            ),
            final(self).filters() == old(self).filters(),
    {
        let ghost m0 = self@;
        let ghost u0 = update;
        let ghost fl = self.filters();
        let mut events: Vec<RibEventPayload> = Vec::new();
        if update.is_eor() {
            let afi_safi = match &update.attributes.mp_unreach {
                Some(u) => u.afi_safi.to_text(),
                None => {
                    let mut s = String::new();
                    push_text(&mut s, "ipv4-unicast");
                    s
                },
            };
            let ghost av = afi_safi@;
            events.push(RibEventPayload::EndOfRib { peer_header, afi_safi });
            assert(events_view(events@) =~= seq![EventModel::EndOfRib { peer_header, afi_safi: av }]);
            return events;
        }
        let pa = peer_header.peer_address;
        let rib = peer_header.rib_type;
        let ghost w = withdrawn_pairs(u0);
        let ghost an = announced_pairs(u0);
        let (mut table, ridx) = self.take_rib(&pa);
        let ghost rows0 = table@;
        let crate::bgp::update::BgpUpdate {
            withdrawn,
            withdrawn_path_ids,
            attributes,
            announced,
            announced_path_ids,
        } = update;
        let attrs: Arc<PathAttributes> = Arc::new(attributes);
        let a: &PathAttributes = &*attrs;
        assert(*a == u0.attributes);
        // Withdrawals.
        let wextra: Option<&Vec<Prefix>> = match &a.mp_unreach {
            Some(m) => Some(&m.prefixes),
            None => None,
        };
        assert(withdrawn == u0.withdrawn && withdrawn_path_ids == u0.withdrawn_path_ids);
        assert(match wextra {
            Some(e) => u0.attributes.mp_unreach is Some && e@ == u0.attributes.mp_unreach->0.prefixes@,
            None => u0.attributes.mp_unreach is None,
        });
        let wl = tagged_prefixes(&withdrawn, &withdrawn_path_ids, wextra);
        let ghost wx: Option<Seq<Prefix>> = match u0.attributes.mp_unreach {
            Some(m) => Some(m.prefixes@),
            None => None,
        };
        assert(w == tagged(u0.withdrawn@, u0.withdrawn_path_ids@, wx));
        proof {
            lemma_tagged(u0.withdrawn@, u0.withdrawn_path_ids@, wx);
        }
        assert(wl@.len() == w.len());
        assert forall|i: int| 0 <= i < w.len() implies (#[trigger] wl@[i]).0@ == w[i].0 && wl@[i].1
            == w[i].1 by {
            if i < withdrawn@.len() {
            } else {
                assert(wl@[i] == (&wextra->0@[i - withdrawn@.len()], None::<u32>));
            }
        }
        let mut k: usize = 0;
        while k < wl.len()
            invariant
                k <= wl@.len(),
                wl@.len() == w.len(),
                w == withdrawn_pairs(u0),
                forall|i: int| 0 <= i < w.len() ==> (#[trigger] wl@[i]).0@ == w[i].0 && wl@[i].1 == w[i].1,
                table@ == withdraw_all(rows0, rib, w.subrange(0, k as int)),
                events_view(events@) == withdraw_events(w.subrange(0, k as int), peer_header),
                rib == peer_header.rib_type,
            decreases wl@.len() - k,
        {
            let (p, pid) = wl[k];
            table.remove_with_path_id(rib, p, pid);
            let ghost before = events@;
            events.push(
                RibEventPayload::RouteChange(
                    RouteChange {
                        action: RouteAction::Withdraw,
                        peer_header,
                        rib_type: rib,
                        prefix: p.clone(),
                        attributes: None,
                    },
                ),
            );
            proof {
                assert(w.subrange(0, k + 1).drop_last() =~= w.subrange(0, k as int));
                assert(w.subrange(0, k + 1).last() == w[k as int]);
                assert(events_view(events@) =~= events_view(before).push(
                    EventModel::RouteChange {
                        action: RouteAction::Withdraw,
                        peer_header,
                        rib_type: peer_header.rib_type,
                        prefix: w[k as int].0,
                        attributes: None,
                    },
                ));
                assert(withdraw_events(w.subrange(0, k + 1), peer_header) =~= withdraw_events(
                    w.subrange(0, k as int),
                    peer_header,
                ).push(
                    EventModel::RouteChange {
                        action: RouteAction::Withdraw,
                        peer_header,
                        rib_type: peer_header.rib_type,
                        prefix: w[k as int].0,
                        attributes: None,
                    },
                ));
            }
            k = k + 1;
        }
        assert(w.subrange(0, w.len() as int) =~= w);
        let ghost rows1 = table@;
        let ghost ev1 = events_view(events@);
        // Announcements.
        let aextra: Option<&Vec<Prefix>> = match &a.mp_reach {
            Some(m) => Some(&m.prefixes),
            None => None,
        };
        assert(announced == u0.announced && announced_path_ids == u0.announced_path_ids);
        assert(match aextra {
            Some(e) => u0.attributes.mp_reach is Some && e@ == u0.attributes.mp_reach->0.prefixes@,
            None => u0.attributes.mp_reach is None,
        });
        let al = tagged_prefixes(&announced, &announced_path_ids, aextra);
        let ghost ax: Option<Seq<Prefix>> = match u0.attributes.mp_reach {
            Some(m) => Some(m.prefixes@),
            None => None,
        };
        assert(an == tagged(u0.announced@, u0.announced_path_ids@, ax));
        proof {
            lemma_tagged(u0.announced@, u0.announced_path_ids@, ax);
        }
        assert(al@.len() == an.len());
        assert forall|i: int| 0 <= i < an.len() implies (#[trigger] al@[i]).0@ == an[i].0 && al@[i].1
            == an[i].1 by {
            if i < announced@.len() {
            } else {
                assert(al@[i] == (&aextra->0@[i - announced@.len()], None::<u32>));
            }
        }
        let mut k: usize = 0;
        while k < al.len()
            invariant
                k <= al@.len(),
                al@.len() == an.len(),
                an == announced_pairs(u0),
                forall|i: int| 0 <= i < an.len() ==> (#[trigger] al@[i]).0@ == an[i].0 && al@[i].1 == an[i].1,
                table@ == announce_all(rows1, rib, an.subrange(0, k as int), fl, a, now, pa@, peer_header.peer_as),
                events_view(events@) == ev1 + announce_events(an.subrange(0, k as int), peer_header, fl, a),
                rib == peer_header.rib_type,
                pa == peer_header.peer_address,
                fl == self.filters(),
                *a == u0.attributes,
                *attrs == *a,
            decreases al@.len() - k,
        {
            let (p, pid) = al[k];
            proof {
                assert(an.subrange(0, k + 1).drop_last() =~= an.subrange(0, k as int));
                assert(an.subrange(0, k + 1).last() == an[k as int]);
            }
            if self.accepted(p, peer_header.peer_as, &pa, a) {
                let entry = RibEntry {
                    prefix: p.clone(),
                    path_id: pid,
                    attributes: share(&attrs),
                    received_at: now,
                    peer_addr: pa,
                    peer_as: peer_header.peer_as,
                    is_best: true,
                    llgr_state: LlgrState::Normal,
                    stale_at: None,
                };
                assert(row_model((rib, entry)) == announce_row(rib, p@, pid, *a, now, pa@, peer_header.peer_as));
                table.insert(rib, entry);
                if pid.is_some() {
                    table.recompute_best_path(rib, p);
                }
                let ghost before = events_view(events@);
                events.push(
                    RibEventPayload::RouteChange(
                        RouteChange {
                            action: RouteAction::Announce,
                            peer_header,
                            rib_type: rib,
                            prefix: p.clone(),
                            attributes: Some(share(&attrs)),
                        },
                    ),
                );
                proof {
                    assert(events_view(events@) =~= before.push(
                        EventModel::RouteChange {
                            action: RouteAction::Announce,
                            peer_header,
                            rib_type: peer_header.rib_type,
                            prefix: an[k as int].0,
                            attributes: Some(*a),
                        },
                    ));
                    assert(ev1 + announce_events(an.subrange(0, k + 1), peer_header, fl, a) =~= (ev1
                        + announce_events(an.subrange(0, k as int), peer_header, fl, a)).push(
                        EventModel::RouteChange {
                            action: RouteAction::Announce,
                            peer_header,
                            rib_type: peer_header.rib_type,
                            prefix: an[k as int].0,
                            attributes: Some(*a),
                        },
                    ));
                }
            }
            k = k + 1;
        }
        assert(an.subrange(0, an.len() as int) =~= an);
        let ghost rows2 = table@;
        let ghost m1 = self@;
        self.put_rib_back(ridx, pa, table);
        proof {
            match ridx {
                Some(i) => lemma_remove_insert(m0.ribs, i as int, (pa@, rows2)),
                None => {},
            }
            let e = route_monitoring_step(m0, now, peer_header, u0, fl);
            assert(self@.ribs =~= e.0.ribs);
            assert(self@.speakers =~= e.0.speakers);
            assert(events_view(events@) =~= e.1);
        }
        events
    }
}


impl RibManager {
    /// Whether `process` can take the message: a Peer Up for a peer that is
    /// already up must leave room to count one more flap.
    pub fn can_process(&self, msg: &BmpMessage) -> (r: bool)
        ensures
            r == flap_room(self@, *msg),
    {
        match &msg.payload {
            BmpPayload::PeerUp(pu) => match find_session(&self.speakers, &msg.speaker_addr) {
                Some(i) => match find_peer(&self.speakers[i].peers, &pu.peer_header.peer_address) {
                    Some(j) => {
                        let p = &self.speakers[i].peers[j];
                        !(p.state == PeerState::Up) || p.flap_count < u32::MAX
                    },
                    None => true,
                },
                None => true,
            },
            _ => true,
        }
    }

    /// Feeds one BMP message into the engine and returns the events of the
    /// state changes it caused, in order (see `process_model`).
    pub fn process(&mut self, msg: BmpMessage) -> (r: Vec<RibEventPayload>)
        requires
            flap_room(old(self)@, msg),
        ensures
            (final(self)@, events_view(r@)) == process_model(old(self)@, msg, old(self).filters()),
            final(self).filters() == old(self).filters(),
    {
        let speaker = msg.speaker_addr;
        let now = Timestamp { secs: msg.received_at_secs, nanos: msg.received_at_nanos };
        match msg.payload {
            BmpPayload::Initiation { sys_name, sys_descr, .. } => self.on_initiation(
                speaker,
                now,
                sys_name,
                sys_descr,
            ),
            BmpPayload::Termination { reason_code, reason_text } => self.on_termination(
                speaker,
                reason_code,
                reason_text,
            ),
            BmpPayload::PeerUp(pu) => self.on_peer_up(speaker, now, pu),
            BmpPayload::PeerDown { peer_header, reason } => self.on_peer_down(
                speaker,
                now,
                peer_header,
                reason,
            ),
            BmpPayload::RouteMonitoring { peer_header, update } => self.on_route_monitoring(
                now,
                peer_header,
                update,
            ),
            BmpPayload::StatsReport { peer_header, stats } => {
                let ghost sv = stats@;
                let mut events: Vec<RibEventPayload> = Vec::new();
                events.push(RibEventPayload::Stats { peer_header, counters: stats });
                assert(events_view(events@) =~= seq![EventModel::Stats { peer_header, counters: sv }]);
                events
            },
            BmpPayload::RouteMirroring { .. } => {
                let events: Vec<RibEventPayload> = Vec::new();
                assert(events_view(events@) =~= Seq::<EventModel>::empty());
                events
            },
        }
    }

    /// Removes the Long-Lived Graceful Restart routes of peer `peer_addr`
    /// whose stale timer ran out at `now`; returns how many were removed.
    pub fn expire_stale_for_peer(&mut self, peer_addr: IpAddress, stale_secs: u32, now: Timestamp) -> (r:
        usize)
        ensures
            final(self)@.speakers == old(self)@.speakers,
            final(self)@.ribs == match rib_index(old(self)@.ribs, peer_addr@) {
                Some(i) => old(self)@.ribs.update(
                    i,
                    (
                        peer_addr@,
                        old(self)@.ribs[i].1.filter(
                            |m: RowModel| !crate::rib::table::stale_expired(m, now, stale_secs),
                        ),
                    ),
                ),
                None => old(self)@.ribs,
            },
            r == match rib_index(old(self)@.ribs, peer_addr@) {
                Some(i) => old(self)@.ribs[i].1.len() - final(self)@.ribs[i].1.len(),
                None => 0,
            },
            final(self).filters() == old(self).filters(),
    {
        let ghost m0 = self@;
        let (mut table, ridx) = self.take_rib(&peer_addr);
        match ridx {
            Some(i) => {
                let n = table.drain_deleted_stale(now, stale_secs);
                let ghost tm = table@;
                self.put_rib_back(ridx, peer_addr, table);
                proof {
                    lemma_remove_insert(m0.ribs, i as int, (peer_addr@, tm));
                }
                n
            },
            None => 0,
        }
    }

    /// The speaker sessions.
    pub fn speakers(&self) -> (r: Vec<&BmpSession>)
        ensures
            r@.len() == self@.speakers.len(),
            forall|i: int| 0 <= i < r@.len() ==> (#[trigger] r@[i])@ == self@.speakers[i],
    {
        let mut out: Vec<&BmpSession> = Vec::new();
        let mut i: usize = 0;
        while i < self.speakers.len()
            invariant
                i <= self.speakers@.len(),
                out@.len() == i,
                forall|k: int| 0 <= k < i ==> (#[trigger] out@[k])@ == sessions_view(self.speakers@)[k],
            decreases self.speakers@.len() - i,
        {
            out.push(&self.speakers[i]);
            i = i + 1;
        }
        out
    }

    /// The session of speaker `addr`.
    pub fn speaker(&self, addr: IpAddress) -> (r: Option<&BmpSession>)
        ensures
            match session_index(self@.speakers, addr@) {
                Some(i) => r matches Some(s) && s@ == self@.speakers[i],
                None => r is None,
            },
    {
        match find_session(&self.speakers, &addr) {
            Some(i) => Some(&self.speakers[i]),
            None => None,
        }
    }

    /// The route table of peer `peer`.
    pub fn rib_for_peer(&self, peer: IpAddress) -> (r: Option<&RibTable>)
        ensures
            match rib_index(self@.ribs, peer@) {
                Some(i) => r matches Some(t) && t@ == self@.ribs[i].1,
                None => r is None,
            },
    {
        match find_rib(&self.ribs, &peer) {
            Some(i) => Some(&self.ribs[i].1),
            None => None,
        }
    }

    /// Number of routes over all tables.
    pub fn total_routes(&self) -> (r: usize)
        requires
            total_rows(self@.ribs) <= usize::MAX,
        ensures
            r == total_rows(self@.ribs),
    {
        let ghost rv = ribs_view(self.ribs@);
        let mut n: usize = 0;
        let mut i: usize = 0;
        while i < self.ribs.len()
            invariant
                i <= self.ribs@.len(),
                rv == ribs_view(self.ribs@),
                total_rows(rv) <= usize::MAX,
                n == total_rows(rv.subrange(0, i as int)),
            decreases self.ribs@.len() - i,
        {
            proof {
                assert(rv.subrange(0, i + 1).drop_last() =~= rv.subrange(0, i as int));
                lemma_total_rows_prefix(rv, i + 1);
            }
            let all = self.ribs[i].1.all_prefixes();
            n = n + all.len();
            i = i + 1;
        }
        assert(rv.subrange(0, rv.len() as int) =~= rv);
        n
    }

    /// Number of peers that are up, over all speakers.
    pub fn total_peers_up(&self) -> (r: usize)
        requires
            total_up(self@.speakers) <= usize::MAX,
        ensures
            r == total_up(self@.speakers),
    {
        let ghost sv = sessions_view(self.speakers@);
        let mut n: usize = 0;
        let mut i: usize = 0;
        while i < self.speakers.len()
            invariant
                i <= self.speakers@.len(),
                sv == sessions_view(self.speakers@),
                total_up(sv) <= usize::MAX,
                n == total_up(sv.subrange(0, i as int)),
            decreases self.speakers@.len() - i,
        {
            proof {
                assert(sv.subrange(0, i + 1).drop_last() =~= sv.subrange(0, i as int));
                lemma_total_up_prefix(sv, i + 1);
                lemma_up_count_view(self.speakers@[i as int].peers@);
            }
            n = n + self.speakers[i].up_peer_count();
            i = i + 1;
        }
        assert(sv.subrange(0, sv.len() as int) =~= sv);
        n
    }
}

/// Number of routes over all tables.
pub open spec fn total_rows(v: Seq<(IpModel, Seq<RowModel>)>) -> nat
    decreases v.len(),
{
    if v.len() == 0 {
        0
    } else {
        total_rows(v.drop_last()) + v.last().1.len()
    }
}

/// Number of peers up, counted over model peers.
pub open spec fn up_models(p: Seq<PeerModel>) -> nat
    decreases p.len(),
{
    if p.len() == 0 {
        0
    } else {
        up_models(p.drop_last()) + if p.last().state == PeerState::Up {
            1nat
        } else {
            0nat
        }
    }
}

/// Number of peers up over all speakers.
pub open spec fn total_up(v: Seq<SessionModel>) -> nat
    decreases v.len(),
{
    if v.len() == 0 {
        0
    } else {
        total_up(v.drop_last()) + up_models(v.last().peers)
    }
}

proof fn lemma_total_rows_prefix(v: Seq<(IpModel, Seq<RowModel>)>, k: int)
    requires
        0 <= k <= v.len(),
    ensures
        total_rows(v.subrange(0, k)) <= total_rows(v),
    decreases v.len() - k,
{
    if k < v.len() {
        lemma_total_rows_prefix(v, k + 1);
        assert(v.subrange(0, k + 1).drop_last() =~= v.subrange(0, k));
    } else {
        assert(v.subrange(0, k) =~= v);
    }
}

proof fn lemma_total_up_prefix(v: Seq<SessionModel>, k: int)
    requires
        0 <= k <= v.len(),
    ensures
        total_up(v.subrange(0, k)) <= total_up(v),
    decreases v.len() - k,
{
    if k < v.len() {
        lemma_total_up_prefix(v, k + 1);
        assert(v.subrange(0, k + 1).drop_last() =~= v.subrange(0, k));
    } else {
        assert(v.subrange(0, k) =~= v);
    }
}

proof fn lemma_up_count_view(p: Seq<PeerSession>)
    ensures
        up_count(p) == up_models(peers_view(p)),
    decreases p.len(),
{
    if p.len() > 0 {
        lemma_up_count_view(p.drop_last());
        assert(peers_view(p).drop_last() =~= peers_view(p.drop_last()));
    }
}

} // verus!
