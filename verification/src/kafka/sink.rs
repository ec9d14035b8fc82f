//! Where each RIB event is published: its topic suffix and its message key.
//!
//! Speaker events go to `router`, peer events and End-of-RIB to `peer`,
//! statistics to `bmp_stat`, and route changes to `evpn` when their
//! attributes carry EVPN NLRI, else to `ls_node` when they carry BGP-LS,
//! else to `unicast_prefix`.

use vstd::prelude::*;
use crate::kafka::topics::{TOPIC_BGPLS, TOPIC_EVPN, TOPIC_PEER, TOPIC_ROUTER, TOPIC_STATS, TOPIC_UNICAST};
use crate::net::{IpAddress, ip_text};
use crate::rib::event::RibEventPayload;
use crate::rib::roto_ctx::{labels_present, prefix_text, push_prefix_text};
use crate::text::push_text;

verus! {

/// Whether a route change's attributes carry EVPN NLRI.
pub open spec fn carries_evpn(payload: RibEventPayload) -> bool {
    match payload {
        RibEventPayload::RouteChange(rc) => match rc.attributes {
            Some(a) => a.evpn_reach is Some || a.evpn_unreach is Some,
            None => false,
        },
        _ => false,
    }
}

/// Whether a route change's attributes carry BGP-LS NLRI or attributes.
pub open spec fn carries_bgpls(payload: RibEventPayload) -> bool {
    match payload {
        RibEventPayload::RouteChange(rc) => match rc.attributes {
            Some(a) => a.bgpls_reach is Some || a.bgpls_attr is Some,
            None => false,
        },
        _ => false,
    }
}

/// The topic suffix of an event.
pub open spec fn event_topic(payload: RibEventPayload) -> Seq<char> {
    match payload {
        RibEventPayload::SpeakerUp { .. } => "router"@,
        RibEventPayload::SpeakerDown { .. } => "router"@,
        RibEventPayload::PeerUp { .. } => "peer"@,
        RibEventPayload::PeerDown { .. } => "peer"@,
        RibEventPayload::EndOfRib { .. } => "peer"@,
        RibEventPayload::Stats { .. } => "bmp_stat"@,
        RibEventPayload::RouteChange(_) => if carries_evpn(payload) {
            "evpn"@
        } else if carries_bgpls(payload) {
            "ls_node"@
        } else {
            "unicast_prefix"@
        },
    }
}

/// An End-of-RIB event is published on the `peer` topic, the topic of the
/// Peer Up and Peer Down events, and never on `router`, the topic of the
/// speaker events.
pub proof fn lemma_end_of_rib_topic(eor: RibEventPayload, peer: RibEventPayload, speaker: RibEventPayload)
    requires
        eor is EndOfRib,
        peer is PeerUp || peer is PeerDown,
        speaker is SpeakerUp || speaker is SpeakerDown,
    ensures
        event_topic(eor) == "peer"@,
        event_topic(eor) == event_topic(peer),
        event_topic(speaker) == "router"@,
        event_topic(eor) != event_topic(speaker),
{
    reveal_strlit("peer");
    reveal_strlit("router");
    assert("peer"@ != "router"@) by {
        assert("peer"@.len() != "router"@.len());
    }
}

/// The message key of an event from `speaker`: the speaker; with the peer
/// address for peer, End-of-RIB and statistics events; with the peer address
/// and the prefix for route changes.
pub open spec fn event_key(speaker: IpAddress, payload: RibEventPayload) -> Seq<char> {
    let sk = ip_text(speaker);
    match payload {
        RibEventPayload::SpeakerUp { .. } => sk,
        RibEventPayload::SpeakerDown { .. } => sk,
        RibEventPayload::PeerUp { peer_header, .. } => sk + ":"@ + ip_text(peer_header.peer_address),
        RibEventPayload::PeerDown { peer_header, .. } => sk + ":"@ + ip_text(peer_header.peer_address),
        RibEventPayload::EndOfRib { peer_header, .. } => sk + ":"@ + ip_text(peer_header.peer_address),
        RibEventPayload::Stats { peer_header, .. } => sk + ":"@ + ip_text(peer_header.peer_address),
        RibEventPayload::RouteChange(rc) => sk + ":"@ + ip_text(rc.peer_header.peer_address) + ":"@
            + prefix_text(rc.prefix),
    }
}

/// A route change's prefix can be written (each label stack it shows holds
/// a label).
pub open spec fn key_writable(payload: RibEventPayload) -> bool {
    match payload {
        RibEventPayload::RouteChange(rc) => labels_present(rc.prefix),
        _ => true,
    }
}

/// The topic suffix an event is published under.
pub fn event_topic_suffix(payload: &RibEventPayload) -> (r: &'static str)
    ensures
        r@ == event_topic(*payload),
{
    proof {
        reveal_strlit("router");
        reveal_strlit("peer");
        reveal_strlit("bmp_stat");
        reveal_strlit("evpn");
        reveal_strlit("ls_node");
        reveal_strlit("unicast_prefix");
    }
    match payload {
        RibEventPayload::SpeakerUp { .. } | RibEventPayload::SpeakerDown { .. } => TOPIC_ROUTER,
        RibEventPayload::PeerUp { .. } | RibEventPayload::PeerDown { .. } | RibEventPayload::EndOfRib { .. } => TOPIC_PEER,
        RibEventPayload::Stats { .. } => TOPIC_STATS,
        RibEventPayload::RouteChange(rc) => {
            let (has_evpn, has_bgpls) = match &rc.attributes {
                Some(a) => (
                    a.evpn_reach.is_some() || a.evpn_unreach.is_some(),
                    a.bgpls_reach.is_some() || a.bgpls_attr.is_some(),
                ),
                None => (false, false),
            };
            if has_evpn {
                TOPIC_EVPN
            } else if has_bgpls {
                TOPIC_BGPLS
            } else {
                TOPIC_UNICAST
            }
        },
    }
}

/// The message key an event from `speaker` is published with.
pub fn event_message_key(speaker: &IpAddress, payload: &RibEventPayload) -> (r: String)
    requires
        key_writable(*payload),
    ensures
        r@ == event_key(*speaker, *payload),
{
    let mut k = speaker.to_text();
    match payload {
        RibEventPayload::SpeakerUp { .. } | RibEventPayload::SpeakerDown { .. } => {},
        RibEventPayload::PeerUp { peer_header, .. }
        | RibEventPayload::PeerDown { peer_header, .. }
        | RibEventPayload::EndOfRib { peer_header, .. }
        | RibEventPayload::Stats { peer_header, .. } => {
            push_text(&mut k, ":");
            let p = peer_header.peer_address.to_text();
            push_text(&mut k, p.as_str());
        },
        RibEventPayload::RouteChange(rc) => {
            push_text(&mut k, ":");
            let p = rc.peer_header.peer_address.to_text();
            push_text(&mut k, p.as_str());
            push_text(&mut k, ":");
            push_prefix_text(&mut k, &rc.prefix);
        },
    }
    k
}

/// Where an event from `speaker` is published: topic suffix and key.
pub fn dispatch(speaker: &IpAddress, payload: &RibEventPayload) -> (r: (&'static str, String))
    requires
        key_writable(*payload),
    ensures
        r.0@ == event_topic(*payload),
        r.1@ == event_key(*speaker, *payload),
{
    (event_topic_suffix(payload), event_message_key(speaker, payload))
}

} // verus!
