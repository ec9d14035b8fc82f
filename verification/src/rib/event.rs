//! Events the RIB engine emits on every state change.

use vstd::prelude::*;
use std::sync::Arc;
use crate::bgp::path_attrs::PathAttributes;
use crate::bgp::types::{Prefix, PrefixModel};
use crate::bmp::types::{PeerDownModel, PeerDownReason, PeerHeader, RibType, StatEntry};
use crate::rib::session::opt_chars;
use crate::text::{dec, push_dec, push_text};

verus! {

/// Whether a route was announced or withdrawn.
#[derive(Clone, Copy, Debug, PartialEq, Eq, Structural)]
pub enum RouteAction {
    Announce,
    Withdraw,
}

/// One route change.
#[derive(Debug)]
pub struct RouteChange {
    pub action: RouteAction,
    pub peer_header: PeerHeader,
    pub rib_type: RibType,
    pub prefix: Prefix,
    /// The route's attributes for an announcement; none for a withdrawal.
    pub attributes: Option<Arc<PathAttributes>>,
}

/// What happened.
#[derive(Debug)]
pub enum RibEventPayload {
    /// A BMP speaker connected.
    SpeakerUp { sys_name: Option<String>, sys_descr: Option<String> },
    /// A BMP speaker disconnected.
    SpeakerDown { reason: String },
    /// A BGP peer session came up.
    PeerUp {
        peer_header: PeerHeader,
        local_asn: u32,
        remote_asn: u32,
        hold_time: u16,
        capabilities: Vec<String>,
    },
    /// A BGP peer session went down.
    PeerDown { peer_header: PeerHeader, reason: String },
    /// A route was announced or withdrawn.
    RouteChange(RouteChange),
    /// A statistics report.
    Stats { peer_header: PeerHeader, counters: Vec<StatEntry> },
    /// An End-of-RIB marker.
    EndOfRib { peer_header: PeerHeader, afi_safi: String },
}

/// Model of an event.
pub enum EventModel {
    SpeakerUp { sys_name: Option<Seq<char>>, sys_descr: Option<Seq<char>> },
    SpeakerDown { reason: Seq<char> },
    PeerUp {
        peer_header: PeerHeader,
        local_asn: u32,
        remote_asn: u32,
        hold_time: u16,
        capabilities: Seq<Seq<char>>,
    },
    PeerDown { peer_header: PeerHeader, reason: Seq<char> },
    RouteChange {
        action: RouteAction,
        peer_header: PeerHeader,
        rib_type: RibType,
        prefix: PrefixModel,
        attributes: Option<PathAttributes>,
    },
    Stats { peer_header: PeerHeader, counters: Seq<StatEntry> },
    EndOfRib { peer_header: PeerHeader, afi_safi: Seq<char> },
}

pub open spec fn texts_of(v: Seq<String>) -> Seq<Seq<char>> {
    v.map_values(|s: String| s@)
}

impl View for RibEventPayload {
    type V = EventModel;

    open spec fn view(&self) -> EventModel {
        match self {
            RibEventPayload::SpeakerUp { sys_name, sys_descr } => EventModel::SpeakerUp {
                sys_name: opt_chars(*sys_name),
                sys_descr: opt_chars(*sys_descr),
            },
            RibEventPayload::SpeakerDown { reason } => EventModel::SpeakerDown { reason: reason@ },
            RibEventPayload::PeerUp { peer_header, local_asn, remote_asn, hold_time, capabilities } =>
                EventModel::PeerUp {
                peer_header: *peer_header,
                local_asn: *local_asn,
                remote_asn: *remote_asn,
                hold_time: *hold_time,
                capabilities: texts_of(capabilities@),
            },
            RibEventPayload::PeerDown { peer_header, reason } => EventModel::PeerDown {
                peer_header: *peer_header,
                reason: reason@,
            },
            RibEventPayload::RouteChange(c) => EventModel::RouteChange {
                action: c.action,
                peer_header: c.peer_header,
                rib_type: c.rib_type,
                prefix: c.prefix@,
                attributes: match c.attributes {
                    Some(a) => Some(*a),
                    None => None,
                },
            },
            RibEventPayload::Stats { peer_header, counters } => EventModel::Stats {
                peer_header: *peer_header,
                counters: counters@,
            },
            RibEventPayload::EndOfRib { peer_header, afi_safi } => EventModel::EndOfRib {
                peer_header: *peer_header,
                afi_safi: afi_safi@,
            },
        }
    }
}

pub open spec fn events_view(v: Seq<RibEventPayload>) -> Seq<EventModel> {
    v.map_values(|e: RibEventPayload| e@)
}

/// Bytes as a list of decimal numbers separated by ", ".
pub open spec fn byte_list_text(b: Seq<u8>) -> Seq<char>
    decreases b.len(),
{
    if b.len() == 0 {
        Seq::empty()
    } else if b.len() == 1 {
        dec(b[0] as nat)
    } else {
        byte_list_text(b.drop_last()) + ", "@ + dec(b.last() as nat)
    }
}

pub open spec fn notification_text(n: Option<Seq<u8>>) -> Seq<char> {
    match n {
        None => "None"@,
        Some(b) => "Some(["@ + byte_list_text(b) + "])"@,
    }
}

/// The text of a Peer Down reason, in the form
/// `LocalSystemClosed { notification: Some([6, 2]) }` or `Unknown(7)`.
pub open spec fn down_reason_text(r: PeerDownModel) -> Seq<char> {
    match r {
        PeerDownModel::LocalSystemClosed { notification } => "LocalSystemClosed { notification: "@
            + notification_text(notification) + " }"@,
        PeerDownModel::LocalSystemClosed2 => "LocalSystemClosed2"@,
        PeerDownModel::RemoteSystemClosed { notification } => "RemoteSystemClosed { notification: "@
            + notification_text(notification) + " }"@,
        PeerDownModel::RemoteSystemClosed2 => "RemoteSystemClosed2"@,
        PeerDownModel::PeerDeConfigured => "PeerDeConfigured"@,
        PeerDownModel::VrfDown => "VrfDown"@,
        PeerDownModel::Unknown(c) => "Unknown("@ + dec(c as nat) + ")"@,
    }
}

/// Appends the bytes as decimal numbers separated by ", ".
pub fn push_byte_list(s: &mut String, v: &[u8])
    ensures
        final(s)@ == old(s)@ + byte_list_text(v@),
{
    let ghost start = s@;
    let mut i: usize = 0;
    while i < v.len()
        invariant
            i <= v@.len(),
            s@ == start + byte_list_text(v@.subrange(0, i as int)),
            start == old(s)@,
        decreases v@.len() - i,
    {
        if i > 0 {
            push_text(s, ", ");
        }
        push_dec(s, v[i] as u64);
        proof {
            let w = v@.subrange(0, i + 1);
            assert(w.drop_last() =~= v@.subrange(0, i as int));
            if i == 0 {
                assert(v@.subrange(0, 0) =~= Seq::<u8>::empty());
            }
        }
        i = i + 1;
        assert(s@ =~= start + byte_list_text(v@.subrange(0, i as int)));
    }
    assert(v@.subrange(0, v@.len() as int) =~= v@);
}

fn push_notification(s: &mut String, n: &Option<Vec<u8>>)
    ensures
        final(s)@ == old(s)@ + notification_text(
            match n {
                Some(v) => Some(v@),
                None => None,
            },
        ),
{
    match n {
        None => push_text(s, "None"),
        Some(v) => {
            push_text(s, "Some([");
            push_byte_list(s, v.as_slice());
            push_text(s, "])");
        },
    }
}

/// Renders a Peer Down reason (see `down_reason_text`).
pub fn down_reason_string(r: &PeerDownReason) -> (s: String)
    ensures
        s@ == down_reason_text(r@),
{
    let mut s = String::new();
    match r {
        PeerDownReason::LocalSystemClosed { notification } => {
            push_text(&mut s, "LocalSystemClosed { notification: ");
            push_notification(&mut s, notification);
            push_text(&mut s, " }");
        },
        PeerDownReason::LocalSystemClosed2 => push_text(&mut s, "LocalSystemClosed2"),
        PeerDownReason::RemoteSystemClosed { notification } => {
            push_text(&mut s, "RemoteSystemClosed { notification: ");
            push_notification(&mut s, notification);
            push_text(&mut s, " }");
        },
        PeerDownReason::RemoteSystemClosed2 => push_text(&mut s, "RemoteSystemClosed2"),
        PeerDownReason::PeerDeConfigured => push_text(&mut s, "PeerDeConfigured"),
        PeerDownReason::VrfDown => push_text(&mut s, "VrfDown"),
        PeerDownReason::Unknown(c) => {
            push_text(&mut s, "Unknown(");
            push_dec(&mut s, *c as u64);
            push_text(&mut s, ")");
        },
    }
    assert(s@ =~= down_reason_text(r@));
    s
}

} // verus!
