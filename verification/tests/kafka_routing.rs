use std::sync::Arc;

use rustybmp::bgp::mp::EvpnReachNlri;
use rustybmp::bgp::path_attrs::PathAttributes;
use rustybmp::bgp::types::{Ipv4Net, Prefix};
use rustybmp::bmp::types::{PeerFlags, PeerHeader, PeerType, RibType};
use rustybmp::kafka::sink::{dispatch, event_topic_suffix};
use rustybmp::net::IpAddress;
use rustybmp::rib::event::{RibEventPayload, RouteAction, RouteChange};

fn header() -> PeerHeader {
    PeerHeader {
        peer_type: PeerType::GlobalInstance,
        peer_flags: PeerFlags(0),
        peer_distinguisher: [0; 8],
        peer_address: IpAddress::V4([192, 0, 2, 9]),
        peer_as: 65009,
        peer_bgp_id: [1, 1, 1, 1],
        timestamp_secs: 0,
        timestamp_micros: 0,
        rib_type: RibType::AdjRibInPrePolicy,
    }
}

fn route(attrs: Option<PathAttributes>) -> RibEventPayload {
    RibEventPayload::RouteChange(RouteChange {
        action: RouteAction::Announce,
        peer_header: header(),
        rib_type: RibType::AdjRibInPrePolicy,
        prefix: Prefix::V4(Ipv4Net { addr: [10, 1, 0, 0], prefix_len: 16 }),
        attributes: attrs.map(Arc::new),
    })
}

#[test]
fn speaker_events_go_to_router_keyed_by_speaker() {
    let sp = IpAddress::V4([10, 0, 0, 1]);
    let (topic, key) = dispatch(&sp, &RibEventPayload::SpeakerDown { reason: "x".to_string() });
    assert_eq!(topic, "router");
    assert_eq!(key, "10.0.0.1");
}

#[test]
fn peer_events_go_to_peer_keyed_by_speaker_and_peer() {
    let sp = IpAddress::V4([10, 0, 0, 1]);
    let p = RibEventPayload::PeerDown { peer_header: header(), reason: "gone".to_string() };
    let (topic, key) = dispatch(&sp, &p);
    assert_eq!(topic, "peer");
    assert_eq!(key, "10.0.0.1:192.0.2.9");
}

#[test]
fn unicast_route_change_topic_and_key() {
    let sp = IpAddress::V4([10, 0, 0, 1]);
    let (topic, key) = dispatch(&sp, &route(None));
    assert_eq!(topic, "unicast_prefix");
    assert_eq!(key, "10.0.0.1:192.0.2.9:10.1.0.0/16");
}

#[test]
fn evpn_route_change_goes_to_evpn() {
    let mut a = PathAttributes::default();
    a.evpn_reach = Some(EvpnReachNlri { next_hops: vec![], routes: vec![] });
    assert_eq!(event_topic_suffix(&route(Some(a))), "evpn");
    assert_eq!(event_topic_suffix(&route(Some(PathAttributes::default()))), "unicast_prefix");
}
