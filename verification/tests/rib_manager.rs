use rustybmp::bgp::path_attrs::PathAttributes;
use rustybmp::bgp::types::{Ipv4Net, Prefix};
use rustybmp::bgp::update::BgpUpdate;
use rustybmp::bmp::types::{BmpMessage, BmpPayload, PeerDownReason, PeerFlags, PeerHeader, PeerType, RibType};
use rustybmp::net::IpAddress;
use rustybmp::rib::event::RibEventPayload;
use rustybmp::rib::manager::RibManager;

fn header(peer: [u8; 4]) -> PeerHeader {
    PeerHeader {
        peer_type: PeerType::GlobalInstance,
        peer_flags: PeerFlags(0),
        peer_distinguisher: [0; 8],
        peer_address: IpAddress::V4(peer),
        peer_as: 65000 + peer[3] as u32,
        peer_bgp_id: peer,
        timestamp_secs: 0,
        timestamp_micros: 0,
        rib_type: RibType::AdjRibInPrePolicy,
    }
}

fn msg(payload: BmpPayload) -> BmpMessage {
    BmpMessage { id: [0; 16], received_at_secs: 100, received_at_nanos: 0, speaker_addr: IpAddress::V4([10, 0, 0, 1]), payload }
}

fn announce(peer: [u8; 4], prefixes: Vec<Prefix>) -> BmpMessage {
    let n = prefixes.len();
    let mut attrs = PathAttributes::default();
    attrs.local_pref = Some(100);
    msg(BmpPayload::RouteMonitoring {
        peer_header: header(peer),
        update: BgpUpdate {
            withdrawn: vec![],
            withdrawn_path_ids: vec![],
            attributes: attrs,
            announced: prefixes,
            announced_path_ids: vec![None; n],
        },
    })
}

fn v4(a: [u8; 4], len: u8) -> Prefix {
    Prefix::V4(Ipv4Net { addr: a, prefix_len: len })
}

fn routes_of(m: &RibManager, peer: [u8; 4]) -> usize {
    m.rib_for_peer(IpAddress::V4(peer)).map(|t| t.count(RibType::AdjRibInPrePolicy)).unwrap_or(0)
}

#[test]
fn announcements_are_stored_per_peer() {
    let mut m = RibManager::new();
    let ev = m.process(announce([192, 0, 2, 1], vec![v4([10, 1, 0, 0], 16), v4([10, 2, 0, 0], 16)]));
    assert_eq!(ev.len(), 2);
    assert!(matches!(ev[0], RibEventPayload::RouteChange(_)));
    m.process(announce([192, 0, 2, 2], vec![v4([10, 3, 0, 0], 16)]));
    assert_eq!(routes_of(&m, [192, 0, 2, 1]), 2);
    assert_eq!(routes_of(&m, [192, 0, 2, 2]), 1);
    assert_eq!(m.total_routes(), 3);
}

#[test]
fn peer_down_clears_only_that_peer() {
    let mut m = RibManager::new();
    m.process(announce([192, 0, 2, 1], vec![v4([10, 1, 0, 0], 16)]));
    m.process(announce([192, 0, 2, 2], vec![v4([10, 3, 0, 0], 16)]));
    let ev = m.process(msg(BmpPayload::PeerDown { peer_header: header([192, 0, 2, 1]), reason: PeerDownReason::PeerDeConfigured }));
    assert!(matches!(ev[0], RibEventPayload::PeerDown { .. }));
    assert_eq!(routes_of(&m, [192, 0, 2, 1]), 0);
    assert_eq!(routes_of(&m, [192, 0, 2, 2]), 1);
}

#[test]
fn withdrawal_removes_the_route() {
    let mut m = RibManager::new();
    m.process(announce([192, 0, 2, 1], vec![v4([10, 1, 0, 0], 16)]));
    let wd = msg(BmpPayload::RouteMonitoring {
        peer_header: header([192, 0, 2, 1]),
        update: BgpUpdate {
            withdrawn: vec![v4([10, 1, 0, 0], 16)],
            withdrawn_path_ids: vec![None],
            attributes: PathAttributes::default(),
            announced: vec![],
            announced_path_ids: vec![],
        },
    });
    let ev = m.process(wd);
    assert_eq!(ev.len(), 1);
    assert_eq!(routes_of(&m, [192, 0, 2, 1]), 0);
}
