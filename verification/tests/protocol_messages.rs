use rustybmp::bgp::capabilities::parse_capabilities;
use rustybmp::bgp::open::parse_bgp_open;
use rustybmp::bgp::types::{AsPath, AsPathSegment, BgpCapability, Prefix, StandardCommunity};
use rustybmp::bgp::update::parse_bgp_update;
use rustybmp::bgp::types::Ipv4Net;
use rustybmp::cidr::IpNetwork;
use rustybmp::enrichment::annotate::EnrichmentEngine;
use rustybmp::enrichment::rtr::{next_pdu_len, reset_query_pdu, serial_query_pdu, RtrAction, RtrError, RtrSession};
use rustybmp::enrichment::vrp_cache::{RpkiState, VrpCache, VrpEntry};

fn pdu(t: u8, session: u16, body: &[u8]) -> Vec<u8> {
    let len = (8 + body.len()) as u32;
    let mut v = vec![2u8, t];
    v.extend_from_slice(&session.to_be_bytes());
    v.extend_from_slice(&len.to_be_bytes());
    v.extend_from_slice(body);
    v
}

fn ipv4_prefix_pdu(flags: u8, len: u8, max: u8, addr: [u8; 4], asn: u32) -> Vec<u8> {
    let mut body = vec![flags, len, max, 0];
    body.extend_from_slice(&addr);
    body.extend_from_slice(&asn.to_be_bytes());
    pdu(4, 0, &body)
}

#[test]
fn rtr_cache_response_loads_collected_prefixes() {
    let mut s = RtrSession::new();
    assert!(matches!(s.handle_pdu(&pdu(3, 7, &[]), 0), Ok(RtrAction::Nothing)));
    assert!(matches!(s.handle_pdu(&ipv4_prefix_pdu(1, 24, 24, [192, 0, 2, 0], 64496), 0), Ok(RtrAction::Nothing)));
    match s.handle_pdu(&pdu(7, 7, &42u32.to_be_bytes()), 0) {
        Ok(RtrAction::LoadTable { entries, serial }) => {
            assert_eq!(serial, 42);
            assert_eq!(entries.len(), 1);
            assert_eq!(entries[0].origin_asn, 64496);
            assert_eq!(entries[0].max_len, 24);
        }
        _ => panic!("expected LoadTable"),
    }
    // later: an incremental end of data only sets the serial
    assert!(matches!(s.handle_pdu(&pdu(7, 7, &43u32.to_be_bytes()), 0), Ok(RtrAction::SetSerial(43))));
    // a notify asks for a serial query with the session id and the cache's serial
    assert!(matches!(
        s.handle_pdu(&pdu(0, 7, &43u32.to_be_bytes()), 43),
        Ok(RtrAction::SendSerialQuery { session_id: 7, serial: 43 })
    ));
}

#[test]
fn rtr_withdrawal_and_errors() {
    let mut s = RtrSession::new();
    assert!(matches!(s.handle_pdu(&ipv4_prefix_pdu(0, 24, 24, [192, 0, 2, 0], 1), 0), Ok(RtrAction::Withdraw(_))));
    assert!(matches!(s.handle_pdu(&ipv4_prefix_pdu(1, 33, 33, [0, 0, 0, 0], 1), 0), Err(RtrError::BadIpv4Prefix(33))));
    assert!(matches!(s.handle_pdu(&pdu(10, 5, &[]), 0), Err(RtrError::ErrorReport(5))));
    assert!(matches!(s.handle_pdu(&pdu(8, 0, &[]), 0), Ok(RtrAction::SendResetQuery)));
}

#[test]
fn rtr_framing_and_queries() {
    assert!(matches!(next_pdu_len(&[2, 3, 0, 0, 0, 0]), Ok(None)));
    assert!(matches!(next_pdu_len(&[2, 3, 0, 0, 0, 0, 0, 8]), Ok(Some(8))));
    assert!(matches!(next_pdu_len(&[2, 3, 0, 0, 0, 0, 0, 4]), Err(RtrError::PduTooShort(4))));
    assert_eq!(reset_query_pdu(), [2, 2, 0, 0, 0, 0, 0, 8]);
    assert_eq!(serial_query_pdu(0x0102, 0x0A0B0C0D), [2, 1, 1, 2, 0, 0, 0, 12, 10, 11, 12, 13]);
}

#[test]
fn annotation_reports_rpki_state() {
    let mut cache = VrpCache::new();
    cache.reset(vec![VrpEntry { prefix: IpNetwork::V4(Ipv4Net { addr: [192, 0, 2, 0], prefix_len: 24 }), max_len: 24, origin_asn: 64496 }], 3);
    let engine = EnrichmentEngine::new(cache);
    let ann = engine.annotate(&IpNetwork::V4(Ipv4Net { addr: [192, 0, 2, 0], prefix_len: 24 }), 64496);
    assert_eq!(ann.rpki, RpkiState::Valid);
    assert!(!ann.rpki_more_specific);
    assert_eq!(engine.vrp_count(), 1);
    assert_eq!(engine.rtr_serial(), 3);
}

fn bgp_header(len: u16, t: u8) -> Vec<u8> {
    let mut v = vec![0xFFu8; 16];
    v.extend_from_slice(&len.to_be_bytes());
    v.push(t);
    v
}

#[test]
fn update_with_one_announced_prefix() {
    // attributes: ORIGIN IGP, AS_PATH [65001 65002] (2-byte), NEXT_HOP 10.0.0.1
    let attrs: Vec<u8> = vec![
        0x40, 1, 1, 0, //
        0x40, 2, 6, 2, 2, 0xFD, 0xE9, 0xFD, 0xEA, //
        0x40, 3, 4, 10, 0, 0, 1,
    ];
    let nlri = [24u8, 198, 51, 100];
    let total = 19 + 2 + 2 + attrs.len() + nlri.len();
    let mut m = bgp_header(total as u16, 2);
    m.extend_from_slice(&0u16.to_be_bytes());
    m.extend_from_slice(&(attrs.len() as u16).to_be_bytes());
    m.extend_from_slice(&attrs);
    m.extend_from_slice(&nlri);
    let u = parse_bgp_update(&m, false).unwrap();
    assert_eq!(u.announced.len(), 1);
    match &u.announced[0] {
        Prefix::V4(n) => {
            assert_eq!(n.addr, [198, 51, 100, 0]);
            assert_eq!(n.prefix_len, 24);
        }
        _ => panic!("expected an IPv4 prefix"),
    }
    let path = u.attributes.as_path.clone().unwrap();
    assert_eq!(path, AsPath(vec![AsPathSegment::Sequence(vec![65001, 65002])]));
    assert_eq!(path.first_asn(), Some(65001));
    assert_eq!(path.origin_asn(), Some(65002));
    assert!(!path.has_prepending());
    assert!(!path.has_loop());
    assert!(u.withdrawn.is_empty());
}

#[test]
fn open_with_four_byte_asn_capability() {
    // version 4, AS_TRANS, hold 90, id 1.1.1.1, opt params: capability 65 (4-byte ASN 65550)
    let params = [2u8, 6, 65, 4, 0, 1, 0, 14];
    let total = 19 + 10 + params.len();
    let mut m = bgp_header(total as u16, 1);
    m.extend_from_slice(&[4, 0x5B, 0xA0, 0, 90, 1, 1, 1, 1, params.len() as u8]);
    m.extend_from_slice(&params);
    let open = parse_bgp_open(&m).unwrap();
    assert_eq!(open.version, 4);
    assert_eq!(open.hold_time, 90);
    assert_eq!(open.asn, 65550);
    assert!(open.capabilities.iter().any(|c| matches!(c, BgpCapability::FourByteAsn(65550))));
}

#[test]
fn capabilities_route_refresh_and_unknown() {
    // one capabilities parameter holding route refresh and an unknown code;
    // a parameter of another type is skipped
    let caps = parse_capabilities(&[1, 1, 0, 2, 5, 2, 0, 200, 1, 9]).unwrap();
    assert!(matches!(caps[0], BgpCapability::RouteRefresh));
    assert_eq!(caps.len(), 2);
    assert!(matches!(&caps[1], BgpCapability::Unknown { code: 200, data } if data == &vec![9u8]));
}

#[test]
fn well_known_communities() {
    assert_eq!(StandardCommunity::no_export().0, 0xFFFFFF01);
    assert!(StandardCommunity::no_export().is_well_known());
    assert!(!StandardCommunity::new(65000, 1).is_well_known());
    let looped = AsPath(vec![AsPathSegment::Sequence(vec![1, 2, 1])]);
    assert!(looped.has_loop());
    let prepended = AsPath(vec![AsPathSegment::Sequence(vec![1, 1, 2])]);
    assert!(prepended.has_prepending());
}

#[test]
fn short_messages_with_a_bad_marker_are_refused() {
    let m = [0u8; 16];
    assert!(matches!(parse_bgp_update(&m, false), Err(rustybmp::error::Error::InvalidBgpMarker)));
    assert!(matches!(parse_bgp_open(&m[..]), Err(rustybmp::error::Error::InvalidBgpMarker)));
    let mut n = [0xffu8; 18];
    n[3] = 0;
    assert!(matches!(parse_bgp_update(&n, false), Err(rustybmp::error::Error::InvalidBgpMarker)));
    assert!(matches!(parse_bgp_open(&n[..]), Err(rustybmp::error::Error::InvalidBgpMarker)));
}
