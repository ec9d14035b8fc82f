use rustybmp::bgp::bgpls::{decode_bgpls_nlri, parse_bgpls_attribute, BgpLsNlri, BgpLsProtocol};
use rustybmp::bgp::evpn::{decode_evpn_nlri, EvpnRoute};
use rustybmp::bgp::mvpn::{parse_mvpn_nlri, parse_mvpn_nlri_list, MvpnNlri};
use rustybmp::bmp::parser::{parse_bmp_message, DEFAULT_MAX_FRAME};
use rustybmp::bmp::types::BmpPayload;
use rustybmp::error::Error;
use rustybmp::net::IpAddress;

#[test]
fn test_evpn_type6_selective_multicast() {
    // RD(8) + ETag(4) + src_ip_len(1)+src_ip(4) + grp_ip_len(1)+grp_ip(4) + orig_ip_len(1)+orig_ip(4)
    let mut v = vec![];
    v.extend_from_slice(&[0u8; 8]);       // RD
    v.extend_from_slice(&[0, 0, 0, 1]);   // ETag=1
    v.push(32);                            // src_ip_len
    v.extend_from_slice(&[239, 1, 1, 1]); // 239.1.1.1
    v.push(32);                            // grp_ip_len
    v.extend_from_slice(&[232, 0, 0, 1]); // 232.0.0.1
    v.push(32);                            // orig_ip_len
    v.extend_from_slice(&[10, 0, 0, 1]);  // 10.0.0.1
    let mut buf = vec![6u8, v.len() as u8];
    buf.extend_from_slice(&v);
    let routes = decode_evpn_nlri(&buf).unwrap();
    assert_eq!(routes.len(), 1);
    assert_eq!(routes[0].route_type_code(), 6);
    assert_eq!(routes[0].route_type_name(), "selective-multicast-ethernet-tag");
}

#[test]
fn test_evpn_type7_igmp_join() {
    let mut v = vec![];
    v.extend_from_slice(&[0u8; 8]);
    v.extend_from_slice(&[0, 0, 0, 2]);
    v.push(32); v.extend_from_slice(&[1, 1, 1, 1]);
    v.push(32); v.extend_from_slice(&[225, 0, 0, 1]);
    v.push(32); v.extend_from_slice(&[10, 0, 0, 2]);
    let mut buf = vec![7u8, v.len() as u8];
    buf.extend_from_slice(&v);
    let routes = decode_evpn_nlri(&buf).unwrap();
    assert_eq!(routes[0].route_type_code(), 7);
    assert_eq!(routes[0].route_type_name(), "igmp-join-synch");
}

#[test]
fn test_evpn_type9_per_region_ipmsi() {
    let mut v = vec![];
    v.extend_from_slice(&[0u8; 8]);
    v.extend_from_slice(&[0, 0, 0, 5]);
    v.push(32); v.extend_from_slice(&[10, 0, 0, 5]);
    let mut buf = vec![9u8, v.len() as u8];
    buf.extend_from_slice(&v);
    let routes = decode_evpn_nlri(&buf).unwrap();
    assert_eq!(routes[0].route_type_code(), 9);
    assert_eq!(routes[0].route_type_name(), "per-region-i-pmsi");
}

#[test]
fn test_evpn_type11_leaf_ad() {
    // route_key(4) + path_id(4)
    let v = vec![0xAA, 0xBB, 0xCC, 0xDD, 0, 0, 0, 42];
    let mut buf = vec![11u8, v.len() as u8];
    buf.extend_from_slice(&v);
    let routes = decode_evpn_nlri(&buf).unwrap();
    assert_eq!(routes[0].route_type_code(), 11);
    match &routes[0] {
        EvpnRoute::LeafAD { path_id, .. } => assert_eq!(*path_id, 42),
        _ => panic!("expected LeafAD"),
    }
}

#[test]
fn test_evpn_type1_auto_discovery() {
    // RD(8) + ESI(10) + ETag(4) + Label(3) = 25 bytes
    let mut buf = vec![1u8, 25]; // type=1, len=25
    buf.extend_from_slice(&[0u8; 8]);   // RD all zeros
    buf.extend_from_slice(&[0xAA; 10]); // ESI
    buf.extend_from_slice(&[0, 0, 0, 100]); // ETag = 100
    buf.extend_from_slice(&[0, 0xAB, 0xCD]); // label = (0x0ABCD << 4) >> 4 = 0xABCD/... actually raw>>4 = 0x0ABCD
    let routes = decode_evpn_nlri(&buf).unwrap();
    assert_eq!(routes.len(), 1);
    match &routes[0] {
        EvpnRoute::EthernetAutoDiscovery { ethernet_tag, esi, .. } => {
            assert_eq!(*ethernet_tag, 100);
            assert_eq!(esi, &[0xAA; 10]);
        }
        _ => panic!("expected EthernetAutoDiscovery"),
    }
}

#[test]
fn test_evpn_type3_imet() {
    // RD(8) + ETag(4) + IPlen(1) + IPv4(4) = 17 bytes
    let mut buf = vec![3u8, 17]; // type=3, len=17
    buf.extend_from_slice(&[0u8; 8]);    // RD
    buf.extend_from_slice(&[0, 0, 0, 1]); // ETag = 1
    buf.push(32);                          // IPv4
    buf.extend_from_slice(&[10, 0, 0, 1]); // 10.0.0.1
    let routes = decode_evpn_nlri(&buf).unwrap();
    assert_eq!(routes.len(), 1);
    match &routes[0] {
        EvpnRoute::InclusiveMulticastEthernetTag { ethernet_tag, originating_router_ip, .. } => {
            assert_eq!(*ethernet_tag, 1);
            assert_eq!(originating_router_ip.to_text(), "10.0.0.1");
        }
        _ => panic!("expected InclusiveMulticastEthernetTag"),
    }
}

#[test]
fn test_evpn_unknown_type() {
    let buf = vec![99u8, 4, 0xDE, 0xAD, 0xBE, 0xEF];
    let routes = decode_evpn_nlri(&buf).unwrap();
    assert_eq!(routes.len(), 1);
    assert!(matches!(&routes[0], EvpnRoute::Unknown { route_type: 99, .. }));
}

#[test]
fn test_empty_buf_returns_empty() {
    let result = decode_bgpls_nlri(&[]).unwrap();
    assert!(result.is_empty());
}

#[test]
fn test_unknown_nlri_type_preserved() {
    // type=99, len=4, data=0xDEADBEEF
    let buf = [0u8, 99, 0, 4, 0xDE, 0xAD, 0xBE, 0xEF];
    let result = decode_bgpls_nlri(&buf).unwrap();
    assert_eq!(result.len(), 1);
    assert!(matches!(result[0], BgpLsNlri::Unknown { nlri_type: 99, .. }));
}

#[test]
fn test_bgpls_attr_link_metrics_srlg_adjsid() {
    let mut buf = Vec::new();
    // TLV 1095: IGP Metric = 100 (3 bytes)
    buf.extend_from_slice(&1095u16.to_be_bytes());
    buf.extend_from_slice(&3u16.to_be_bytes());
    buf.extend_from_slice(&[0, 0, 100]);
    // TLV 1094: SRLG with two groups: 10, 20
    buf.extend_from_slice(&1094u16.to_be_bytes());
    buf.extend_from_slice(&8u16.to_be_bytes());
    buf.extend_from_slice(&10u32.to_be_bytes());
    buf.extend_from_slice(&20u32.to_be_bytes());
    // TLV 1099: Adjacency SID — flags(1)+weight(1)+reserved(2)+label(3) = 7 bytes
    buf.extend_from_slice(&1099u16.to_be_bytes());
    buf.extend_from_slice(&7u16.to_be_bytes());
    buf.extend_from_slice(&[0x30, 0x01, 0, 0, 0, 0x10, 0x00]); // label = 0x001000 = 4096
    let attr = parse_bgpls_attribute(&buf);
    assert_eq!(attr.link_metric_igp, Some(100));
    assert_eq!(attr.srlg, vec![10, 20]);
    assert_eq!(attr.adj_sid.len(), 1);
    assert_eq!(attr.adj_sid[0].label, 0x001000);
}

#[test]
fn test_bgpls_attr_node_name() {
    let name = b"pe1.example.com";
    let mut buf = Vec::new();
    buf.extend_from_slice(&1026u16.to_be_bytes());
    buf.extend_from_slice(&(name.len() as u16).to_be_bytes());
    buf.extend_from_slice(name);
    let attr = parse_bgpls_attribute(&buf);
    assert_eq!(attr.node_name.as_deref(), Some("pe1.example.com"));
}

#[test]
fn test_bgpls_attr_sr_capabilities() {
    // RFC 9085 §2.1.2: TLV 1034 value = flags(1)+reserved(1)+[range(3)+SID-sub-TLV(5)...]
    // SID sub-TLV: type(1)=1, length(1)=3, value(3)=base label
    let mut buf = Vec::new();
    buf.extend_from_slice(&1034u16.to_be_bytes());
    buf.extend_from_slice(&10u16.to_be_bytes()); // value length = 10
    buf.push(0xC0); // flags: I-flag + V-flag
    buf.push(0);    // reserved
    // Range sub-TLV: type(1)=9, length(1)=3, range(3)=62500 (0x00F424)
    buf.extend_from_slice(&[0, 0xF4, 0x24]); // range bytes (raw, no sub-TLV wrapper used here)
    // SID/Label sub-TLV: type(1)=1, length(1)=3, base(3)=256 (0x000100)
    buf.extend_from_slice(&[1, 3]);           // sub-TLV type=1, len=3
    buf.extend_from_slice(&[0, 0x01, 0x00]);  // base = 256
    let attr = parse_bgpls_attribute(&buf);
    let caps = attr.sr_capabilities.unwrap();
    assert_eq!(caps.flags, 0xC0);
    assert_eq!(caps.srgb_ranges.len(), 1);
    let (base, range) = caps.srgb_ranges[0];
    assert_eq!(range, 62500);
    assert_eq!(base, 256);
}

#[test]
fn test_node_nlri_protocol_identifier() {
    // Build a minimal Node NLRI: type=1, len=13 (9 hdr + 4 empty outer TLV)
    // protocol=3 (OSPFv2), identifier=42
    let mut buf = Vec::new();
    buf.extend_from_slice(&1u16.to_be_bytes());  // type = Node
    buf.extend_from_slice(&13u16.to_be_bytes()); // len
    buf.push(3);                                  // protocol = OSPFv2
    buf.extend_from_slice(&42u64.to_be_bytes());  // identifier
    // outer node descriptor TLV type=256, len=0
    buf.extend_from_slice(&256u16.to_be_bytes());
    buf.extend_from_slice(&0u16.to_be_bytes());
    let result = decode_bgpls_nlri(&buf).unwrap();
    assert_eq!(result.len(), 1);
    match &result[0] {
        BgpLsNlri::Node { protocol, identifier, .. } => {
            assert_eq!(*protocol, BgpLsProtocol::Ospfv2);
            assert_eq!(*identifier, 42);
        }
        _ => panic!("expected Node"),
    }
}

fn speaker() -> IpAddress {
    IpAddress::V4([10, 0, 0, 1])
}

#[test]
fn test_parse_initiation() {
    // BMP Initiation: version=3, len=20, type=4, TLV type=1, len=4, "test"
    let mut msg = vec![3u8, 0, 0, 0, 20, 4];
    // TLV: type=1 (sysName), len=4, "test"
    msg.extend_from_slice(&[0, 1, 0, 4]);
    msg.extend_from_slice(b"test");
    // TLV: type=0 (sysDescr), len=2, "hw"
    msg.extend_from_slice(&[0, 0, 0, 2]);
    msg.extend_from_slice(b"hw");
    let payload = parse_bmp_message(&msg, speaker(), DEFAULT_MAX_FRAME).unwrap();
    match payload {
        BmpPayload::Initiation { sys_name, sys_descr, .. } => {
            assert_eq!(sys_name, Some("test".to_string()));
            assert_eq!(sys_descr, Some("hw".to_string()));
        }
        _ => panic!("expected Initiation"),
    }
}

#[test]
fn test_invalid_version() {
    let msg = vec![2u8, 0, 0, 0, 6, 4];
    assert!(matches!(
        parse_bmp_message(&msg, speaker(), DEFAULT_MAX_FRAME),
        Err(Error::InvalidBmpVersion(2))
    ));
}

#[test]
fn test_frame_too_large() {
    let msg = vec![3u8, 0, 0, 0xFF, 0xFF, 4]; // len = 65535
    assert!(matches!(
        parse_bmp_message(&msg, speaker(), 1000),
        Err(Error::FrameTooLarge(65535, 1000))
    ));
}

#[test]
fn evpn_truncated_route_is_an_error() {
    let buf = vec![3u8, 17, 0, 0];
    assert!(decode_evpn_nlri(&buf).is_err());
}

#[test]
fn bgpls_attr_unknown_tlv_kept_raw() {
    let buf = [0x7F, 0xFF, 0, 1, 9];
    let attr = parse_bgpls_attribute(&buf);
    assert!(attr.node_name.is_none());
    assert!(attr.srlg.is_empty());
}

#[test]
fn bmp_termination_message() {
    // version 3, length 6 + TLV(type 0 reason code, len 2, code 1) + TLV(type 1 text "bye")
    let msg = vec![3u8, 0, 0, 0, 19, 5, 0, 0, 0, 2, 0, 1, 0, 1, 0, 3, b'b', b'y', b'e'];
    match parse_bmp_message(&msg, speaker(), DEFAULT_MAX_FRAME).unwrap() {
        BmpPayload::Termination { reason_code, reason_text } => {
            assert_eq!(reason_code, 1);
            assert_eq!(reason_text, Some("bye".to_string()));
        }
        _ => panic!("expected Termination"),
    }
}

#[test]
fn test_parse_inter_as_ipmsi() {
    let mut buf = vec![2u8, 12];
    buf.extend_from_slice(&[0u8; 8]); // RD
    buf.extend_from_slice(&65001u32.to_be_bytes());
    let (nlri, consumed) = parse_mvpn_nlri(&buf).unwrap();
    assert_eq!(consumed, 14);
    assert_eq!(nlri.route_type(), 2);
    assert_eq!(nlri.route_type_name(), "Inter-AS I-PMSI A-D");
    if let MvpnNlri::InterAsIPmsi { source_as, .. } = nlri {
        assert_eq!(source_as, 65001);
    } else {
        panic!("wrong variant");
    }
}

#[test]
fn test_parse_unknown_type() {
    let buf = vec![99u8, 4, 1, 2, 3, 4];
    let (nlri, consumed) = parse_mvpn_nlri(&buf).unwrap();
    assert_eq!(consumed, 6);
    assert_eq!(nlri.route_type(), 99);
}

#[test]
fn test_parse_list() {
    let mut buf = Vec::new();
    for _ in 0..2 {
        buf.push(2);
        buf.push(12);
        buf.extend_from_slice(&[0u8; 8]);
        buf.extend_from_slice(&65000u32.to_be_bytes());
    }
    let nlris = parse_mvpn_nlri_list(&buf);
    assert_eq!(nlris.len(), 2);
}

#[test]
fn mvpn_length_overrun_message() {
    let buf = vec![2u8, 12, 0, 0];
    match parse_mvpn_nlri(&buf) {
        Err(Error::BgpParse(m)) => assert_eq!(m, "MVPN NLRI type=2 claims 12 bytes but only 2 remain"),
        _ => panic!("expected an error"),
    }
}

#[test]
fn mvpn_list_stops_at_first_bad_route() {
    let mut buf = vec![2u8, 12];
    buf.extend_from_slice(&[0u8; 8]);
    buf.extend_from_slice(&7u32.to_be_bytes());
    buf.extend_from_slice(&[6u8, 2, 0, 0]); // type 6 too short
    let nlris = parse_mvpn_nlri_list(&buf);
    assert_eq!(nlris.len(), 1);
}

#[test]
fn mvpn_source_tree_join_fields() {
    let mut v = vec![7u8, 20];
    v.extend_from_slice(&[0u8; 8]);
    v.extend_from_slice(&65010u32.to_be_bytes());
    v.extend_from_slice(&[10, 0, 0, 1]);
    v.extend_from_slice(&[232, 1, 1, 1]);
    let (nlri, _) = parse_mvpn_nlri(&v).unwrap();
    match nlri {
        MvpnNlri::SourceTreeJoin { source_as, multicast_source, multicast_group, .. } => {
            assert_eq!(source_as, 65010);
            assert_eq!(multicast_source, IpAddress::V4([10, 0, 0, 1]));
            assert_eq!(multicast_group, IpAddress::V4([232, 1, 1, 1]));
        }
        _ => panic!("expected SourceTreeJoin"),
    }
}
