use rustybmp::bgp::attributes::{parse_as_path, BgpsecPath};
use rustybmp::bgp::flowspec::decode_flowspec_nlri;
use rustybmp::bgp::srpolicy::{decode_rtc_nlri, decode_srpolicy_nlri, RtcNlri};
use rustybmp::bgp::srv6::parse_prefix_sid;
use rustybmp::bgp::types::{Afi, AsPath, AsPathSegment, Safi, StandardCommunity};
use rustybmp::net::IpAddress;

#[test]
fn parse_as_path_accepts_two_byte_encoding() {
    let buf = [
        2, 2, // AS_SEQUENCE with 2 ASNs
        0xFD, 0x4C, // 64844
        0xFD, 0x4D, // 64845
    ];
    let parsed = parse_as_path(&buf, false).unwrap();
    assert_eq!(parsed, AsPath(vec![AsPathSegment::Sequence(vec![64844, 64845])]));
}

#[test]
fn parse_as_path_falls_back_to_four_byte_encoding() {
    let buf = [
        2, 2, // AS_SEQUENCE with 2 ASNs
        0x00, 0x00, 0xFD, 0x4C, // 64844
        0x00, 0x00, 0xFD, 0x4D, // 64845
    ];
    let parsed = parse_as_path(&buf, false).unwrap();
    assert_eq!(parsed, AsPath(vec![AsPathSegment::Sequence(vec![64844, 64845])]));
}

#[test]
fn parse_as_path_four_byte_set_segment() {
    let buf = [1, 1, 0x00, 0x01, 0x00, 0x00];
    let parsed = parse_as_path(&buf, true).unwrap();
    assert_eq!(parsed, AsPath(vec![AsPathSegment::AsSet(vec![65536])]));
}

#[test]
fn parse_as_path_rejects_unknown_segment_type() {
    let buf = [9, 1, 0x00, 0x01];
    assert!(parse_as_path(&buf, false).is_err());
}

#[test]
fn test_prefix_sid_label_index() {
    // TLV type=1, len=6, flags(1)+reserved(1)+label_index(4)=42
    let buf = [1u8, 0, 6, 0, 0, 0, 0, 0, 42];
    let sid = parse_prefix_sid(&buf).unwrap();
    assert_eq!(sid.label_index, Some(42));
    assert!(sid.srv6_l3_service.is_none());
}

#[test]
fn test_prefix_sid_unknown_tlv_preserved() {
    // TLV type=99, len=2, data
    let buf = [99u8, 0, 2, 0xDE, 0xAD];
    let sid = parse_prefix_sid(&buf).unwrap();
    assert_eq!(sid.raw_tlvs.len(), 1);
    assert_eq!(sid.raw_tlvs[0].0, 99);
}

#[test]
fn test_flowspec_dest_prefix_ipv4() {
    let buf = [5u8, 1, 24, 192, 0, 2];
    let nlris = decode_flowspec_nlri(&buf, false).unwrap();
    assert_eq!(nlris.len(), 1);
    assert_eq!(nlris[0].summary, "dst=192.0.2.0/24");
}

#[test]
fn test_flowspec_protocol_tcp() {
    let buf = [3u8, 3, 0x81, 6];
    let nlris = decode_flowspec_nlri(&buf, false).unwrap();
    assert_eq!(nlris.len(), 1);
    assert!(nlris[0].summary.starts_with("proto=6"));
}

#[test]
fn test_flowspec_tcp_flags() {
    let buf = [3u8, 9, 0x81, 0x02];
    let nlris = decode_flowspec_nlri(&buf, false).unwrap();
    assert_eq!(nlris.len(), 1);
    assert!(nlris[0].summary.starts_with("tcpflags="));
}

#[test]
fn flowspec_empty_buffer_has_no_rules() {
    let nlris = decode_flowspec_nlri(&[], false).unwrap();
    assert!(nlris.is_empty());
}

#[test]
fn test_srpolicy_nlri_ipv4() {
    let mut buf = Vec::new();
    buf.extend_from_slice(&[0, 0, 0, 1]); // distinguisher = 1
    buf.extend_from_slice(&[0, 0, 0x00, 0x64]); // color = 100
    buf.extend_from_slice(&[10, 0, 0, 1]); // endpoint = 10.0.0.1
    let nlris = decode_srpolicy_nlri(&buf, false).unwrap();
    assert_eq!(nlris.len(), 1);
    assert_eq!(nlris[0].distinguisher, 1);
    assert_eq!(nlris[0].color, 100);
    assert_eq!(nlris[0].endpoint.to_text(), "10.0.0.1");
}

#[test]
fn test_srpolicy_nlri_ipv6() {
    let mut buf = Vec::new();
    buf.extend_from_slice(&[0, 0, 0, 2]); // distinguisher = 2
    buf.extend_from_slice(&[0, 0, 0x01, 0xF4]); // color = 500
    let ipv6_bytes: [u8; 16] = [0x20, 0x01, 0x0d, 0xb8, 0, 0, 0, 0, 0, 0, 0, 0, 0, 0, 0, 1];
    buf.extend_from_slice(&ipv6_bytes);
    let nlris = decode_srpolicy_nlri(&buf, true).unwrap();
    assert_eq!(nlris.len(), 1);
    assert_eq!(nlris[0].color, 500);
    assert!(matches!(nlris[0].endpoint, IpAddress::V6(_)));
    assert_eq!(nlris[0].endpoint.to_text(), "2001:db8::1");
}

#[test]
fn test_rtc_wildcard() {
    let buf = vec![0u8]; // prefix_len = 0 → wildcard
    let nlris = decode_rtc_nlri(&buf).unwrap();
    assert_eq!(nlris.len(), 1);
    assert!(matches!(nlris[0], RtcNlri::Wildcard));
}

#[test]
fn test_rtc_specific_with_origin_as() {
    let mut buf = vec![48u8]; // prefix_len = 48
    buf.extend_from_slice(&[0, 0, 0xFD, 0xE8]); // origin_as = 65000
    buf.extend_from_slice(&[0x00, 0x02]); // RT type bytes
    let nlris = decode_rtc_nlri(&buf).unwrap();
    assert_eq!(nlris.len(), 1);
    match &nlris[0] {
        RtcNlri::Specific { origin_as, prefix_len, .. } => {
            assert_eq!(*origin_as, Some(65000));
            assert_eq!(*prefix_len, 48);
        }
        _ => panic!("expected Specific"),
    }
}

#[test]
fn bgpsec_path_value_is_plain_data() {
    let b = BgpsecPath { signing_asns: vec![1, 2], sig_block_count: 1, raw: vec![0u8; 4] };
    assert_eq!(b.signing_asns.len(), 2);
}

#[test]
fn hex_encode_is_lower_case_two_digits_per_byte() {
    assert_eq!(rustybmp::bgp::types::encode(&[0x00, 0xAB, 0x7f]), "00ab7f");
    assert_eq!(rustybmp::bgp::types::encode(&[]), "");
}

#[test]
fn afi_safi_codes_round_trip() {
    for v in [1u16, 2, 25, 16388, 999] {
        assert_eq!(Afi::from_u16(v).as_u16(), v);
    }
    for v in [1u8, 2, 4, 70, 71, 73, 128, 133, 200] {
        assert_eq!(Safi::from_u8(v).as_u8(), v);
    }
}

#[test]
fn community_halves_round_trip() {
    let c = StandardCommunity::new(65000, 100);
    assert_eq!(c.0, 65000 * 65536 + 100);
    assert_eq!(c.asn(), 65000);
    assert_eq!(c.value(), 100);
}
