use rustybmp::bgp::attributes::BgpsecPath;
use rustybmp::bgp::types::{Ipv4Net, Ipv6Net};
use rustybmp::cidr::IpNetwork;
use rustybmp::enrichment::bgpsec::{BgpsecValidator, BgpsecVerdict};
use rustybmp::enrichment::vrp_cache::{RpkiState, VrpCache, VrpEntry};

/// An IPv4 network from "a.b.c.d/len" text.
fn net(s: &str) -> IpNetwork {
    let (addr, len) = s.split_once('/').unwrap();
    let o: Vec<u8> = addr.split('.').map(|x| x.parse().unwrap()).collect();
    IpNetwork::V4(Ipv4Net { addr: [o[0], o[1], o[2], o[3]], prefix_len: len.parse().unwrap() })
}

/// The IPv6 network 2001:db8:`third`::/`len`.
fn net6(third: u8, len: u8) -> IpNetwork {
    let mut a = [0u8; 16];
    a[0] = 0x20;
    a[1] = 0x01;
    a[2] = 0x0d;
    a[3] = 0xb8;
    a[5] = third;
    IpNetwork::V6(Ipv6Net { addr: a, prefix_len: len })
}

fn dummy_bgpsec(asns: Vec<u32>) -> BgpsecPath {
    BgpsecPath { signing_asns: asns, sig_block_count: 1, raw: vec![0u8; 4] }
}

#[test]
fn absent_when_empty_raw() {
    let v = BgpsecValidator::new();
    let b = BgpsecPath { signing_asns: vec![], sig_block_count: 0, raw: vec![] };
    assert_eq!(v.validate_path(&b, None), BgpsecVerdict::Absent);
}

#[test]
fn not_found_when_cert_missing() {
    let v = BgpsecValidator::new();
    let b = dummy_bgpsec(vec![65001]);
    assert!(matches!(v.validate_path(&b, None), BgpsecVerdict::NotFound { missing_asn: 65001 }));
}

#[test]
fn valid_with_loaded_cert() {
    let mut v = BgpsecValidator::new();
    v.load_raw_key(65001, vec![0u8; 65]).unwrap();
    let b = dummy_bgpsec(vec![65001]);
    assert_eq!(v.validate_path(&b, None), BgpsecVerdict::Valid);
}

#[test]
fn bad_raw_key_rejected() {
    let mut v = BgpsecValidator::new();
    assert!(v.load_raw_key(65001, vec![0u8; 32]).is_err());
}

#[test]
fn malformed_when_no_signing_as() {
    let v = BgpsecValidator::new();
    let b = BgpsecPath { signing_asns: vec![], sig_block_count: 0, raw: vec![1, 2] };
    assert_eq!(v.validate_path(&b, None), BgpsecVerdict::Malformed);
}

#[test]
fn bad_certificate_rejected() {
    let mut v = BgpsecValidator::new();
    assert!(v.load_router_cert(65001, &[0u8, 1, 2]).is_err());
    assert_eq!(v.cert_count(), 0);
}

#[test]
fn test_valid_exact() {
    let mut cache = VrpCache::new();
    cache.reset(vec![VrpEntry { prefix: net("192.0.2.0/24"), max_len: 24, origin_asn: 64496 }], 1);
    assert_eq!(cache.validate(&net("192.0.2.0/24"), 64496), RpkiState::Valid);
}

#[test]
fn test_valid_more_specific_within_maxlen() {
    let mut cache = VrpCache::new();
    cache.reset(vec![VrpEntry { prefix: net("192.0.2.0/24"), max_len: 25, origin_asn: 64496 }], 1);
    assert_eq!(cache.validate(&net("192.0.2.0/25"), 64496), RpkiState::Valid);
}

#[test]
fn test_invalid_wrong_origin() {
    let mut cache = VrpCache::new();
    cache.reset(vec![VrpEntry { prefix: net("192.0.2.0/24"), max_len: 24, origin_asn: 64496 }], 1);
    assert_eq!(cache.validate(&net("192.0.2.0/24"), 64500), RpkiState::Invalid);
}

#[test]
fn test_invalid_exceeds_maxlen() {
    let mut cache = VrpCache::new();
    cache.reset(vec![VrpEntry { prefix: net("192.0.2.0/24"), max_len: 24, origin_asn: 64496 }], 1);
    assert_eq!(cache.validate(&net("192.0.2.0/25"), 64496), RpkiState::Invalid);
}

#[test]
fn test_not_found() {
    let mut cache = VrpCache::new();
    cache.reset(vec![], 1);
    assert_eq!(cache.validate(&net("198.51.100.0/24"), 64497), RpkiState::NotFound);
}

#[test]
fn test_delta_add_remove() {
    let mut cache = VrpCache::new();
    let vrp = VrpEntry { prefix: net("192.0.2.0/24"), max_len: 24, origin_asn: 64496 };
    cache.reset(vec![vrp.clone()], 1);
    assert_eq!(cache.len(), 1);
    cache.apply_delta(vec![], vec![vrp], 2);
    assert_eq!(cache.len(), 0);
    assert_eq!(cache.validate(&net("192.0.2.0/24"), 64496), RpkiState::NotFound);
    assert_eq!(cache.serial(), 2);
}

#[test]
fn vrp_cache_validates_ipv6_networks() {
    let mut cache = VrpCache::new();
    cache.reset(vec![VrpEntry { prefix: net6(0, 32), max_len: 48, origin_asn: 64496 }], 7);
    assert_eq!(cache.validate(&net6(1, 48), 64496), RpkiState::Valid);
    assert_eq!(cache.validate(&net6(1, 49), 64496), RpkiState::Invalid);
    assert_eq!(cache.serial(), 7);
}

