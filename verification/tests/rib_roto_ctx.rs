use rustybmp::bgp::path_attrs::PathAttributes;
use rustybmp::bgp::types::{AsPath, AsPathSegment, Ipv4Net, Origin, Prefix, StandardCommunity};
use rustybmp::bmp::types::RibType;
use rustybmp::net::IpAddress;
use rustybmp::rib::roto_ctx::RouteCtx;

fn ctx() -> RouteCtx {
    let mut a = PathAttributes::default();
    a.as_path = Some(AsPath(vec![AsPathSegment::Sequence(vec![65001, 65001, 64496])]));
    a.local_pref = Some(150);
    a.origin = Some(Origin::Igp);
    a.communities.push(StandardCommunity::new(65000, 100));
    RouteCtx::from_bmp(
        &Prefix::V4(Ipv4Net { addr: [203, 0, 113, 0], prefix_len: 24 }),
        65001,
        IpAddress::V4([10, 0, 0, 1]),
        RibType::AdjRibInPostPolicy,
        "announce",
        &a,
        "valid",
    )
}

#[test]
fn route_context_from_bmp_fields() {
    let c = ctx();
    assert_eq!(c.prefix, "203.0.113.0/24");
    assert_eq!(c.prefix_len, 24);
    assert_eq!(c.afi, "ipv4");
    assert_eq!(c.peer_addr, "10.0.0.1");
    assert_eq!(c.rib_type, "post-policy");
    assert_eq!(c.action, "announce");
    assert_eq!(c.origin_asn, 64496);
    assert!(c.has_prepend);
    assert_eq!(c.local_pref, 150);
    assert_eq!(c.med, 0);
    assert_eq!(c.origin_attr, "igp");
    assert_eq!(c.rpki, "valid");
}

#[test]
fn route_context_queries() {
    let c = ctx();
    assert!(c.community_has("65000:100"));
    assert!(!c.community_has("65000:200"));
    assert!(c.as_path_contains(64496));
    assert!(!c.as_path_contains(1));
    assert!(c.prefix_in_range("203.0.112.0/23"));
    assert!(!c.prefix_in_range("198.51.100.0/24"));
    assert!(!c.prefix_in_range("not-a-prefix"));
}

#[test]
fn default_context_is_empty() {
    let c = RouteCtx::default();
    assert_eq!(c.prefix, "");
    assert_eq!(c.peer_as, 0);
    assert!(c.community_set.is_empty());
}

#[test]
fn as_path_contains_looks_inside_sets_and_confederations() {
    let mut a = PathAttributes::default();
    a.as_path = Some(AsPath(vec![
        AsPathSegment::Sequence(vec![65001]),
        AsPathSegment::AsSet(vec![64512, 64513]),
        AsPathSegment::ConfedSequence(vec![65100, 65101]),
    ]));
    let c = RouteCtx::from_bmp(
        &Prefix::V4(Ipv4Net { addr: [10, 0, 0, 0], prefix_len: 8 }),
        65001,
        IpAddress::V4([192, 0, 2, 1]),
        RibType::AdjRibInPrePolicy,
        "announce",
        &a,
        "unknown",
    );
    assert!(c.as_path_contains(65001));
    assert!(c.as_path_contains(64512));
    assert!(c.as_path_contains(64513));
    assert!(c.as_path_contains(65101));
    assert!(!c.as_path_contains(64999));
    assert!(!c.as_path_contains(6451));
}

#[test]
fn as_path_contains_ignores_numbers_beyond_32_bits() {
    let mut c = RouteCtx::default();
    c.as_path = "4294967296 4294967295".to_string();
    assert!(c.as_path_contains(4294967295));
    assert!(!c.as_path_contains(0));
}
