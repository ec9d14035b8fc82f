use rustybmp::bgp::path_attrs::PathAttributes;
use rustybmp::bgp::types::{Ipv4Net, Prefix, StandardCommunity};
use rustybmp::net::IpAddress;
use rustybmp::rib::filter::{CompiledFilter, FilterAction, FilterEngine, FilterVerdict, RouteFilter};

fn make_attrs(lp: Option<u32>, community: Option<(u16, u16)>) -> PathAttributes {
    let mut a = PathAttributes::default();
    a.local_pref = lp;
    if let Some((asn, val)) = community {
        a.communities.push(StandardCommunity::new(asn, val));
    }
    a
}

fn v4(a: [u8; 4], len: u8) -> Prefix {
    Prefix::V4(Ipv4Net { addr: a, prefix_len: len })
}

fn peer() -> IpAddress {
    IpAddress::V4([10, 0, 0, 1])
}

fn rule(name: &str, action: FilterAction) -> RouteFilter {
    RouteFilter {
        name: name.to_string(),
        action,
        prefix_list: vec![],
        peer_as_list: vec![],
        community_list: vec![],
        peer_addr_list: vec![],
        as_path_contains: vec![],
        local_pref_min: None,
        local_pref_max: None,
        med_max: None,
        expr: None,
    }
}

fn engine_of(rules: Vec<RouteFilter>) -> FilterEngine {
    FilterEngine::from_filters(rules.into_iter().map(|r| CompiledFilter::compile(r, vec![])).collect())
}

#[test]
fn test_deny_bogon_prefix() {
    let mut r = rule("block-rfc1918", FilterAction::Deny);
    r.prefix_list = vec!["10.0.0.0/8".to_string(), "192.168.0.0/16".to_string()];
    let engine = engine_of(vec![r]);
    assert_eq!(engine.len(), 1);

    let attrs = make_attrs(None, None);
    let (v, name) = engine.apply(&v4([10, 1, 2, 0], 24), 65001, &peer(), &attrs);
    assert_eq!(v, FilterVerdict::Deny);
    assert_eq!(name, Some("block-rfc1918"));

    let (v2, _) = engine.apply(&v4([1, 2, 3, 0], 24), 65001, &peer(), &attrs);
    assert_eq!(v2, FilterVerdict::Default);
}

#[test]
fn test_accept_by_peer_as() {
    let mut r = rule("accept-transit", FilterAction::Accept);
    r.peer_as_list = vec![65100];
    let engine = engine_of(vec![r]);
    let attrs = make_attrs(None, None);

    let (v, _) = engine.apply(&v4([5, 5, 5, 0], 24), 65100, &peer(), &attrs);
    assert_eq!(v, FilterVerdict::Accept);

    let (v2, _) = engine.apply(&v4([5, 5, 5, 0], 24), 65200, &peer(), &attrs);
    assert_eq!(v2, FilterVerdict::Default);
}

#[test]
fn test_filter_by_community() {
    let mut r = rule("no-export", FilterAction::Deny);
    r.community_list = vec!["65000:100".to_string()];
    let engine = engine_of(vec![r]);

    let attrs_with = make_attrs(None, Some((65000, 100)));
    let (v, _) = engine.apply(&v4([8, 8, 8, 0], 24), 65001, &peer(), &attrs_with);
    assert_eq!(v, FilterVerdict::Deny);

    let attrs_without = make_attrs(None, None);
    let (v2, _) = engine.apply(&v4([8, 8, 8, 0], 24), 65001, &peer(), &attrs_without);
    assert_eq!(v2, FilterVerdict::Default);
}

#[test]
fn test_local_pref_range() {
    let mut r = rule("high-pref", FilterAction::Accept);
    r.local_pref_min = Some(200);
    let engine = engine_of(vec![r]);

    let (v, _) = engine.apply(&v4([1, 0, 0, 0], 24), 65001, &peer(), &make_attrs(Some(250), None));
    assert_eq!(v, FilterVerdict::Accept);

    let (v2, _) = engine.apply(&v4([1, 0, 0, 0], 24), 65001, &peer(), &make_attrs(Some(100), None));
    assert_eq!(v2, FilterVerdict::Default);
}

#[test]
fn test_empty_engine_default_accept() {
    let engine = FilterEngine::new();
    let attrs = make_attrs(None, None);
    let (v, name) = engine.apply(&v4([0, 0, 0, 0], 0), 1, &peer(), &attrs);
    assert_eq!(v, FilterVerdict::Default);
    assert!(name.is_none());
}

#[test]
fn test_filter_reject_invalid_and_too_specific() {
    let mut r = rule("rpki-invalid-too-specific", FilterAction::Deny);
    r.expr = Some("prefix_len > 24".to_string());
    let engine = engine_of(vec![r]);
    let attrs = make_attrs(None, None);

    let (v, name) = engine.apply(&v4([203, 0, 113, 0], 25), 65001, &peer(), &attrs);
    assert_eq!(v, FilterVerdict::Deny);
    assert_eq!(name, Some("rpki-invalid-too-specific"));

    let (v2, _) = engine.apply(&v4([203, 0, 113, 0], 24), 65001, &peer(), &attrs);
    assert_eq!(v2, FilterVerdict::Default);
}

#[test]
fn test_filter_peer_as_in_expr() {
    let mut r = rule("tag-tier1", FilterAction::Accept);
    r.expr = Some("peer_as IN [701, 1299, 3356]".to_string());
    let engine = engine_of(vec![r]);
    let attrs = make_attrs(None, None);

    let (v, _) = engine.apply(&v4([1, 0, 0, 0], 24), 3356, &peer(), &attrs);
    assert_eq!(v, FilterVerdict::Accept);

    let (v2, _) = engine.apply(&v4([1, 0, 0, 0], 24), 65001, &peer(), &attrs);
    assert_eq!(v2, FilterVerdict::Default);
}

#[test]
fn first_matching_filter_wins() {
    let mut a = rule("first", FilterAction::Tag);
    a.peer_as_list = vec![1];
    let mut b = rule("second", FilterAction::Deny);
    b.peer_as_list = vec![1];
    let engine = engine_of(vec![a, b]);
    let (v, name) = engine.apply(&v4([1, 0, 0, 0], 24), 1, &peer(), &make_attrs(None, None));
    assert_eq!(v, FilterVerdict::Accept);
    assert_eq!(name, Some("first"));
}

#[test]
fn peer_address_list_restricts_matches() {
    let r = rule("from-peer", FilterAction::Deny);
    let engine = FilterEngine::from_filters(vec![CompiledFilter::compile(r, vec![IpAddress::V4([10, 0, 0, 9])])]);
    let attrs = make_attrs(None, None);
    let (v, _) = engine.apply(&v4([1, 0, 0, 0], 24), 1, &peer(), &attrs);
    assert_eq!(v, FilterVerdict::Default);
    let (v2, _) = engine.apply(&v4([1, 0, 0, 0], 24), 1, &IpAddress::V4([10, 0, 0, 9]), &attrs);
    assert_eq!(v2, FilterVerdict::Deny);
}

#[test]
fn unparsable_prefix_text_is_skipped() {
    let mut r = rule("nets", FilterAction::Deny);
    r.prefix_list = vec!["not-a-net".to_string(), "1.0.0.0/8".to_string()];
    let engine = engine_of(vec![r]);
    let (v, _) = engine.apply(&v4([1, 2, 0, 0], 16), 1, &peer(), &make_attrs(None, None));
    assert_eq!(v, FilterVerdict::Deny);
}
