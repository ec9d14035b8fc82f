use std::sync::Arc;

use rustybmp::bgp::path_attrs::PathAttributes;
use rustybmp::bgp::types::{Ipv4Net, Prefix};
use rustybmp::bmp::types::RibType;
use rustybmp::net::IpAddress;
use rustybmp::rib::filter::FilterVerdict;
use rustybmp::rib::roto_ctx::RouteCtx;
use rustybmp::rib::roto_filter::{RotoFilterEngine, RotoFilterStats};
use rustybmp::rib::session::Timestamp;
use rustybmp::rib::table::{RibEntry, RibTable};
use rustybmp::bgp::types::LlgrState;

fn v4(a: [u8; 4], len: u8) -> Prefix {
    Prefix::V4(Ipv4Net { addr: a, prefix_len: len })
}

fn entry(prefix: Prefix, path_id: Option<u32>, local_pref: Option<u32>) -> RibEntry {
    let mut attrs = PathAttributes::default();
    attrs.local_pref = local_pref;
    RibEntry {
        prefix,
        path_id,
        attributes: Arc::new(attrs),
        received_at: Timestamp { secs: 0, nanos: 0 },
        peer_addr: IpAddress::V4([10, 0, 0, 1]),
        peer_as: 65001,
        is_best: false,
        llgr_state: LlgrState::Normal,
        stale_at: None,
    }
}

#[test]
fn test_stats_default() {
    let mut stats = RotoFilterStats::default();
    stats.record(FilterVerdict::Accept, 100);
    stats.record(FilterVerdict::Deny, 200);
    let snap = stats.snapshot();
    assert_eq!(snap.accept_count, 1);
    assert_eq!(snap.deny_count, 1);
    assert_eq!(snap.avg_eval_ns, 150);
}

#[test]
fn test_noop_engine_accepts() {
    let engine = RotoFilterEngine::load("config/filters.roto")
        .expect("noop load should succeed regardless of file existence");
    let ctx = RouteCtx::default();
    assert_eq!(engine.evaluate(&ctx), FilterVerdict::Default);
}

#[test]
fn insert_then_get_and_remove() {
    let mut t = RibTable::new();
    let p = v4([192, 0, 2, 0], 24);
    assert!(t.insert(RibType::LocRib, entry(p.clone(), None, Some(100))));
    assert_eq!(t.count(RibType::LocRib), 1);
    assert_eq!(t.get(RibType::LocRib, &p).unwrap().peer_as, 65001);
    // same key replaces
    assert!(!t.insert(RibType::LocRib, entry(p.clone(), None, Some(200))));
    assert_eq!(t.count(RibType::LocRib), 1);
    assert_eq!(t.get(RibType::LocRib, &p).unwrap().attributes.local_pref, Some(200));
    assert!(t.remove(RibType::LocRib, &p).is_some());
    assert!(t.get(RibType::LocRib, &p).is_none());
    assert!(t.remove(RibType::LocRib, &p).is_none());
}

#[test]
fn ribs_are_kept_apart() {
    let mut t = RibTable::new();
    let p = v4([192, 0, 2, 0], 24);
    t.insert(RibType::LocRib, entry(p.clone(), None, None));
    t.insert(RibType::AdjRibInPrePolicy, entry(p.clone(), None, None));
    assert_eq!(t.count(RibType::LocRib), 1);
    assert_eq!(t.count(RibType::AdjRibInPrePolicy), 1);
    t.clear_rib(RibType::LocRib);
    assert_eq!(t.count(RibType::LocRib), 0);
    assert_eq!(t.count(RibType::AdjRibInPrePolicy), 1);
}

#[test]
fn best_path_prefers_higher_local_pref() {
    let mut t = RibTable::new();
    let p = v4([198, 51, 100, 0], 24);
    t.insert(RibType::AdjRibInPrePolicy, entry(p.clone(), Some(1), Some(100)));
    t.insert(RibType::AdjRibInPrePolicy, entry(p.clone(), Some(2), Some(300)));
    t.recompute_best_path(RibType::AdjRibInPrePolicy, &p);
    let best = t.remove_with_path_id(RibType::AdjRibInPrePolicy, &p, Some(2)).unwrap();
    assert!(best.is_best);
    let other = t.remove_with_path_id(RibType::AdjRibInPrePolicy, &p, Some(1)).unwrap();
    assert!(!other.is_best);
}
