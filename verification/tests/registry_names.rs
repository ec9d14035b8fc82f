use rustybmp::bgp::bgpls::Srv6SidNlri;
use rustybmp::bmp::types::stat_name;

#[test]
fn srv6_behavior_names_follow_the_registry() {
    assert_eq!(Srv6SidNlri::behavior_name(1), "End");
    assert_eq!(Srv6SidNlri::behavior_name(5), "End.X");
    assert_eq!(Srv6SidNlri::behavior_name(9), "End.T");
    assert_eq!(Srv6SidNlri::behavior_name(14), "End.B6.Encaps");
    assert_eq!(Srv6SidNlri::behavior_name(16), "End.DX6");
    assert_eq!(Srv6SidNlri::behavior_name(17), "End.DX4");
    assert_eq!(Srv6SidNlri::behavior_name(18), "End.DT6");
    assert_eq!(Srv6SidNlri::behavior_name(19), "End.DT4");
    assert_eq!(Srv6SidNlri::behavior_name(20), "End.DT46");
    assert_eq!(Srv6SidNlri::behavior_name(13), "Unknown");
    assert_eq!(Srv6SidNlri::behavior_name(0), "Unknown");
}

#[test]
fn statistics_names_follow_the_registry() {
    assert_eq!(stat_name(0), "prefixes-rejected-by-inbound-policy");
    assert_eq!(stat_name(6), "as-confed-loop-detections");
    assert_eq!(stat_name(7), "adj-rib-in-routes");
    assert_eq!(stat_name(8), "loc-rib-routes");
    assert_eq!(stat_name(13), "duplicate-update-messages");
    assert_eq!(stat_name(17), "per-afi-safi-adj-rib-out-post-policy-routes");
    assert_eq!(stat_name(30), "advanced-statistic-30");
    for t in 0..=38u16 {
        assert_ne!(stat_name(t), "unknown", "type {t}");
    }
    assert_eq!(stat_name(39), "unknown");
}
