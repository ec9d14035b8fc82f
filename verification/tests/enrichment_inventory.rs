use rustybmp::calendar::{epoch_secs, parse_datetime_text, utc_datetime, UtcDateTime};
use rustybmp::enrichment::device_cache::{
    changes_near_query, changes_near_url, cmdb_device_url, netbox_device_url, ChangeQueryError, DeviceCache,
};
use rustybmp::enrichment::netbox::NetboxDevice;
use rustybmp::enrichment::servicenow_cmdb::CmdbDevice;
use rustybmp::net::IpAddress;

const SEC: u64 = 1_000_000_000;

fn ip() -> IpAddress {
    IpAddress::V4([10, 0, 0, 1])
}

#[test]
fn enricher_starts_with_empty_cache() {
    let cache: DeviceCache<NetboxDevice> = DeviceCache::new(900);
    assert_eq!(cache.size(), 0);
}

#[test]
fn cache_clear_works() {
    let mut cache: DeviceCache<NetboxDevice> = DeviceCache::new(900);
    cache.store(
        ip(),
        Some(NetboxDevice { hostname: "test".into(), site: "DC1".into(), role: "PE".into(), model: "ASR".into() }),
        0,
    );
    assert_eq!(cache.size(), 1);
    cache.clear();
    assert_eq!(cache.size(), 0);
}

#[test]
fn enricher_starts_empty() {
    let cache: DeviceCache<CmdbDevice> = DeviceCache::new(900);
    assert_eq!(cache.size(), 0);
}

#[test]
fn cache_clear() {
    let mut cache: DeviceCache<CmdbDevice> = DeviceCache::new(900);
    cache.store(ip(), Some(CmdbDevice { ci_name: "router-1".into(), role: "PE".into(), site: "DC1".into() }), 0);
    assert_eq!(cache.size(), 1);
    cache.clear();
    assert_eq!(cache.size(), 0);
}

#[test]
fn cached_lookup_expires_after_ttl() {
    let mut cache: DeviceCache<CmdbDevice> = DeviceCache::new(900);
    cache.store(ip(), None, 10 * SEC);
    assert!(matches!(cache.lookup(&ip(), 10 * SEC + 899 * SEC), Some(None)));
    assert!(cache.lookup(&ip(), 10 * SEC + 900 * SEC).is_none());
    assert!(cache.lookup(&IpAddress::V4([10, 0, 0, 2]), 10 * SEC).is_none());
    // a clock reading earlier than the lookup counts as no time passed
    assert!(cache.lookup(&ip(), 0).is_some());
}

#[test]
fn storing_again_replaces() {
    let mut cache: DeviceCache<CmdbDevice> = DeviceCache::new(1);
    cache.store(ip(), None, 0);
    cache.store(ip(), Some(CmdbDevice { ci_name: "x".into(), role: "r".into(), site: "s".into() }), 5 * SEC);
    assert_eq!(cache.size(), 1);
    match cache.lookup(&ip(), 5 * SEC) {
        Some(Some(d)) => assert_eq!(d.ci_name, "x"),
        _ => panic!("expected the stored device"),
    }
}

#[test]
fn request_urls() {
    assert_eq!(
        netbox_device_url("https://netbox.example.com//", &ip()),
        "https://netbox.example.com/api/dcim/devices/?primary_ip=10.0.0.1"
    );
    assert_eq!(
        cmdb_device_url("https://test.service-now.com", &ip()),
        "https://test.service-now.com/api/now/table/cmdb_ci_network_gear?ip_address=10.0.0.1&sysparm_limit=1"
    );
    // 2025-06-01 10:00:00 UTC: open changes planned within two hours of it.
    assert_eq!(
        changes_near_url("https://t/", 1748772000).as_deref(),
        Some("https://t/api/now/table/change_request?sysparm_query=state=2^start_date<=2025-06-01 12:00:00^end_date>=2025-06-01 08:00:00")
    );
}

#[test]
fn change_window_crosses_day_month_and_year() {
    // 2024-02-29 23:30:00 UTC, a leap day.
    assert_eq!(
        changes_near_url("https://t", 1709249400).as_deref(),
        Some("https://t/api/now/table/change_request?sysparm_query=state=2^start_date<=2024-03-01 01:30:00^end_date>=2024-02-29 21:30:00")
    );
    // 1999-12-31 23:00:00 UTC.
    assert_eq!(
        changes_near_url("https://t", 946681200).as_deref(),
        Some("https://t/api/now/table/change_request?sysparm_query=state=2^start_date<=2000-01-01 01:00:00^end_date>=1999-12-31 21:00:00")
    );
}

#[test]
fn change_window_outside_four_digit_years() {
    assert_eq!(changes_near_url("https://t", 7199), None);
    assert!(changes_near_url("https://t", 7200).is_some());
    // 9999-12-31 23:00:00 UTC: the window ends in the year 10000.
    assert_eq!(changes_near_url("https://t", 253402297200), None);
    assert_eq!(changes_near_url("https://t", u64::MAX), None);
}

#[test]
fn change_query_from_timestamp_text() {
    assert_eq!(
        changes_near_query("https://t/", "2025-06-01 10:00:00"),
        Ok("https://t/api/now/table/change_request?sysparm_query=state=2^start_date<=2025-06-01 12:00:00^end_date>=2025-06-01 08:00:00".to_string())
    );
    assert_eq!(changes_near_query("https://t", "2025-6-1 10:00:00"), Err(ChangeQueryError::BadTimestamp));
    assert_eq!(changes_near_query("https://t", "2025-02-29 10:00:00"), Err(ChangeQueryError::BadTimestamp));
    assert_eq!(changes_near_query("https://t", "2025-06-01T10:00:00"), Err(ChangeQueryError::BadTimestamp));
    assert_eq!(changes_near_query("https://t", "1969-12-31 23:00:00"), Err(ChangeQueryError::BadTimestamp));
    assert_eq!(changes_near_query("https://t", "1970-01-01 01:00:00"), Err(ChangeQueryError::OutOfRange));
    assert_eq!(changes_near_query("https://t", "9999-12-31 23:00:00"), Err(ChangeQueryError::OutOfRange));
}

#[test]
fn datetime_text_reads_back() {
    let d = parse_datetime_text("2024-02-29 23:30:00").unwrap();
    assert_eq!(d, UtcDateTime { year: 2024, month: 2, day: 29, hour: 23, minute: 30, second: 0 });
    assert_eq!(epoch_secs(&d), 1709249400);
    assert_eq!(utc_datetime(1709249400), Some(d));
    assert_eq!(parse_datetime_text("2024-13-01 00:00:00"), None);
    assert_eq!(parse_datetime_text("2024-01-01 24:00:00"), None);
}
