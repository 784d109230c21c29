use fwlog::api::{
    cache_entry_for, ip_region_step, region_name_step, response_from_cache, ColdSearchQuery,
    CustomIpRegion, IpRegionResponse, IpRegionStep, RegionNameStep,
};
use fwlog::cold_search::{
    cold_parquet_file_matches, cold_source_addr, import_archive_name_matches, is_gzip_member,
    is_raw_import_archive, ColdScan,
};
use fwlog::engine::ParserEngine;
use fwlog::event::{ParseStatus, Timestamp};
use fwlog::parquet_search::{parquet_filters, parquet_search};
use fwlog::rollup::hour_metrics;
use fwlog::store::{IpRegionCacheEntry, MinuteMetricPoint};

fn cold_query() -> ColdSearchQuery {
    ColdSearchQuery {
        day: None,
        date_from: None,
        date_to: None,
        device: None,
        device_id: None,
        src_ip: None,
        dst_ip: None,
        protocol: None,
        action: None,
        keyword: None,
        include_failed: false,
        limit: 100,
    }
}

fn columns(names: &[&str]) -> Vec<String> {
    names.iter().map(|n| n.to_string()).collect()
}

#[test]
fn parquet_search_reads_old_archives_with_stand_in_columns() {
    let mut query = cold_query();
    query.protocol = Some("17".to_string());
    query.action = Some("ALLOW".to_string());
    query.day = Some("20260515".to_string());
    let cols = columns(&["ingest_time", "SOURCE_ADDR", "src_ip"]);
    let search = parquet_search("/data/it's.parquet", &cols, &query, 25).unwrap();
    assert_eq!(
        search.values,
        vec!["2026-05-15%".to_string(), "2026-05-15%".to_string(), "UDP".to_string(), "allow".to_string()]
    );
    assert!(search.sql.contains("FROM read_parquet('/data/it''s.parquet')"));
    assert!(search.sql.contains("COALESCE(source_addr, 'parquet:///data/it''s.parquet') AS source_addr"));
    assert!(search.sql.contains("NULL AS device_id"));
    assert!(search.sql.contains("'parquet-' || row_number() OVER () AS event_id"));
    assert!(search.sql.contains(
        "WHERE (COALESCE(ingest_time, '') LIKE ? OR COALESCE(event_time, '') LIKE ?) AND upper(protocol) = ? AND lower(action) = ? AND parse_status <> 'failed'"
    ));
    assert!(search.sql.ends_with("ORDER BY ingest_time DESC LIMIT 25"));
}

#[test]
fn parquet_search_skips_archives_missing_a_filtered_column() {
    let mut query = cold_query();
    query.device_id = Some("fw-1".to_string());
    assert!(parquet_search("/a.parquet", &columns(&["raw"]), &query, 5).is_none());
    assert!(parquet_search("/a.parquet", &columns(&["Device_ID"]), &query, 5).is_some());
    query.device_id = None;
    query.keyword = Some("deny".to_string());
    assert!(parquet_filters(&query, &columns(&["device_id"])).is_none());
    let (clauses, values) = parquet_filters(&query, &columns(&["raw"])).unwrap();
    assert_eq!(clauses, vec!["raw LIKE ?".to_string(), "parse_status <> 'failed'".to_string()]);
    assert_eq!(values, vec!["%deny%".to_string()]);
    query.keyword = Some(String::new());
    query.include_failed = true;
    let (clauses, values) = parquet_filters(&query, &columns(&[])).unwrap();
    assert!(clauses.is_empty() && values.is_empty());
}

#[test]
fn cold_scan_counts_lines_and_keeps_matching_events() {
    let parser = ParserEngine::new();
    let mut query = cold_query();
    query.action = Some("deny".to_string());
    let now = Timestamp::from_unix(1_778_808_000, 0);
    let mut scan = ColdScan::new();
    let source = cold_source_addr("logs/a.log");
    assert_eq!(source, "frozen://logs/a.log");

    assert!(!scan.offer_line(&parser, &query, "\r\n", &source, now, 2));
    assert!(!scan.offer_line(&parser, &query, "src=10.0.0.1 dst=10.0.0.2 proto=TCP action=allow\n", &source, now, 2));
    assert!(!scan.offer_line(&parser, &query, "src=10.0.0.1 dst=10.0.0.2 proto=TCP action=deny\r\n", &source, now, 2));
    assert!(!scan.offer_line(&parser, &query, "garbage line without fields", &source, now, 2));
    assert!(scan.offer_line(&parser, &query, "src=10.0.0.3 dst=10.0.0.4 proto=UDP action=deny", &source, now, 2));

    let response = scan.finish(3, true);
    assert_eq!(response.files, 3);
    assert_eq!(response.scanned_lines, 4);
    assert_eq!(response.matched, 2);
    assert!(response.limited);
    assert_eq!(response.events[0].raw, "src=10.0.0.1 dst=10.0.0.2 proto=TCP action=deny");
    assert_eq!(response.events[0].source_addr, "frozen://logs/a.log");
    assert_eq!(response.events[1].src_ip.as_deref(), Some("10.0.0.3"));
}

#[test]
fn cold_search_hides_failed_lines_but_keeps_partial_by_default() {
    let parser = ParserEngine::new();
    let query = cold_query();
    let now = Timestamp::from_unix(1_778_808_000, 0);
    let mut scan = ColdScan::new();
    scan.offer_line(&parser, &query, "totally unstructured garbage line", "frozen://x", now, 10);
    scan.offer_line(&parser, &query, "src=10.0.0.1 proto=TCP", "frozen://x", now, 10);
    let response = scan.finish(1, false);
    assert_eq!(response.scanned_lines, 2);
    assert_eq!(response.matched, 1);
    assert_eq!(response.events[0].parse_status, ParseStatus::Partial);

    let mut with_failed = cold_query();
    with_failed.include_failed = true;
    let mut scan = ColdScan::new();
    scan.offer_line(&parser, &with_failed, "totally unstructured garbage line", "frozen://x", now, 10);
    assert_eq!(scan.finish(1, false).matched, 1);
}

#[test]
fn cold_archive_members_and_files_follow_the_day() {
    assert!(is_gzip_member("logs/2026-05-15.log.gz"));
    assert!(!is_gzip_member("logs/2026-05-15.log"));
    assert!(import_archive_name_matches(Some("raw-import-20260515.tar.zst"), Some("20260515")));
    assert!(!import_archive_name_matches(Some("raw-import-2026-05-15.tar.zst"), Some("20260515")));
    assert!(import_archive_name_matches(Some("raw-import-x.tar.zst"), None));
    assert!(!import_archive_name_matches(None, None));
    assert!(cold_parquet_file_matches("events-2026-05-15.parquet", Some("20260515")));
    assert!(cold_parquet_file_matches("events-20260515.parquet", Some("20260515")));
    assert!(!cold_parquet_file_matches("events-20260516.parquet", Some("20260515")));
    assert!(!cold_parquet_file_matches("events-20260515.csv", None));
    assert!(is_raw_import_archive("raw-import-20260516.tar.zst"));
    assert!(!is_raw_import_archive("raw-20260516.tar.zst"));
}

fn point(minute: &str, total: u64, parsed: u64, failed: u64) -> MinuteMetricPoint {
    MinuteMetricPoint {
        bucket_minute: minute.to_string(),
        total,
        parsed,
        partial: 0,
        failed,
        raw_bytes: total * 10,
    }
}

#[test]
fn hour_metrics_roll_minutes_into_ascending_hours() {
    let points = vec![
        point("2026-05-15T02:05:00Z", 1, 1, 0),
        point("2026-05-15T01:59:00Z", 3, 2, 1),
        point("2026-05-15T02:30:00Z", 4, 4, 0),
        point("2026-05-15T01:00:00Z", 2, 2, 0),
        point("2026-05-15T03:00:00Z", 5, 0, 5),
    ];
    let hours = hour_metrics(&points, 10);
    assert_eq!(hours.len(), 3);
    assert_eq!(hours[0].bucket_hour, "2026-05-15T01:00:00Z");
    assert_eq!(hours[0].total, 5);
    assert_eq!(hours[0].parsed, 4);
    assert_eq!(hours[0].failed, 1);
    assert_eq!(hours[0].raw_bytes, 50);
    assert_eq!(hours[1].bucket_hour, "2026-05-15T02:00:00Z");
    assert_eq!(hours[1].total, 5);
    assert_eq!(hours[2].bucket_hour, "2026-05-15T03:00:00Z");

    let latest = hour_metrics(&points, 2);
    assert_eq!(latest.len(), 2);
    assert_eq!(latest[0].bucket_hour, "2026-05-15T02:00:00Z");
    assert_eq!(latest[1].bucket_hour, "2026-05-15T03:00:00Z");
    assert!(hour_metrics(&Vec::new(), 5).is_empty());
}

fn region(id: &str, cidr: &str, name: &str, enabled: bool, deleted: bool) -> CustomIpRegion {
    CustomIpRegion {
        id: id.to_string(),
        cidr: cidr.to_string(),
        name: name.to_string(),
        note: String::new(),
        enabled,
        deleted,
        created_at: "2026-05-15T00:00:00Z".to_string(),
    }
}

#[test]
fn ip_region_requests_check_custom_regions_before_lookup() {
    let regions = vec![
        region("a", "10.0.0.0/8", "disabled", false, false),
        region("b", "10.1.0.0/16", "deleted", true, true),
        region("c", "10.1.2.0/24", "office", true, false),
        region("d", "10.0.0.0/8", "corp", true, false),
    ];
    match ip_region_step("  ", &regions) {
        IpRegionStep::BadRequest(m) => assert_eq!(m, "ip query parameter is required"),
        other => panic!("unexpected {other:?}"),
    }
    match ip_region_step(" 10.1.2.3 ", &regions) {
        IpRegionStep::Answer(r) => {
            assert_eq!(r.ip, "10.1.2.3");
            assert_eq!(r.region.as_deref(), Some("office"));
            assert_eq!(r.raw.as_deref(), Some("10.1.2.0/24"));
            assert_eq!(r.country, None);
        }
        other => panic!("unexpected {other:?}"),
    }
    match ip_region_step("10.9.9.9", &regions) {
        IpRegionStep::Answer(r) => assert_eq!(r.region.as_deref(), Some("corp")),
        other => panic!("unexpected {other:?}"),
    }
    match ip_region_step("8.8.8.8", &regions) {
        IpRegionStep::Lookup(ip) => assert_eq!(ip, "8.8.8.8"),
        other => panic!("unexpected {other:?}"),
    }
    match ip_region_step("::1", &regions) {
        IpRegionStep::BadRequest(m) => assert_eq!(m, "invalid ip: ::1"),
        other => panic!("unexpected {other:?}"),
    }
    match ip_region_step("not-an-ip", &regions) {
        IpRegionStep::BadRequest(m) => assert_eq!(m, "invalid ip: not-an-ip"),
        other => panic!("unexpected {other:?}"),
    }
}

#[test]
fn region_names_for_events_skip_private_and_invalid_addresses() {
    let regions = vec![region("c", "172.16.0.0/12", "lab", true, false)];
    assert!(matches!(region_name_step("172.16.1.1", &regions), RegionNameStep::Known(Some(n)) if n == "lab"));
    assert!(matches!(region_name_step("192.168.1.1", &regions), RegionNameStep::Known(None)));
    assert!(matches!(region_name_step("x", &regions), RegionNameStep::Known(None)));
    assert!(matches!(region_name_step("2001:db8::1", &regions), RegionNameStep::Known(None)));
    assert!(matches!(region_name_step(" 8.8.8.8", &regions), RegionNameStep::Lookup(ip) if ip == " 8.8.8.8"));
}

#[test]
fn region_cache_entries_round_trip_through_answers() {
    let response = IpRegionResponse {
        ip: "8.8.8.8".to_string(),
        region: Some("US".to_string()),
        country: Some("US".to_string()),
        province: None,
        city: None,
        isp: Some("Google".to_string()),
        raw: None,
    };
    let entry = cache_entry_for(&response, Timestamp::from_unix(1_778_808_000, 0)).unwrap();
    assert_eq!(entry.source, "ip2region");
    assert_eq!(entry.updated_at, "2026-05-15T01:20:00+00:00");
    assert_eq!(entry.isp.as_deref(), Some("Google"));
    let answer = response_from_cache(IpRegionCacheEntry { source: "cache".to_string(), ..entry });
    assert_eq!(answer.raw.as_deref(), Some("cache"));
    assert_eq!(answer.region.as_deref(), Some("US"));
}
