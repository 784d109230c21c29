use fwlog::api::{enabled_device_bindings, FirewallDevice};
use fwlog::remote::remote_query_sql;
use fwlog::rollup::{minute_buckets, minute_window, MinuteWindowError};
use fwlog::store::{binding_source_addr, EventQuery};
use fwlog::unified::unified_search_row;
use fwlog::event::{CanonicalEvent, ParseStatus, Timestamp};
use fwlog::rows::{clickhouse_row, event_from_clickhouse, event_from_stored_row, ClickHouseEvent, StoredEventRow};

fn full_event() -> CanonicalEvent {
    CanonicalEvent {
        event_id: "evt-1".to_string(),
        ingest_time: Timestamp::from_unix(1_778_808_000, 123_000_000),
        source_addr: "udp://192.168.1.10:514".to_string(),
        device_id: Some("fw-edge-01".to_string()),
        event_time: Some(Timestamp::from_unix(1_778_807_940, 456_000_000)),
        vendor: Some("Sangfor".to_string()),
        product: Some("Firewall".to_string()),
        src_ip: Some("192.168.1.20".to_string()),
        src_port: Some(54_321),
        dst_ip: Some("10.0.0.8".to_string()),
        dst_port: Some(443),
        protocol: Some("TCP".to_string()),
        action: Some("allow".to_string()),
        severity: Some("medium".to_string()),
        raw: "src=192.168.1.20 dst=10.0.0.8 action=allow".to_string(),
        parse_status: ParseStatus::Partial,
        parse_error: Some("missing policy id".to_string()),
    }
}

#[test]
fn canonical_event_round_trips_through_clickhouse_row() {
    let event = full_event();

    let row = clickhouse_row(&event);

    assert_eq!(row.event_id, event.event_id);
    assert_eq!(row.ingest_time, event.ingest_time);
    assert_eq!(row.source_addr, event.source_addr);
    assert_eq!(row.device_id, "fw-edge-01");
    assert_eq!(row.event_time, event.event_time.unwrap());
    assert_eq!(row.vendor, "Sangfor");
    assert_eq!(row.product, "Firewall");
    assert_eq!(row.src_ip, "192.168.1.20");
    assert_eq!(row.src_port, 54_321);
    assert_eq!(row.dst_ip, "10.0.0.8");
    assert_eq!(row.dst_port, 443);
    assert_eq!(row.protocol, "TCP");
    assert_eq!(row.action, "allow");
    assert_eq!(row.severity, "medium");
    assert_eq!(row.raw, event.raw);
    assert_eq!(row.parse_status, "partial");
    assert_eq!(row.parse_error, "missing policy id");

    let round_tripped = event_from_clickhouse(row);

    assert_eq!(round_tripped, event);
}

#[test]
fn sparse_event_row_uses_defaults_and_reads_back_absent_fields() {
    let mut event = full_event();
    event.device_id = None;
    event.event_time = None;
    event.src_port = None;
    event.dst_ip = None;
    event.parse_status = ParseStatus::Parsed;
    event.parse_error = None;

    let row = clickhouse_row(&event);
    assert_eq!(row.device_id, "");
    assert_eq!(row.event_time, event.ingest_time);
    assert_eq!(row.src_port, 0);
    assert_eq!(row.dst_ip, "");
    assert_eq!(row.parse_status, "parsed");
    assert_eq!(row.parse_error, "");

    let back = event_from_clickhouse(row);
    assert_eq!(back.device_id, None);
    assert_eq!(back.event_time, Some(event.ingest_time));
    assert_eq!(back.src_port, None);
    assert_eq!(back.dst_ip, None);
    assert_eq!(back.parse_status, ParseStatus::Parsed);
    assert_eq!(back.parse_error, None);
}

#[test]
fn unknown_status_name_reads_back_as_failed() {
    let mut row: ClickHouseEvent = clickhouse_row(&full_event());
    row.parse_status = "weird".to_string();
    assert_eq!(event_from_clickhouse(row).parse_status, ParseStatus::Failed);
}

fn stored_row() -> StoredEventRow {
    StoredEventRow {
        event_id: "evt-2".to_string(),
        ingest_time: "2026-05-15T01:20:00+00:00".to_string(),
        source_addr: "tcp://10.0.0.1:1514".to_string(),
        device_id: Some("fw-1".to_string()),
        event_time: Some("2026-05-15T09:19:00+08:00".to_string()),
        vendor: None,
        product: None,
        src_ip: Some("10.0.0.2".to_string()),
        src_port: Some(70_000),
        dst_ip: None,
        dst_port: Some(53),
        protocol: Some("UDP".to_string()),
        action: None,
        severity: None,
        raw: "raw line".to_string(),
        parse_status: "parsed".to_string(),
        parse_error: None,
    }
}

#[test]
fn stored_row_reads_times_in_utc_and_drops_out_of_range_ports() {
    let now = Timestamp::from_unix(1, 0);
    let event = event_from_stored_row(stored_row(), now);
    assert_eq!(event.event_id, "evt-2");
    assert_eq!(event.ingest_time, Timestamp::from_unix(1_778_808_000, 0));
    assert_eq!(event.event_time, Some(Timestamp::from_unix(1_778_807_940, 0)));
    assert_eq!(event.src_port, None);
    assert_eq!(event.dst_port, Some(53));
    assert_eq!(event.device_id.as_deref(), Some("fw-1"));
    assert_eq!(event.parse_status, ParseStatus::Parsed);
}

#[test]
fn stored_row_with_unreadable_times_takes_now_and_no_event_time() {
    let now = Timestamp::from_unix(1_700_000_000, 5);
    let mut row = stored_row();
    row.ingest_time = "yesterday".to_string();
    row.event_time = Some("not a time".to_string());
    row.src_port = Some(-1);
    row.parse_status = "partial".to_string();
    let event = event_from_stored_row(row, now);
    assert_eq!(event.ingest_time, now);
    assert_eq!(event.event_time, None);
    assert_eq!(event.src_port, None);
    assert_eq!(event.parse_status, ParseStatus::Partial);
}

#[test]
fn remote_query_lists_set_filters_with_quotes_doubled() {
    let mut query = EventQuery::default();
    query.day = Some("2026-05-15".to_string());
    query.date_from = Some("2026-05-14".to_string());
    query.date_to = Some("not a date".to_string());
    query.src_ip = Some("1.1.1.1".to_string());
    query.keyword = Some("o'k".to_string());
    assert_eq!(
        remote_query_sql(&query, 50),
        "SELECT * FROM events WHERE 1=1 AND toDate(ingest_time) = '2026-05-15' \
AND ingest_time >= '2026-05-14 00:00:00' AND src_ip = '1.1.1.1' \
AND (raw LIKE '%o''k%' OR parse_error LIKE '%o''k%') AND parse_status = 'parsed' \
ORDER BY ingest_time DESC LIMIT 50"
    );
}

#[test]
fn remote_query_with_failed_lines_has_no_status_condition() {
    let mut query = EventQuery::default();
    query.include_failed = true;
    query.action = Some("deny".to_string());
    query.date_to = Some("2026-05-15T08:00:00+08:00".to_string());
    assert_eq!(
        remote_query_sql(&query, 7),
        "SELECT * FROM events WHERE 1=1 AND ingest_time <= '2026-05-15 00:00:00' \
AND action = 'deny' ORDER BY ingest_time DESC LIMIT 7"
    );
}

#[test]
fn minute_buckets_are_sorted_and_unique() {
    let mut a = full_event();
    a.ingest_time = Timestamp::from_unix(1_778_808_000 + 75, 0);
    let mut b = full_event();
    b.ingest_time = Timestamp::from_unix(1_778_808_000, 0);
    let mut c = full_event();
    c.ingest_time = Timestamp::from_unix(1_778_808_000 + 30, 5);
    let buckets = minute_buckets(&[a, b, c]);
    assert_eq!(buckets, vec!["2026-05-15T01:20:00Z".to_string(), "2026-05-15T01:21:00Z".to_string()]);
    assert!(minute_buckets(&[]).is_empty());
}

#[test]
fn minute_window_runs_from_first_bucket_to_minute_after_last() {
    let buckets = vec!["2026-05-15T01:21:00Z".to_string(), "2026-05-15T01:20:00Z".to_string()];
    assert_eq!(
        minute_window(&buckets),
        Ok(Some(("2026-05-15T01:20:00Z".to_string(), "2026-05-15T01:22:00Z".to_string())))
    );
    assert_eq!(minute_window(&[]), Ok(None));
    assert_eq!(
        minute_window(&["2026-05-15T01:20:00Z".to_string(), "zzz".to_string()]),
        Err(MinuteWindowError::UnreadableBucket("zzz".to_string()))
    );
}

#[test]
fn unified_row_takes_archive_from_source_and_region_from_source_first() {
    let mut event = full_event();
    event.source_addr = "parquet://data/parquet/events-20260515.parquet".to_string();
    let row = unified_search_row("archive", None, None, Some("Shanghai".to_string()), event.clone());
    assert_eq!(row.archive_path.as_deref(), Some("data/parquet/events-20260515.parquet"));
    assert_eq!(row.geo_region.as_deref(), Some("Shanghai"));
    assert_eq!(row.src_geo_region, None);
    assert_eq!(row.result_source, "archive");

    let hot = unified_search_row("hot", None, Some("Beijing".to_string()), Some("Shanghai".to_string()), event.clone());
    assert_eq!(hot.archive_path, None);
    assert_eq!(hot.geo_region.as_deref(), Some("Beijing"));

    let mut frozen = event;
    frozen.source_addr = "frozen://2026/05/15/a.tar.zst".to_string();
    let row = unified_search_row("archive", None, None, None, frozen);
    assert_eq!(row.archive_path.as_deref(), Some("2026/05/15/a.tar.zst"));
    assert_eq!(row.geo_region, None);
}

#[test]
fn only_enabled_devices_become_bindings() {
    let device = |id: &str, enabled: bool| FirewallDevice {
        id: id.to_string(),
        name: id.to_string(),
        host: "10.0.0.1".to_string(),
        protocol: "UDP".to_string(),
        port: 514,
        note: String::new(),
        enabled,
        created_at: "2026-05-15T00:00:00Z".to_string(),
    };
    let bindings = enabled_device_bindings(&vec![device("a", true), device("b", false), device("c", true)]);
    assert_eq!(bindings.len(), 2);
    assert_eq!(bindings[0].id, "a");
    assert_eq!(bindings[1].id, "c");
    assert_eq!(binding_source_addr(&bindings[0]), "udp://10.0.0.1:514");
}
