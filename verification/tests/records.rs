use fwlog::api::{
    new_custom_region, new_firewall_device, upsert_custom_region, CustomIpRegion, CustomIpRegionInput,
    FirewallDeviceInput,
};
use fwlog::api::{export_days, SearchQuery};
use fwlog::cold_search::indexed_archive_matches_device;
use fwlog::dual_db::{legacy_backup_path, needs_migration, newest_copied_id, DualDbConfig, DualDbManager};
use fwlog::event::{CanonicalEvent, RawLog};
use fwlog::event::Timestamp;

fn device_input(port: u16) -> FirewallDeviceInput {
    FirewallDeviceInput {
        name: " edge fw ".to_string(),
        host: "10.0.0.1".to_string(),
        protocol: "udp".to_string(),
        port,
        note: " main ".to_string(),
        enabled: true,
    }
}

#[test]
fn new_device_gets_stamped_id_and_normalised_fields() {
    let now = Timestamp::from_unix(1_778_808_000, 123_456_000);
    let device = new_firewall_device(&device_input(514), now, 7).unwrap();
    assert_eq!(device.id, "dev-20260515012000.123456-7");
    assert_eq!(device.name, "edge fw");
    assert_eq!(device.protocol, "UDP");
    assert_eq!(device.port, 514);
    assert_eq!(device.note, "main");
    assert!(device.enabled);
    assert_eq!(device.created_at, "2026-05-15T01:20:00.123456+00:00");
}

#[test]
fn new_device_refuses_a_zero_port() {
    let now = Timestamp::from_unix(1_778_808_000, 0);
    assert_eq!(new_firewall_device(&device_input(0), now, 1).unwrap_err(), "device port is required");
}

#[test]
fn new_region_gets_stamped_id_and_is_not_deleted() {
    let now = Timestamp::from_unix(1_778_808_000, 0);
    let input = CustomIpRegionInput {
        cidr: " 10.0.0.0/8 ".to_string(),
        name: "Office".to_string(),
        note: String::new(),
        enabled: true,
    };
    let region = new_custom_region(&input, now, 3).unwrap();
    assert_eq!(region.id, "ipreg-20260515012000.000000-3");
    assert_eq!(region.cidr, "10.0.0.0/8");
    assert!(!region.deleted);
    assert_eq!(region.created_at, "2026-05-15T01:20:00+00:00");

    let missing = CustomIpRegionInput { cidr: "  ".to_string(), ..input };
    assert_eq!(new_custom_region(&missing, now, 4).unwrap_err(), "cidr is required");
}

#[test]
fn upserted_region_replaces_the_region_of_the_same_network() {
    let region = |id: &str, cidr: &str| CustomIpRegion {
        id: id.to_string(),
        cidr: cidr.to_string(),
        name: id.to_string(),
        note: String::new(),
        enabled: true,
        deleted: false,
        created_at: "2026-05-15T00:00:00Z".to_string(),
    };
    let rules = vec![region("a", "10.0.0.0/8"), region("b", "192.168.0.0/16"), region("c", "10.0.0.0/8")];
    let after = upsert_custom_region(rules, region("d", "10.0.0.0/8"));
    let ids: Vec<&str> = after.iter().map(|r| r.id.as_str()).collect();
    assert_eq!(ids, vec!["b", "d"]);
}

fn search_query(day: Option<&str>, from: Option<&str>, to: Option<&str>) -> SearchQuery {
    SearchQuery {
        scope: "all".to_string(),
        day: day.map(str::to_string),
        date_from: from.map(str::to_string),
        date_to: to.map(str::to_string),
        device: None,
        device_id: None,
        src_ip: None,
        dst_ip: None,
        protocol: None,
        action: None,
        keyword: None,
        include_failed: false,
        limit: 10,
    }
}

#[test]
fn export_days_take_the_range_else_the_day_else_none() {
    assert_eq!(
        export_days(&search_query(Some("2026-05-01"), Some("2026-05-14"), Some("2026-05-16"))).unwrap(),
        vec!["2026-05-14".to_string(), "2026-05-15".to_string(), "2026-05-16".to_string()]
    );
    assert_eq!(export_days(&search_query(Some("20260501"), None, None)).unwrap(), vec!["20260501".to_string()]);
    assert!(export_days(&search_query(None, Some("2026-05-14"), None)).unwrap().is_empty());
    assert!(export_days(&search_query(None, Some("2026-05-16"), Some("2026-05-14"))).is_err());
}

#[test]
fn indexed_archives_are_kept_by_source_or_path() {
    assert!(indexed_archive_matches_device("udp://10.0.0.1:514", "frozen-a.raw.zst", None));
    assert!(indexed_archive_matches_device("udp://10.0.0.1:514", "frozen-a.raw.zst", Some("")));
    assert!(indexed_archive_matches_device("udp://10.0.0.1:514", "frozen-a.raw.zst", Some("10.0.0.1")));
    assert!(indexed_archive_matches_device("frozen://x", "fw-edge/frozen-a.raw.zst", Some("fw-edge")));
    assert!(!indexed_archive_matches_device("udp://10.0.0.1:514", "frozen-a.raw.zst", Some("10.0.0.2")));
}

#[test]
fn disabled_manager_reports_an_empty_sync_and_counts_nothing() {
    let off = DualDbManager::new("/data/oxidelog.duckdb", DualDbConfig { enabled: false, sync_interval_seconds: 300 }).unwrap();
    let report = off.disabled_report().unwrap();
    assert_eq!(report.rows_synced, 0);
    assert_eq!(report.last_event_id, "");
    assert_eq!(off.metrics().sync_count(), 0);
    assert_eq!(off.metrics().sync_errors(), 0);
    let on = DualDbManager::new("/data/oxidelog.duckdb", DualDbConfig { enabled: true, sync_interval_seconds: 300 }).unwrap();
    assert!(on.disabled_report().is_none());
}

fn synced_event(id: &str, secs: i64) -> CanonicalEvent {
    let raw = RawLog::new("tcp://127.0.0.1:1514", &format!("raw {id}"), Timestamp::from_unix(secs, 0));
    let mut event = CanonicalEvent::failed(raw, "test");
    event.event_id = id.to_string();
    event
}

#[test]
fn sync_cursor_is_the_newest_copied_event() {
    assert_eq!(newest_copied_id(&Vec::new()), None);
    // Newest first, as a full copy reads them.
    let newest_first = vec![synced_event("event-2", 1_700_000_001), synced_event("event-1", 1_700_000_000)];
    assert_eq!(newest_copied_id(&newest_first), Some("event-2".to_string()));
    // Oldest first, as an incremental copy reads them.
    let oldest_first = vec![synced_event("event-1", 1_700_000_000), synced_event("event-3", 1_700_000_002)];
    assert_eq!(newest_copied_id(&oldest_first), Some("event-3".to_string()));
    // Equal ingest times: the larger id is the newer.
    let tied = vec![synced_event("b", 1_700_000_000), synced_event("a", 1_700_000_000)];
    assert_eq!(newest_copied_id(&tied), Some("b".to_string()));
}

#[test]
fn single_database_is_split_only_when_neither_copy_exists() {
    assert!(needs_migration(true, false, false));
    assert!(!needs_migration(true, true, false));
    assert!(!needs_migration(true, false, true));
    assert!(!needs_migration(false, false, false));
    assert_eq!(legacy_backup_path("/data/oxidelog.duckdb"), "/data/oxidelog.duckdb.backup");
}
