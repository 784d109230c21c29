use fwlog::api::{archive_file_name, checked_frozen_path, request_authorized, NativeSearchBackend, SearchPlan};
use fwlog::archive::{is_frozen_archive, is_parquet_file, list_archive_files, list_frozen_files, ArchiveFile, FrozenFile};
use fwlog::config::{ArchiveConfig, LifecycleConfig};
use fwlog::dual_db::{DualDbConfig, DualDbManager, SyncSource, SyncStart};
use fwlog::event::{RawLog, Timestamp};
use fwlog::governor::{
    archive_retention_fits, archive_stamp, lifecycle_output_path, plan_archive_phase, ArchiveOutcome, ArchivePhaseReport,
    GovernorConfig, GovernorCycleReport, GovernorSchedule, LifecycleOutcome, LifecycleReport,
};
use fwlog::hybrid::{hot_threshold, parse_any_date, query_target, route_query, HybridConfig, QueryTarget};
use fwlog::spool::{
    records_after, segment_file_names, uncommitted_segments, ReplaySegment, SegmentReader,
    SegmentWriter, SpoolCheckpoint,
};
use fwlog::store::EventQuery;

fn spool_raw(value: &str) -> RawLog {
    RawLog {
        ingest_time: Timestamp::from_unix(1_778_808_000, 0),
        source_addr: "tcp://127.0.0.1:1514".to_string(),
        raw: value.to_string(),
    }
}

fn writer_for(name: &str) -> SegmentWriter {
    let (open, sealed) = segment_file_names(name);
    SegmentWriter::new(open, sealed)
}

#[test]
fn appending_three_raw_logs_writes_three_jsonl_records() {
    let mut writer = writer_for("segment-20260515-000000-000001");
    let records = vec![
        writer.append(spool_raw("a")),
        writer.append(spool_raw("b")),
        writer.append(spool_raw("c")),
    ];
    assert_eq!(writer.sealed_path(), "segment-20260515-000000-000001.sealed");

    let records = records_after(records, SpoolCheckpoint::default());
    assert_eq!(records.len(), 3);
    assert_eq!(records[0].offset, 1);
    assert_eq!(records[2].raw, "c");
}

#[test]
fn checkpoint_after_line_two_replays_only_line_three() {
    let mut writer = writer_for("segment-20260515-000000-000002");
    let records = vec![
        writer.append(spool_raw("a")),
        writer.append(spool_raw("b")),
        writer.append(spool_raw("c")),
    ];

    let records = records_after(records, SpoolCheckpoint { committed_offset: 2 });
    assert_eq!(records.len(), 1);
    assert_eq!(records[0].raw, "c");
}

#[test]
fn replay_segment_reads_records_after_checkpoint() {
    let mut writer = writer_for("segment-replay");
    let records = vec![
        writer.append(spool_raw("a")),
        writer.append(spool_raw("b")),
        writer.append(spool_raw("c")),
    ];
    let reader = SegmentReader::open(writer.sealed_path());
    assert_eq!(reader.path(), "segment-replay.sealed");

    let records = records_after(records, SpoolCheckpoint { committed_offset: 1 });
    assert_eq!(records.len(), 2);
    assert_eq!(records[0].raw, "b");
    assert_eq!(records[1].raw, "c");
}

#[test]
fn discover_finds_sealed_and_open_segments() {
    let entries = vec![
        ReplaySegment { path: "/spool/segment-b.open".to_string(), name: "segment-b.open".to_string() },
        ReplaySegment { path: "/spool/segment-c.committed".to_string(), name: "segment-c.committed".to_string() },
        ReplaySegment { path: "/spool/segment-a.sealed".to_string(), name: "segment-a.sealed".to_string() },
    ];
    let segments = uncommitted_segments(entries);
    assert_eq!(segments.len(), 2);
    assert!(segments[0].name.contains("segment-a"));
    assert!(segments[1].name.contains("segment-b"));
}

#[test]
fn list_archive_files_returns_parquet_files_sorted_by_path() {
    let files = vec![
        ArchiveFile { path: "/tmp/x/nested/ignore.txt".to_string(), bytes: 6 },
        ArchiveFile { path: "/tmp/x/nested/a.parquet".to_string(), bytes: 6 },
        ArchiveFile { path: "/tmp/x/b.parquet".to_string(), bytes: 4 },
    ];
    let files = list_archive_files(files);
    let paths: Vec<_> = files.iter().map(|file| file.path.clone()).collect();
    assert_eq!(paths, vec!["/tmp/x/b.parquet".to_string(), "/tmp/x/nested/a.parquet".to_string()]);
    assert_eq!(files[0].bytes, 4);
    assert_eq!(files[1].bytes, 6);
}

#[test]
fn list_frozen_files_returns_raw_zst_and_raw_import_tar_zst_sorted_by_path() {
    let files = vec![
        FrozenFile { path: "/tmp/x/nested/ignore.zst".to_string(), bytes: 6 },
        FrozenFile { path: "/tmp/x/raw-import-20260516.tar.zst".to_string(), bytes: 10 },
        FrozenFile { path: "/tmp/x/nested/a.raw.zst".to_string(), bytes: 6 },
        FrozenFile { path: "/tmp/x/nested/ignore.raw".to_string(), bytes: 6 },
        FrozenFile { path: "/tmp/x/b.raw.zst".to_string(), bytes: 4 },
    ];
    let files = list_frozen_files(files);
    let paths: Vec<_> = files.iter().map(|file| file.path.clone()).collect();
    assert_eq!(
        paths,
        vec![
            "/tmp/x/b.raw.zst".to_string(),
            "/tmp/x/nested/a.raw.zst".to_string(),
            "/tmp/x/raw-import-20260516.tar.zst".to_string(),
        ]
    );
    assert_eq!(files[0].bytes, 4);
    assert_eq!(files[1].bytes, 6);
    assert_eq!(files[2].bytes, 10);
}

#[test]
fn archive_file_kinds_follow_the_file_name_only() {
    assert!(is_parquet_file("/data/parquet/events.parquet"));
    assert!(!is_parquet_file("/data/parquet/.parquet"));
    assert!(!is_parquet_file("/data/x.parquet/readme.txt"));
    assert!(is_frozen_archive("frozen-1.raw.zst"));
    assert!(is_frozen_archive("/a/raw-import-2026.tar.zst"));
    assert!(!is_frozen_archive("/a/other-2026.tar.zst"));
    assert!(!is_frozen_archive("/raw-import-a/x.tar.zst"));
}

#[test]
fn archive_stamp_is_unique_and_sortable() {
    let now = Timestamp::from_unix(1_778_808_000, 0);
    let stamp1 = archive_stamp(now, 0).unwrap();
    let stamp2 = archive_stamp(now, 1).unwrap();
    assert_ne!(stamp1, stamp2);
    assert!(stamp1 < stamp2);
    assert_eq!(stamp1, "20260515-012000.000000-000000");
    assert_eq!(archive_stamp(now, 1_000_007).unwrap(), "20260515-012000.000000-000007");
}

#[test]
fn archive_stamp_is_unique_within_same_process() {
    let now = Timestamp::from_unix(1_778_808_000, 0);
    let first = archive_file_name("events", "parquet", now, 0).unwrap();
    let second = archive_file_name("events", "parquet", now, 1).unwrap();

    assert_ne!(first, second);
    assert!(first.ends_with(".parquet"));
    assert!(second.ends_with(".parquet"));
    assert_eq!(first, "events-20260515-012000.000000-000000.parquet");
}

fn governor_config(archive_interval: u64, lifecycle_interval: u64) -> GovernorConfig {
    GovernorConfig {
        archive: ArchiveConfig { enabled: true, interval_seconds: archive_interval, ..ArchiveConfig::default() },
        lifecycle: LifecycleConfig { interval_seconds: lifecycle_interval, ..LifecycleConfig::default() },
    }
}

#[test]
fn governor_ticks_at_the_shorter_interval_of_at_least_a_minute() {
    let schedule = GovernorSchedule::new(&governor_config(120, 600));
    assert_eq!(schedule.tick_seconds, 120);
    assert_eq!(schedule.archive_threshold, 1);
    assert_eq!(schedule.lifecycle_threshold, 5);

    let schedule = GovernorSchedule::new(&governor_config(10, 86_400));
    assert_eq!(schedule.tick_seconds, 60);
    assert_eq!(schedule.archive_threshold, 1);
    assert_eq!(schedule.lifecycle_threshold, 1440);
}

#[test]
fn governor_runs_each_phase_when_its_threshold_is_reached() {
    let mut schedule = GovernorSchedule::new(&governor_config(120, 360));
    assert!(schedule.runs_initial_archive());
    let mut archive_runs = 0;
    let mut lifecycle_runs = Vec::new();
    for tick in 1..=6 {
        let run = schedule.tick();
        if run.run_archive {
            archive_runs += 1;
        }
        if run.run_lifecycle {
            lifecycle_runs.push(tick);
        }
    }
    assert_eq!(archive_runs, 6);
    assert_eq!(lifecycle_runs, vec![3, 6]);

    let mut config = governor_config(120, 360);
    config.archive.enabled = false;
    let mut schedule = GovernorSchedule::new(&config);
    assert!(!schedule.runs_initial_archive());
    assert!(!schedule.tick().run_archive);
    assert_eq!(schedule.archive_ticks, 1);
}

#[test]
fn governor_cycle_report_counts_only_completed_phases() {
    let report = GovernorCycleReport::from_outcomes(
        ArchiveOutcome::Completed(ArchivePhaseReport { events_archived: 7, parquet_removed: 2, frozen_removed: 1 }),
        LifecycleOutcome::Failed,
    );
    assert!(report.archive_completed);
    assert_eq!(report.archive_events, 7);
    assert_eq!(report.archive_parquet_removed, 2);
    assert_eq!(report.archive_frozen_removed, 1);
    assert!(!report.lifecycle_completed);
    assert_eq!(report.lifecycle_compacted_rows, 0);

    let report = GovernorCycleReport::from_outcomes(ArchiveOutcome::NotRun, LifecycleOutcome::Completed(42));
    assert!(!report.archive_completed);
    assert_eq!(report.archive_events, 0);
    assert!(report.lifecycle_completed);
    assert_eq!(report.lifecycle_compacted_rows, 42);
}

#[test]
fn archive_phase_plan_names_files_and_retentions() {
    let config = ArchiveConfig { batch_limit: 0, parquet_retention_days: 0, frozen_retention_days: 2, ..ArchiveConfig::default() };
    let plan = plan_archive_phase("data/parquet", "data/frozen/", "S", "2026-05-15", &config);
    assert_eq!(plan.parquet_path, "data/parquet/events-S.parquet");
    assert_eq!(plan.frozen_path, "data/frozen/frozen-S.raw.zst");
    assert_eq!(plan.frozen_index_path, "frozen-S.raw.zst");
    assert_eq!(plan.frozen_uri, "frozen://frozen-S.raw.zst");
    assert_eq!(plan.day_start, "2026-05-15T00:00:00Z");
    assert_eq!(plan.day_end, "2026-05-15T23:59:59Z");
    assert_eq!(plan.batch_limit, 1);
    assert_eq!(plan.parquet_retention_seconds, 86_400);
    assert_eq!(plan.frozen_retention_seconds, 172_800);
}

#[test]
fn lifecycle_writes_beside_the_hot_database() {
    assert_eq!(
        lifecycle_output_path("/var/lib/oxidelog/oxidelog.duckdb", "S"),
        "/var/lib/oxidelog/oxidelog-hot-S.duckdb"
    );
    let report = LifecycleReport::new(0, 3, "out.duckdb".to_string());
    assert_eq!(report.hot_limit, 1);
    assert_eq!(report.compacted_rows, 3);
    assert_eq!(report.pruned_raw_rows, 0);
}

#[test]
fn disabled_mode_uses_single_database() {
    let config = DualDbConfig { enabled: false, sync_interval_seconds: 300 };
    let manager = DualDbManager::new("/tmp/db/oxidelog.duckdb", config).unwrap();
    assert_eq!(manager.write_path(), manager.query_path());
    assert_eq!(manager.write_path(), "/tmp/db/oxidelog-write.duckdb");
    assert_eq!(manager.begin_sync(), SyncStart::Disabled);
}

#[test]
fn dual_databases_sit_beside_the_configured_path() {
    let config = DualDbConfig { enabled: true, sync_interval_seconds: 300 };
    let manager = DualDbManager::new("/tmp/db/oxidelog.duckdb", config).unwrap();
    assert_eq!(manager.write_path(), "/tmp/db/oxidelog-write.duckdb");
    assert_eq!(manager.query_path(), "/tmp/db/oxidelog-query.duckdb");
    assert_eq!(DualDbManager::new("/", config).unwrap_err(), "duckdb path must have parent directory");
}

#[test]
fn syncs_resume_after_the_newest_copied_event() {
    let config = DualDbConfig { enabled: true, ..DualDbConfig::default() };
    let mut manager = DualDbManager::new("/tmp/db/oxidelog.duckdb", config).unwrap();

    assert_eq!(manager.begin_sync(), SyncStart::FindLastInQuery);
    assert_eq!(manager.resume_from(None), SyncSource::All);
    let report = manager.complete_sync(String::new(), Some("event-2".to_string()), 2, 5);
    assert_eq!(report.rows_synced, 2);
    assert_eq!(report.last_event_id, "event-2");

    assert_eq!(manager.begin_sync(), SyncStart::After("event-2".to_string()));
    let report = manager.complete_sync("event-2".to_string(), Some("event-3".to_string()), 1, 5);
    assert_eq!(report.rows_synced, 1);
    let report = manager.complete_sync("event-3".to_string(), None, 0, 5);
    assert_eq!(report.rows_synced, 0);
    assert_eq!(report.last_event_id, "event-3");
    manager.fail_sync();

    let metrics = manager.metrics();
    assert_eq!(metrics.sync_count(), 3);
    assert_eq!(metrics.sync_errors(), 1);
    assert_eq!(metrics.last_sync_rows(), 0);
}

#[test]
fn hybrid_routing_keeps_queries_local_without_remote() {
    let config = HybridConfig::default();
    assert!(!config.clickhouse_enabled);
    let now = Timestamp::from_unix(1_778_808_000, 0);
    let threshold = hot_threshold(now, config.hot_data_hours);
    assert_eq!(threshold.secs, 1_778_804_400);
    let old = Timestamp::from_unix(1_700_000_000, 0);
    assert_eq!(route_query(old, threshold, false), QueryTarget::Local);
    assert_eq!(route_query(old, threshold, true), QueryTarget::Remote);
    assert_eq!(route_query(now, threshold, true), QueryTarget::Local);

    let mut query = EventQuery::default();
    assert_eq!(query_target(&query, "2026-05-15", threshold, true, true), QueryTarget::Local);
    query.date_from = Some("2023-11-14".to_string());
    assert_eq!(query_target(&query, "2026-05-15", threshold, true, true), QueryTarget::Remote);
    assert_eq!(query_target(&query, "2026-05-15", threshold, true, false), QueryTarget::Local);
    query.date_from = Some("not a date".to_string());
    assert_eq!(query_target(&query, "2026-05-15", threshold, true, true), QueryTarget::Local);
    query.date_from = None;
    query.day = Some("2026-05-14".to_string());
    assert_eq!(query_target(&query, "2026-05-15", threshold, true, true), QueryTarget::Remote);
    assert_eq!(query_target(&query, "2026-05-15", threshold, false, true), QueryTarget::Local);
}

#[test]
fn any_date_accepts_rfc3339_days_and_plain_times() {
    assert_eq!(parse_any_date("2026-05-15T01:20:00Z").unwrap().secs, 1_778_808_000);
    assert_eq!(parse_any_date("2026-05-15T03:20:00+02:00").unwrap().secs, 1_778_808_000);
    assert_eq!(parse_any_date("2026-05-15").unwrap().secs, 1_778_803_200);
    assert_eq!(parse_any_date("2026-05-15 01:20:00").unwrap().secs, 1_778_808_000);
    assert!(parse_any_date("15/05/2026").is_none());
}

#[test]
fn api_token_protects_only_api_routes() {
    assert!(request_authorized(None, "/api/events", None));
    assert!(request_authorized(Some(""), "/api/events", None));
    assert!(request_authorized(Some("secret"), "/", None));
    assert!(request_authorized(Some("secret"), "/app", None));
    assert!(!request_authorized(Some("secret"), "/api/events", None));
    assert!(!request_authorized(Some("secret"), "/api/events", Some("Bearer wrong")));
    assert!(!request_authorized(Some("secret"), "/api/events", Some("secret")));
    assert!(request_authorized(Some("secret"), "/api/events", Some("Bearer secret")));
}

#[test]
fn frozen_restore_rejects_paths_outside_the_frozen_directory() {
    assert_eq!(
        checked_frozen_path("/data/frozen", "/data/frozen/a.raw.zst").unwrap(),
        "/data/frozen/a.raw.zst"
    );
    assert!(checked_frozen_path("/data/frozen", "/data/frozen2/a.raw.zst").is_err());
    assert!(checked_frozen_path("/data/frozen", "/etc/passwd").is_err());
    assert!(checked_frozen_path("/", "/etc/passwd").is_ok());
}

#[test]
fn search_reads_recent_events_only_without_filters() {
    let backend = NativeSearchBackend::new("/tmp/db.duckdb".to_string());
    assert_eq!(backend.duckdb_path(), "/tmp/db.duckdb");
    let mut query = EventQuery::default();
    assert_eq!(backend.plan(&query), SearchPlan::Recent);
    query.include_failed = true;
    assert_eq!(backend.plan(&query), SearchPlan::Filtered);
}

#[test]
fn hot_threshold_moves_forward_for_negative_hours() {
    let now = Timestamp::from_unix(1_778_808_000, 0);
    assert_eq!(hot_threshold(now, -2).secs, 1_778_815_200);
    assert_eq!(hot_threshold(now, 0).secs, 1_778_808_000);
}

#[test]
fn archive_retention_fits_only_when_both_retentions_fit() {
    let fits = ArchiveConfig { parquet_retention_days: 0, frozen_retention_days: 30, ..ArchiveConfig::default() };
    assert!(archive_retention_fits(&fits));
    let edge = ArchiveConfig { parquet_retention_days: u64::MAX / 86_400, ..ArchiveConfig::default() };
    assert!(archive_retention_fits(&edge));
    let too_long = ArchiveConfig { frozen_retention_days: u64::MAX / 86_400 + 1, ..ArchiveConfig::default() };
    assert!(!archive_retention_fits(&too_long));
}
