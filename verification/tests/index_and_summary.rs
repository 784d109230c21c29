use fwlog::event::{CanonicalEvent, ParseStatus, RawLog, Timestamp};
use fwlog::frozen_index::{archive_days, relative_archive_path, FrozenIndexBuilder};
use fwlog::rollup::parser_summary;

#[test]
fn archive_paths_are_relative_to_the_frozen_directory() {
    assert_eq!(relative_archive_path("/data/frozen", "/data/frozen/2026/a.raw.zst"), "2026/a.raw.zst");
    assert_eq!(relative_archive_path("/data/frozen", "/elsewhere/b.raw.zst"), "elsewhere/b.raw.zst");
}

#[test]
fn archive_index_rebuild_populates_line_count_time_and_source() {
    let mut plain = FrozenIndexBuilder::new("/data/frozen", "/data/frozen/frozen-20260515-010203.raw.zst", 42);
    plain.set_line_count(3);
    let meta = plain.finish();
    assert_eq!(meta.archive_path, "frozen-20260515-010203.raw.zst");
    assert_eq!(meta.day, "2026-05-15");
    assert_eq!(meta.source_addr, "frozen://frozen-20260515-010203.raw.zst");
    assert_eq!(meta.bytes, 42);
    assert_eq!(meta.line_count, 3);
    assert_eq!(meta.first_seen.as_deref(), Some("2026-05-15T00:00:00Z"));
    assert_eq!(meta.last_seen.as_deref(), Some("2026-05-15T23:59:59Z"));

    let mut packed = FrozenIndexBuilder::new("/data/frozen", "/data/frozen/raw-import-batch.tar.zst", 7);
    packed.add_member("logs/fw-2026-05-14.log.gz", 2);
    packed.add_member("logs/fw-2026-05-16.log", 5);
    let meta = packed.finish();
    assert_eq!(meta.day, "2026-05-16");
    assert_eq!(meta.source_addr, "frozen://logs/fw-2026-05-14.log.gz");
    assert_eq!(meta.line_count, 7);

    let unknown = FrozenIndexBuilder::new("/data/frozen", "/data/frozen/raw-import-x.tar.zst", 1).finish();
    assert_eq!(unknown.day, "unknown");
    assert!(unknown.first_seen.is_none() && unknown.last_seen.is_none());
}

#[test]
fn archive_days_are_sorted_and_unique() {
    let indexed = vec!["2026-05-15".to_string(), "unknown".to_string(), "2026-05-13".to_string()];
    let parquet = vec!["/p/events-20260514-010000.parquet".to_string(), "/p/2026/events-x.parquet".to_string()];
    let frozen = vec!["/f/frozen-20260515-010000.raw.zst".to_string()];
    assert_eq!(archive_days(&indexed, &parquet, &frozen), vec!["2026-05-13", "2026-05-14", "2026-05-15"]);
}

fn event(status: ParseStatus, error: Option<&str>) -> CanonicalEvent {
    let raw = RawLog { ingest_time: Timestamp::from_unix(1_778_808_000, 0), source_addr: "s".to_string(), raw: "r".to_string() };
    let mut e = CanonicalEvent::failed(raw, "x");
    e.parse_status = status;
    e.parse_error = error.map(|m| m.to_string());
    e
}

#[test]
fn parser_summary_counts_failure_reasons() {
    let events = vec![
        event(ParseStatus::Failed, Some("no parser matched")),
        event(ParseStatus::Partial, Some("partial parse")),
        event(ParseStatus::Failed, None),
        event(ParseStatus::Failed, Some("no parser matched")),
        event(ParseStatus::Parsed, None),
        event(ParseStatus::Failed, Some("bad header")),
    ];
    let rows = parser_summary(&events);
    let view: Vec<(String, u64)> = rows.into_iter().map(|r| (r.reason, r.count)).collect();
    assert_eq!(
        view,
        vec![
            ("bad header".to_string(), 1),
            ("no parser matched".to_string(), 2),
            ("unknown".to_string(), 1),
        ]
    );
    assert!(parser_summary(&Vec::new()).is_empty());
}
