use fwlog::engine::ParserEngine;
use fwlog::event::{CanonicalEvent, ParseStatus, RawLog, Timestamp};
use fwlog::import::{import_files, import_source_addr, importable, parse_import_lines, reparse_event, ImportBatch};

#[test]
fn import_takes_non_empty_files_in_path_order() {
    let files = vec![
        ("/in/b/day2.log".to_string(), 10),
        ("/in/read me.txt".to_string(), 10),
        ("/in/a/empty.log".to_string(), 0),
        ("/in/a/day1.log.gz".to_string(), 20),
        ("/in/a/day1b.log.gz".to_string(), 21),
        ("/in/a/day0.log".to_string(), 3),
    ];
    assert_eq!(import_files(files), vec!["/in/a/day0.log", "/in/a/day1b.log.gz", "/in/b/day2.log"]);
    assert!(importable("x.gz", 21));
    assert!(!importable("/a/read me.txt", 5));
}

#[test]
fn import_batches_skip_blank_lines_and_flush_when_full() {
    let mut batch = ImportBatch::new(2);
    assert!(!batch.push_line("first\r\n"));
    assert!(!batch.push_line("\n"));
    assert!(batch.push_line("second"));
    assert_eq!(batch.take(), vec!["first".to_string(), "second".to_string()]);
    assert!(batch.take().is_empty());
}

#[test]
fn imported_lines_are_parsed_from_their_file() {
    let engine = ParserEngine::new();
    let source = import_source_addr("/in/a/day0.log");
    assert_eq!(source, "file:///in/a/day0.log");
    let lines = vec![
        "src=10.0.0.1 dst=10.0.0.2 proto=TCP action=deny".to_string(),
        "garbage".to_string(),
    ];
    let now = Timestamp::from_unix(1_778_808_000, 0);
    let events = parse_import_lines(&engine, &source, now, &lines);
    assert_eq!(events.len(), 2);
    assert_eq!(events[0].source_addr, source);
    assert_eq!(events[0].parse_status, ParseStatus::Parsed);
    assert_eq!(events[1].parse_status, ParseStatus::Failed);
    assert!(parse_import_lines(&engine, &source, now, &Vec::new()).is_empty());
}

#[test]
fn reparse_existing_keeps_event_ids() {
    let engine = ParserEngine::new();
    let raw = RawLog {
        ingest_time: Timestamp::from_unix(1_778_808_000, 0),
        source_addr: "udp://1.2.3.4:514".to_string(),
        raw: "src=10.0.0.1 dst=10.0.0.2 proto=UDP action=allow".to_string(),
    };
    let mut stored = CanonicalEvent::failed(raw, "old parser");
    stored.event_id = "legacy-1".to_string();
    let reparsed = reparse_event(&engine, stored);
    assert_eq!(reparsed.event_id, "legacy-1");
    assert_eq!(reparsed.parse_status, ParseStatus::Parsed);
    assert_eq!(reparsed.protocol.as_deref(), Some("UDP"));
}
