use fwlog::api::{archive_rows_wanted, day_search_query, query_date_days, search_scope, ExportFormat, ExportJobRequest, SearchQuery, SearchScope};
use fwlog::config::PipelineConfig;
use fwlog::event::{RawLog, Timestamp};
use fwlog::export::{new_export_job, DownloadRefusal, ExportJobs};
use fwlog::sangfor::SangforAdapter;
use fwlog::spool::{ReplaySegment, SpoolRecord};
use fwlog::worker::{
    committed_segment_path, events_from_records, parse_batch, worker_settings, WorkerAction,
    WorkerBatch, WorkerEvent,
};

fn raw(line: &str) -> RawLog {
    RawLog {
        ingest_time: Timestamp::from_unix(1_778_808_000, 0),
        source_addr: "udp://192.168.0.1:514".to_string(),
        raw: line.to_string(),
    }
}

#[test]
fn worker_flushes_full_batches_timeouts_and_shutdown() {
    let (batch_size, interval) = worker_settings(&PipelineConfig { ingress_queue: 10, batch_size: 0, flush_interval_ms: 5 });
    assert_eq!((batch_size, interval), (1, 100));
    let mut batch = WorkerBatch::new(2);
    assert_eq!(batch.step(WorkerEvent::Received(raw("a"))), WorkerAction::Continue);
    assert_eq!(batch.step(WorkerEvent::Received(raw("b"))), WorkerAction::Flush);
    let lines = batch.take();
    assert_eq!(lines.len(), 2);
    assert_eq!(lines[1].raw, "b");
    assert!(batch.take().is_empty());
    assert_eq!(batch.step(WorkerEvent::Timeout), WorkerAction::Flush);
    assert_eq!(batch.step(WorkerEvent::Received(raw("c"))), WorkerAction::Continue);
    assert_eq!(batch.step(WorkerEvent::Disconnected), WorkerAction::FlushAndStop);
    assert_eq!(batch.take().len(), 1);
}

#[test]
fn batches_and_replayed_records_parse_in_order() {
    let adapter = SangforAdapter;
    let lines = vec![
        raw("Sangfor: src=192.168.1.10 dst=8.8.8.8 proto=UDP action=allow"),
        raw("nothing to see"),
    ];
    let events = parse_batch(&adapter, &lines);
    assert_eq!(events.len(), 2);
    assert_eq!(events[0].src_ip.as_deref(), Some("192.168.1.10"));
    assert_eq!(events[1].raw, "nothing to see");
    assert!(parse_batch(&adapter, &Vec::new()).is_empty());

    let records = vec![SpoolRecord {
        offset: 1,
        ingest_time: Timestamp::from_unix(1_778_808_000, 0),
        source_addr: "tcp://10.0.0.1:1514".to_string(),
        raw: "Sangfor: src=10.0.0.1 dst=10.0.0.2 action=deny".to_string(),
    }];
    let events = events_from_records(&adapter, &records);
    assert_eq!(events.len(), 1);
    assert_eq!(events[0].source_addr, "tcp://10.0.0.1:1514");
    assert_eq!(events[0].action.as_deref(), Some("deny"));
}

#[test]
fn rename_segment_to_committed_changes_extension() {
    let segment = ReplaySegment { path: "/spool/segment-commit.sealed".to_string(), name: "segment-commit.sealed".to_string() };
    let committed = committed_segment_path(&segment);
    assert!(committed.ends_with(".committed"));
    assert_eq!(committed, "/spool/segment-commit.committed");
}

fn search(date_from: Option<&str>, date_to: Option<&str>) -> SearchQuery {
    SearchQuery {
        scope: "all".to_string(),
        day: None,
        date_from: date_from.map(|d| d.to_string()),
        date_to: date_to.map(|d| d.to_string()),
        device: None,
        device_id: None,
        src_ip: None,
        dst_ip: None,
        protocol: Some("tcp".to_string()),
        action: None,
        keyword: None,
        include_failed: false,
        limit: 10,
    }
}

#[test]
fn date_ranges_expand_to_each_day() {
    let days = query_date_days(&search(Some("2024-02-27"), Some("20240302"))).unwrap().unwrap();
    assert_eq!(days, vec!["2024-02-27", "2024-02-28", "2024-02-29", "2024-03-01", "2024-03-02"]);
    let days = query_date_days(&search(Some("2023-12-31"), Some("2024-01-01"))).unwrap().unwrap();
    assert_eq!(days, vec!["2023-12-31", "2024-01-01"]);
    let days = query_date_days(&search(Some("2025-02-28"), Some("2025-03-01"))).unwrap().unwrap();
    assert_eq!(days, vec!["2025-02-28", "2025-03-01"]);
    assert_eq!(query_date_days(&search(Some("2024-01-01"), None)).unwrap(), None);
    assert_eq!(query_date_days(&search(Some("2024-02-30"), Some("2024-03-01"))).unwrap(), None);
    assert_eq!(
        query_date_days(&search(Some("2024-03-02"), Some("2024-03-01"))).unwrap_err(),
        "date_to must be greater than or equal to date_from"
    );
    assert_eq!(query_date_days(&search(Some("2024-01-01"), Some("2024-12-31"))).unwrap().unwrap().len(), 366);
    assert_eq!(
        query_date_days(&search(Some("2023-01-01"), Some("2024-01-02"))).unwrap_err(),
        "date range must not exceed 366 days"
    );
}

#[test]
fn search_scopes_and_day_queries() {
    assert_eq!(search_scope("HOT").unwrap(), SearchScope { hot: true, archive: false });
    assert_eq!(search_scope("archive").unwrap(), SearchScope { hot: false, archive: true });
    assert_eq!(search_scope("All").unwrap(), SearchScope { hot: true, archive: true });
    assert_eq!(search_scope("cold").unwrap_err(), "scope must be hot, archive, or all");
    let q = day_search_query(&search(Some("2024-01-01"), Some("2024-01-02")), "2024-01-01".to_string());
    assert_eq!(q.day.as_deref(), Some("2024-01-01"));
    assert!(q.date_from.is_none() && q.date_to.is_none());
    assert_eq!(q.protocol.as_deref(), Some("tcp"));
}

fn export_request(format: ExportFormat) -> ExportJobRequest {
    ExportJobRequest {
        scope: "all".to_string(),
        day: None,
        date_from: None,
        date_to: None,
        device: None,
        device_id: None,
        src_ip: None,
        dst_ip: None,
        protocol: None,
        action: None,
        keyword: None,
        format,
        include_failed: false,
        limit: 10,
    }
}

#[test]
fn export_jobs_are_queued_updated_listed_and_expired() {
    let now = Timestamp::from_unix(1_778_808_000, 0);
    let job = new_export_job(&export_request(ExportFormat::Csv), now, 7).unwrap();
    assert_eq!(job.job_id, "export-20260515012000.000000-7");
    assert_eq!(job.file_name, "export-20260515012000.000000-7.csv");
    assert_eq!(job.download_url, "/api/export/jobs/export-20260515012000.000000-7/download");
    assert_eq!(job.status, "queued");
    assert_eq!(job.created_at, "2026-05-15T01:20:00+00:00");
    assert_eq!(job.expires_at, "2026-05-16T01:20:00+00:00");

    let later = new_export_job(&export_request(ExportFormat::Zst), Timestamp::from_unix(1_778_808_060, 0), 8).unwrap();
    let mut jobs = ExportJobs::new();
    jobs.insert(job.clone());
    jobs.insert(later.clone());
    assert_eq!(jobs.download_file_name(&job.job_id), Err(DownloadRefusal::NotCompleted));
    assert_eq!(jobs.download_file_name("missing"), Err(DownloadRefusal::NotFound));

    jobs.update(&job.job_id, "running", 0, 0, None, "t1".to_string());
    jobs.update(&job.job_id, "completed", 0, 0, None, "t2".to_string());
    let done = jobs.get(&job.job_id).unwrap();
    assert_eq!(done.status, "completed");
    assert_eq!(done.rows, 0);
    assert_eq!(done.updated_at, "t2");
    assert_eq!(jobs.download_file_name(&job.job_id).unwrap(), job.file_name);
    jobs.update(&later.job_id, "failed", 0, 0, Some("boom".to_string()), "t3".to_string());
    assert_eq!(jobs.get(&later.job_id).unwrap().error.as_deref(), Some("boom"));

    let listed = jobs.newest_first();
    assert_eq!(listed[0].job_id, later.job_id);
    assert_eq!(listed[1].job_id, job.job_id);

    jobs.retain_alive(Timestamp::from_unix(1_778_808_000 + 86_400, 0));
    let remaining = jobs.newest_first();
    assert_eq!(remaining.len(), 1);
    assert_eq!(remaining[0].job_id, later.job_id);
}

#[test]
fn archive_rows_wanted_counts_what_the_hot_store_left() {
    let all = SearchScope { hot: true, archive: true };
    let hot = SearchScope { hot: true, archive: false };
    assert_eq!(archive_rows_wanted(&all, 30, 100), Some(70));
    assert_eq!(archive_rows_wanted(&all, 100, 100), None);
    assert_eq!(archive_rows_wanted(&hot, 30, 100), None);
}
