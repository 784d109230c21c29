use fwlog::adaptive::{extract_generic_pairs, ExtractDiagnostics};
use fwlog::control::LocalParserMetricsBatch;
use fwlog::event::{parse_status_from_str, ParseStatus};
use fwlog::metrics::{MetricsSnapshot, RuntimeMetrics, UdpDropCounter};
use fwlog::route::{PinnedScopeParsers, RouteSnapshot};
use fwlog::scope::{normalize_source_scope, ScopeNormalizationMode};
use fwlog::api::{bounded_limit, MAX_QUERY_LIMIT};

#[test]
fn extractor_returns_borrowed_pairs() {
    let raw = "src=192.168.1.1 dst:10.0.0.1 action=allow";
    let mut diagnostics = ExtractDiagnostics::default();
    let pairs = extract_generic_pairs::<8>(raw, 8192, &mut diagnostics);

    assert_eq!(pairs.pairs.len(), 3);
    assert_eq!(pairs.pairs[0].key, "src");
    assert_eq!(pairs.pairs[0].value, "192.168.1.1");
    assert_eq!(pairs.pairs[1].key, "dst");
    assert_eq!(pairs.pairs[1].value, "10.0.0.1");
    assert!(!diagnostics.pairs_truncated);
}

#[test]
fn extractor_truncates_pairs_without_panic() {
    let raw = "a=1 b=2 c=3";
    let mut diagnostics = ExtractDiagnostics::default();
    let pairs = extract_generic_pairs::<2>(raw, 8192, &mut diagnostics);

    assert_eq!(pairs.pairs.len(), 2);
    assert!(diagnostics.pairs_truncated);
}

#[test]
fn long_line_without_safe_boundary_is_skipped() {
    let raw = "aaaaaaaaaaaaaaaaaaaaaaaaaaaaaaaaaaaa=1";
    let mut diagnostics = ExtractDiagnostics::default();
    let pairs = extract_generic_pairs::<8>(raw, 8, &mut diagnostics);

    assert_eq!(pairs.pairs.len(), 0);
    assert_eq!(
        diagnostics.reason.as_deref(),
        Some("line_too_long_no_safe_boundary")
    );
}

#[test]
fn extractor_handles_utf8_keys_without_splitting_boundaries() {
    let raw = "婧怚P:192.168.1.1 鐩殑IP:10.0.0.1";
    let mut diagnostics = ExtractDiagnostics::default();
    let pairs = extract_generic_pairs::<8>(raw, 8192, &mut diagnostics);

    assert_eq!(pairs.pairs.len(), 2);
    assert_eq!(pairs.pairs[0].key, "婧怚P");
    assert_eq!(pairs.pairs[1].key, "鐩殑IP");
}

#[test]
fn local_batch_aggregates_by_scope_parser_and_status() {
    let mut batch = LocalParserMetricsBatch::default();
    batch.record(
        "source:udp://192.168.1.10",
        "parser:sangfor_nat_v1",
        ParseStatus::Parsed,
    );
    batch.record(
        "source:udp://192.168.1.10",
        "parser:sangfor_nat_v1",
        ParseStatus::Parsed,
    );
    batch.record(
        "source:udp://192.168.1.10",
        "parser:sangfor_nat_v1",
        ParseStatus::Partial,
    );

    let flush = batch.flush();
    assert_eq!(flush.profile_deltas.len(), 2);
    assert!(flush.profile_deltas.iter().any(|delta| {
        delta.scope_key == "source:udp://192.168.1.10"
            && delta.parser_id == "parser:sangfor_nat_v1"
            && delta.status == ParseStatus::Parsed
            && delta.count == 2
    }));
}

#[test]
fn overflow_marks_metrics_gap() {
    let mut batch = LocalParserMetricsBatch::with_max_entries(1);
    batch.record("source:a", "parser:a", ParseStatus::Parsed);
    batch.record("source:b", "parser:b", ParseStatus::Failed);

    assert_eq!(batch.dropped_batches, 1);
    assert!(batch.scope_gaps.contains(&"source:b".to_string()));
}

#[test]
fn default_route_snapshot_preserves_static_family_order() {
    let snapshot = RouteSnapshot::default_static();
    let mut ids = Vec::new();
    snapshot.for_each_parser_id("source:udp://192.168.1.10", |id| ids.push(id.to_string()));

    assert_eq!(
        ids,
        vec![
            "parser:sangfor_nat_v1",
            "parser:generic_kv_v1",
            "parser:rule_based_v1"
        ]
    );
}

#[test]
fn pinned_scope_ids_are_first_without_sorting() {
    let snapshot = RouteSnapshot::with_pins(vec![PinnedScopeParsers {
        scope_key: "source:udp://192.168.1.10".to_string(),
        parser_ids: vec![
            "rule:default:CriticalCustomRule".to_string(),
            "parser:sangfor_nat_v1".to_string(),
        ],
    }]);

    let mut ids = Vec::new();
    snapshot.for_each_parser_id("source:udp://192.168.1.10", |id| ids.push(id.to_string()));
    assert_eq!(ids[0], "rule:default:CriticalCustomRule");
    assert_eq!(ids[1], "parser:sangfor_nat_v1");
    assert!(ids.iter().any(|id| id == "parser:generic_kv_v1"));
}

#[test]
fn default_adapter_registration_keeps_adapters_before_generic_fallback() {
    let mut snapshot = RouteSnapshot::default_static();
    snapshot.register_default_adapter("parser:custom_v1");

    let mut ids = Vec::new();
    snapshot.for_each_parser_id("source:udp://192.168.1.10", |id| ids.push(id.to_string()));

    assert_eq!(
        ids,
        vec![
            "parser:sangfor_nat_v1",
            "parser:custom_v1",
            "parser:generic_kv_v1",
            "parser:rule_based_v1"
        ]
    );
}

#[test]
fn source_ip_mode_drops_ephemeral_ports() {
    let scope =
        normalize_source_scope("udp://192.168.1.10:55123", ScopeNormalizationMode::SourceIp);
    assert_eq!(scope.scope_key, "source:udp://192.168.1.10");
    assert_eq!(scope.normalized_source, "udp://192.168.1.10");
    assert!(!scope.unknown_source_bucket);
}

#[test]
fn source_ip_port_mode_preserves_port() {
    let scope =
        normalize_source_scope("tcp://127.0.0.1:1514", ScopeNormalizationMode::SourceIpPort);
    assert_eq!(scope.scope_key, "source:tcp://127.0.0.1:1514");
}

#[test]
fn malformed_sources_use_stable_unknown_hash_bucket() {
    let first = normalize_source_scope("not a uri", ScopeNormalizationMode::SourceIp);
    let second = normalize_source_scope("not a uri", ScopeNormalizationMode::SourceIp);
    let other = normalize_source_scope("also not a uri", ScopeNormalizationMode::SourceIp);

    assert!(first.scope_key.starts_with("source:unknown:"));
    assert_eq!(first.scope_key, second.scope_key);
    assert_ne!(first.scope_key, other.scope_key);
    assert!(first.unknown_source_bucket);
    assert!(!first.adaptive_learning_enabled);
}

#[test]
fn parquet_parse_status_preserves_partial() {
    assert_eq!(parse_status_from_str("parsed"), ParseStatus::Parsed);
    assert_eq!(parse_status_from_str("partial"), ParseStatus::Partial);
    assert_eq!(parse_status_from_str("failed"), ParseStatus::Failed);
}

#[test]
fn bounded_limit_clamps_zero_and_huge_values() {
    assert_eq!(bounded_limit(0), 1);
    assert_eq!(bounded_limit(20), 20);
    assert_eq!(bounded_limit(usize::MAX), MAX_QUERY_LIMIT);
}

#[test]
fn snapshot_reports_incremented_counters() {
    let metrics = RuntimeMetrics::default();

    metrics.inc_tcp_received();
    metrics.inc_udp_received();
    metrics.inc_udp_dropped();
    metrics.inc_spool_written();
    metrics.add_events_stored(3);
    metrics.inc_batches_stored();
    metrics.inc_worker_errors();

    assert_eq!(
        metrics.snapshot(),
        MetricsSnapshot {
            tcp_received: 1,
            udp_received: 1,
            udp_dropped: 1,
            spool_written: 1,
            spool_replayed: 0,
            events_stored: 3,
            batches_stored: 1,
            worker_errors: 1
        }
    );
}

#[test]
fn udp_drop_counter_increments_when_queue_full_condition_is_reported() {
    let counter = UdpDropCounter::default();
    counter.increment();
    assert_eq!(counter.get(), 1);
}

#[test]
fn metrics_clones_share_their_counters() {
    let metrics = RuntimeMetrics::default();
    let handle = metrics.clone();
    metrics.inc_tcp_received();
    handle.add_spool_replayed(4);
    let seen = handle.snapshot();
    assert_eq!(seen.tcp_received, 1);
    assert_eq!(seen.spool_replayed, 4);
    assert_eq!(metrics.snapshot(), seen);

    let counter = UdpDropCounter::default();
    let other = counter.clone();
    counter.increment();
    other.increment();
    assert_eq!(counter.get(), 2);
    assert_eq!(other.get(), 2);
}
