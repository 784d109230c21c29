use fwlog::diagnostics::ParseDiagnosticsBuffer;
use fwlog::engine::ParserEngine;
use fwlog::event::{CanonicalEvent, ParseStatus, RawLog, Timestamp};
use fwlog::learn::{AdaptiveFieldRule, AdaptiveRuleSnapshot, AdaptiveValueType, CanonicalField};
use fwlog::route::{PinnedScopeParsers, RouteSnapshot};
use fwlog::rule::{FieldMapping, ParseRule, RuleBasedParser};
use fwlog::sangfor::{LogAdapter, SangforAdapter};

fn raw(line: &str) -> RawLog {
    RawLog {
        ingest_time: Timestamp::from_unix(1_778_808_000, 0),
        source_addr: "tcp://127.0.0.1:1514".to_string(),
        raw: line.to_string(),
    }
}

/// Reads the `[[rules]]` tables of a TOML document.
fn engine_rules_from_toml(text: &str) -> Vec<ParseRule> {
    let value: toml::Value = toml::from_str(text).unwrap();
    let mut out = Vec::new();
    for rule in value.get("rules").unwrap().as_array().unwrap() {
        let mut mappings = Vec::new();
        for m in rule.get("field_mappings").unwrap().as_array().unwrap() {
            mappings.push(FieldMapping {
                target: m.get("target").unwrap().as_str().unwrap().to_string(),
                source: m.get("source").unwrap().as_str().unwrap().to_string(),
                transform: m.get("transform").and_then(|t| t.as_str()).map(|t| t.to_string()),
            });
        }
        out.push(ParseRule {
            name: rule.get("name").unwrap().as_str().unwrap().to_string(),
            priority: rule.get("priority").unwrap().as_integer().unwrap() as i32,
            match_pattern: rule.get("match_pattern").unwrap().as_str().unwrap().to_string(),
            field_mappings: mappings,
        });
    }
    out
}

fn with_rules_toml(engine: ParserEngine, text: &str) -> ParserEngine {
    engine.with_rules(engine_rules_from_toml(text)).unwrap()
}
#[test]
fn layer1_sangfor_adapter_parses_known_format() {
    let engine = ParserEngine::new();
    let event = engine.parse(raw(
        "Sangfor: src=192.168.1.10 dst=8.8.8.8 sport=51514 dport=53 proto=UDP action=allow severity=info",
    ));
    assert_eq!(event.parse_status, ParseStatus::Parsed);
    assert_eq!(event.vendor.as_deref(), Some("Sangfor"));
    assert_eq!(event.src_ip.as_deref(), Some("192.168.1.10"));
}

#[test]
fn layer2_generic_kv_parses_unknown_format() {
    let engine = ParserEngine::new();
    let event = engine.parse(raw(
        "src=10.0.0.1 dst=10.0.0.2 sport=12345 dport=443 proto=TCP action=deny",
    ));
    assert_eq!(event.parse_status, ParseStatus::Parsed);
    assert_eq!(event.src_ip.as_deref(), Some("10.0.0.1"));
    assert_eq!(event.action.as_deref(), Some("deny"));
    assert_eq!(event.vendor, None);
}

#[test]
fn layer3_rule_based_parses_configured_format() {
    let toml = r#"
[[rules]]
name = "CustomArrow"
priority = 1
match_pattern = '^(?P<ts>\S+) (?P<dev>\S+) .* (?P<src>\d+\.\d+\.\d+\.\d+) -> (?P<dst>\d+\.\d+\.\d+\.\d+) (?P<act>\S+)'
field_mappings = [
{ target = "src_ip", source = "src" },
{ target = "dst_ip", source = "dst" },
{ target = "action", source = "act" },
{ target = "device_id", source = "dev" },
]
"#;
    let engine = with_rules_toml(ParserEngine::new(), toml);

    let event = engine.parse(raw(
        "2024-01-15T10:00:00Z my-device [firewall] 172.16.0.1 -> 192.168.0.1 DROP",
    ));
    assert_eq!(event.parse_status, ParseStatus::Parsed);
    assert_eq!(event.src_ip.as_deref(), Some("172.16.0.1"));
    assert_eq!(event.dst_ip.as_deref(), Some("192.168.0.1"));
    assert_eq!(event.vendor.as_deref(), Some("CustomArrow"));
    assert_eq!(event.device_id.as_deref(), Some("my-device"));
    assert_eq!(event.action.as_deref(), Some("DROP"));
}

#[test]
fn all_layers_fail_on_gibberish() {
    let engine = ParserEngine::new();
    let event = engine.parse(raw("totally unstructured garbage line"));
    assert_eq!(event.parse_status, ParseStatus::Failed);
    assert!(event
        .parse_error
        .as_deref()
        .unwrap()
        .contains("no parser matched"));
}

#[test]
fn parse_inner_records_successful_parser() {
    let engine = ParserEngine::new();
    let mut diagnostics = ParseDiagnosticsBuffer::default();
    let result = engine.parse_inner(
        raw("Sangfor: src=192.168.1.10 dst=8.8.8.8 proto=UDP action=allow"),
        &mut diagnostics,
    );

    assert_eq!(result.event.parse_status, ParseStatus::Parsed);
    assert_eq!(
        diagnostics.matched_parser_id.as_deref(),
        Some("parser:sangfor_nat_v1")
    );
    assert!(diagnostics
        .attempts
        .iter()
        .any(|attempt| attempt.parser_id == "parser:sangfor_nat_v1"));
}

#[test]
fn parse_inner_records_all_failed_attempts() {
    let engine = ParserEngine::new();
    let mut diagnostics = ParseDiagnosticsBuffer::default();
    let result = engine.parse_inner(raw("totally unstructured garbage line"), &mut diagnostics);

    assert_eq!(result.event.parse_status, ParseStatus::Failed);
    assert!(diagnostics
        .attempts
        .iter()
        .any(|attempt| attempt.parser_id == "parser:sangfor_nat_v1"));
    assert!(diagnostics
        .attempts
        .iter()
        .any(|attempt| attempt.parser_id == "parser:generic_kv_v1"));
    assert!(diagnostics
        .failure_reason
        .as_deref()
        .unwrap()
        .contains("no parser matched"));
}

#[test]
fn parse_wrapper_matches_parse_inner_event() {
    let engine = ParserEngine::new();
    let line = "src=10.0.0.1 dst=10.0.0.2 sport=12345 dport=443 proto=TCP action=deny";
    let wrapped = engine.parse(raw(line));
    let mut diagnostics = ParseDiagnosticsBuffer::default();
    let inner = engine.parse_inner(raw(line), &mut diagnostics).event;

    assert_eq!(wrapped, inner);
    assert_eq!(
        diagnostics.matched_parser_id.as_deref(),
        Some("parser:generic_kv_v1")
    );
}

#[test]
fn parse_returns_partial_for_incomplete_searchable_tuple() {
    let engine = ParserEngine::new();
    let event = engine.parse(raw("src=10.0.0.1 proto=TCP"));

    assert_eq!(event.parse_status, ParseStatus::Partial);
    assert_eq!(event.src_ip.as_deref(), Some("10.0.0.1"));
    assert_eq!(event.protocol.as_deref(), Some("TCP"));
    assert!(event
        .parse_error
        .as_deref()
        .unwrap()
        .contains("minimum searchable tuple"));
}

#[test]
fn parse_inner_records_partial_parser_attribution() {
    let engine = ParserEngine::new();
    let mut diagnostics = ParseDiagnosticsBuffer::default();
    let result = engine.parse_inner(raw("src=10.0.0.1 proto=TCP"), &mut diagnostics);

    assert_eq!(result.event.parse_status, ParseStatus::Partial);
    assert_eq!(
        diagnostics.matched_parser_id.as_deref(),
        Some("parser:generic_kv_v1")
    );
}

#[test]
fn pinned_route_can_prioritize_rule_parser_before_generic() {
    let toml = r#"
[[rules]]
name = "PinnedRule"
priority = 1
match_pattern = '^custom src=(?P<src>\d+\.\d+\.\d+\.\d+) dst=(?P<dst>\d+\.\d+\.\d+\.\d+) action=(?P<act>\S+)'
field_mappings = [
{ target = "src_ip", source = "src" },
{ target = "dst_ip", source = "dst" },
{ target = "action", source = "act" },
]
"#;
    let route = RouteSnapshot::with_pins(vec![PinnedScopeParsers {
        scope_key: "source:tcp://127.0.0.1".to_string(),
        parser_ids: vec![RuleBasedParser::PARSER_ID.to_string()],
    }]);
    let engine = with_rules_toml(ParserEngine::new(), toml).with_route_snapshot(route);
    let mut diagnostics = ParseDiagnosticsBuffer::default();
    let result = engine.parse_inner(
        raw("custom src=10.0.0.1 dst=10.0.0.2 action=deny"),
        &mut diagnostics,
    );

    assert_eq!(result.event.parse_status, ParseStatus::Parsed);
    assert_eq!(result.event.vendor.as_deref(), Some("PinnedRule"));
    assert_eq!(
        diagnostics.matched_parser_id.as_deref(),
        Some(RuleBasedParser::PARSER_ID)
    );
}

struct CustomAdapter;

impl LogAdapter for CustomAdapter {
    fn name(&self) -> &'static str {
        "CustomAdapter"
    }

    fn parser_id(&self) -> &'static str {
        "parser:custom_v1"
    }

    fn can_parse(&self, raw: &RawLog) -> bool {
        raw.raw.starts_with("custom ")
    }

    fn parse(&self, raw: RawLog) -> CanonicalEvent {
        let mut event = CanonicalEvent::failed(raw, "custom failed");
        event.vendor = Some("Custom".to_string());
        event.src_ip = Some("10.0.0.1".to_string());
        event.dst_ip = Some("10.0.0.2".to_string());
        event.action = Some("allow".to_string());
        event.classify_firewall_tuple();
        event
    }
}

#[test]
fn custom_adapters_are_tried_before_generic_without_explicit_route_pin() {
    let engine = ParserEngine::new().with_adapter(CustomAdapter);
    let mut diagnostics = ParseDiagnosticsBuffer::default();
    let result = engine.parse_inner(
        raw("custom src=192.168.1.1 dst=192.168.1.2 action=deny"),
        &mut diagnostics,
    );

    assert_eq!(result.event.vendor.as_deref(), Some("Custom"));
    assert_eq!(
        diagnostics.matched_parser_id.as_deref(),
        Some("parser:custom_v1")
    );
}

#[test]
fn custom_adapters_survive_route_snapshot_replacement() {
    let route = RouteSnapshot::with_pins(vec![PinnedScopeParsers {
        scope_key: "source:tcp://127.0.0.1".to_string(),
        parser_ids: vec![RuleBasedParser::PARSER_ID.to_string()],
    }]);
    let engine = ParserEngine::new()
        .with_adapter(CustomAdapter)
        .with_route_snapshot(route);
    let mut diagnostics = ParseDiagnosticsBuffer::default();
    let result = engine.parse_inner(
        raw("custom src=192.168.1.1 dst=192.168.1.2 action=deny"),
        &mut diagnostics,
    );

    assert_eq!(result.event.vendor.as_deref(), Some("Custom"));
    assert_eq!(
        diagnostics.matched_parser_id.as_deref(),
        Some("parser:custom_v1")
    );
}

#[test]
fn parser_applies_active_adaptive_rule_after_partial_static_parse() {
    let snapshot = AdaptiveRuleSnapshot::from_rules(vec![AdaptiveFieldRule::active(
        "rule:actName",
        "source:tcp://127.0.0.1",
        "actName",
        CanonicalField::Action,
        AdaptiveValueType::Action,
    )]);
    let engine = ParserEngine::new().with_adaptive_snapshot(snapshot);
    let mut diagnostics = ParseDiagnosticsBuffer::default();

    let result = engine.parse_inner(
        raw("src=10.0.0.1 dst=10.0.0.2 actName=allow"),
        &mut diagnostics,
    );

    assert_eq!(result.event.parse_status, ParseStatus::Parsed);
    assert_eq!(result.event.action.as_deref(), Some("allow"));
    assert_eq!(diagnostics.applied_rules.len(), 1);
}

#[test]
fn parser_records_failed_adaptive_rule_after_partial_static_parse() {
    let snapshot = AdaptiveRuleSnapshot::from_rules(vec![AdaptiveFieldRule::active(
        "rule:bad-dst",
        "source:tcp://127.0.0.1",
        "badDst",
        CanonicalField::DstIp,
        AdaptiveValueType::Ip,
    )]);
    let engine = ParserEngine::new().with_adaptive_snapshot(snapshot);
    let mut diagnostics = ParseDiagnosticsBuffer::default();

    let result = engine.parse_inner(
        raw("src=10.0.0.1 badDst=not-an-ip proto=TCP"),
        &mut diagnostics,
    );

    assert_ne!(result.event.dst_ip.as_deref(), Some("not-an-ip"));
    assert!(diagnostics.applied_rules.is_empty());
    assert_eq!(diagnostics.failed_rules[0].0, "rule:bad-dst");
}

#[test]
fn engine_default_has_one_adapter() {
    let engine = ParserEngine::new();
    assert_eq!(engine.adapter_count(), 1);
}

#[test]
fn with_adapter_increases_count() {
    let engine = ParserEngine::new().with_adapter(SangforAdapter);
    assert_eq!(engine.adapter_count(), 2);
}

#[test]
fn chinese_kv_falls_through_to_layer2() {
    let engine = ParserEngine::new();
    let event = engine.parse(raw(
        "婧怚P:192.168.1.1, 鐩殑IP:10.0.0.1, 鍗忚:6, 鍔ㄤ綔:鍏佽",
    ));
    assert_eq!(event.parse_status, ParseStatus::Parsed);
    assert_eq!(event.protocol.as_deref(), Some("TCP"));
    assert_eq!(event.action.as_deref(), Some("鍏佽"));
}
