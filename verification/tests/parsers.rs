use fwlog::event::{make_event_id, CanonicalEvent, ParseStatus, RawLog, Timestamp};
use fwlog::generic::GenericKvParser;
use fwlog::rule::{FieldMapping, ParseRule, RuleBasedParser};
use fwlog::sangfor::{LogAdapter, SangforAdapter};

fn raw(line: &str) -> RawLog {
    RawLog {
        ingest_time: Timestamp::from_unix(1_778_808_000, 0),
        source_addr: "tcp://127.0.0.1:1514".to_string(),
        raw: line.to_string(),
    }
}

/// Reads `[[rules]]` tables of a TOML document into rules.
fn rules_from_toml(text: &str) -> Vec<ParseRule> {
    let value: toml::Value = toml::from_str(text).unwrap();
    let mut out = Vec::new();
    for rule in value.get("rules").unwrap().as_array().unwrap() {
        let mut mappings = Vec::new();
        for m in rule.get("field_mappings").unwrap().as_array().unwrap() {
            mappings.push(FieldMapping {
                target: m.get("target").unwrap().as_str().unwrap().to_string(),
                source: m.get("source").unwrap().as_str().unwrap().to_string(),
                transform: m
                    .get("transform")
                    .and_then(|t| t.as_str())
                    .map(|t| t.to_string()),
            });
        }
        out.push(ParseRule {
            name: rule.get("name").unwrap().as_str().unwrap().to_string(),
            priority: rule.get("priority").unwrap().as_integer().unwrap() as i32,
            match_pattern: rule.get("match_pattern").unwrap().as_str().unwrap().to_string(),
            field_mappings: mappings,
        });
    }
    out
}

#[test]
fn parses_syslog_prefixed_sangfor_line() {
    let event = SangforAdapter.parse(raw("<134>May 15 10:00:01 fw Sangfor: src=192.168.1.10 dst=8.8.8.8 sport=51514 dport=53 proto=UDP action=allow severity=info"));

    assert_eq!(event.parse_status, ParseStatus::Parsed);
    assert_eq!(event.src_ip.as_deref(), Some("192.168.1.10"));
    assert_eq!(event.dst_ip.as_deref(), Some("8.8.8.8"));
    assert_eq!(event.dst_port, Some(53));
    assert_eq!(event.protocol.as_deref(), Some("UDP"));
    assert_eq!(event.action.as_deref(), Some("allow"));
}

#[test]
fn parses_four_supported_sample_shapes_and_fails_invalid_line() {
    let lines = [
        "<134>May 15 10:00:01 fw Sangfor: src=192.168.1.10 dst=8.8.8.8 sport=51514 dport=53 proto=UDP action=allow severity=info",
        "<134>May 15 10:00:02 fw Sangfor: src=192.168.1.20 dst=1.1.1.1 sport=44321 dport=443 proto=TCP action=deny severity=high",
        "Sangfor: src=10.0.0.5 dst=172.16.0.10 sport=12345 dport=80 proto=TCP action=allow severity=medium",
        "date=2026-05-15 src=10.10.10.10 dst=10.10.20.20 sport=60000 dport=22 proto=TCP action=deny severity=critical",
    ];

    for line in lines {
        assert_eq!(
            SangforAdapter.parse(raw(line)).parse_status,
            ParseStatus::Parsed
        );
    }

    let failed = SangforAdapter.parse(raw("this is not a valid firewall log"));
    assert_eq!(failed.parse_status, ParseStatus::Failed);
    assert!(failed.parse_error.is_some());
}

#[test]
fn parses_chinese_sangfor_nat_line() {
    let event = SangforAdapter.parse(raw("Apr 23 20:09:52 localhost nat: 日志类型:NAT日志, NAT类型:snat, 源IP:2.55.80.6, 源端口:54213, 目的IP:211.93.49.88, 目的端口:46541, 协议:17, 转换后的IP:58.216.48.6, 转换后的端口:54213"));

    assert_eq!(event.parse_status, ParseStatus::Parsed);
    assert_eq!(event.src_ip.as_deref(), Some("2.55.80.6"));
    assert_eq!(event.src_port, Some(54213));
    assert_eq!(event.dst_ip.as_deref(), Some("211.93.49.88"));
    assert_eq!(event.dst_port, Some(46541));
    assert_eq!(event.protocol.as_deref(), Some("UDP"));
    assert_eq!(event.action.as_deref(), Some("snat"));
}

#[test]
fn parses_plain_kv_line() {
    let line = "src=192.168.1.1 dst=10.0.0.1 sport=54321 dport=80 proto=TCP action=allow";
    let event = GenericKvParser.parse(raw(line));
    assert_eq!(event.parse_status, ParseStatus::Parsed);
    assert_eq!(event.src_ip.as_deref(), Some("192.168.1.1"));
    assert_eq!(event.dst_ip.as_deref(), Some("10.0.0.1"));
    assert_eq!(event.src_port, Some(54321));
    assert_eq!(event.dst_port, Some(80));
    assert_eq!(event.protocol.as_deref(), Some("TCP"));
    assert_eq!(event.action.as_deref(), Some("allow"));
}

#[test]
fn parses_chinese_kv_line() {
    let line =
        "源IP:192.168.1.10, 目的IP:8.8.8.8, 源端口:12345, 目的端口:53, 协议:17, NAT类型:snat";
    let event = GenericKvParser.parse(raw(line));
    assert_eq!(event.parse_status, ParseStatus::Parsed);
    assert_eq!(event.src_ip.as_deref(), Some("192.168.1.10"));
    assert_eq!(event.dst_ip.as_deref(), Some("8.8.8.8"));
    assert_eq!(event.src_port, Some(12345));
    assert_eq!(event.dst_port, Some(53));
    assert_eq!(event.protocol.as_deref(), Some("UDP"));
    assert_eq!(event.action.as_deref(), Some("snat"));
}

#[test]
fn falls_back_to_ip_extraction_when_keys_missing() {
    let line = "192.168.1.1 connected to 10.0.0.1 on port 443 action=block";
    let event = GenericKvParser.parse(raw(line));
    assert_eq!(event.parse_status, ParseStatus::Parsed);
    assert_eq!(event.src_ip.as_deref(), Some("192.168.1.1"));
    assert_eq!(event.dst_ip.as_deref(), Some("10.0.0.1"));
    assert_eq!(event.action.as_deref(), Some("block"));
}

#[test]
fn fails_on_completely_unstructured_line() {
    let line = "this is just random text without any structure";
    let event = GenericKvParser.parse(raw(line));
    assert_eq!(event.parse_status, ParseStatus::Failed);
}

#[test]
fn parses_quoted_values() {
    let line = r#"src="192.168.1.1" dst='10.0.0.1' action="deny" proto="udp""#;
    let event = GenericKvParser.parse(raw(line));
    assert_eq!(event.parse_status, ParseStatus::Parsed);
    assert_eq!(event.src_ip.as_deref(), Some("192.168.1.1"));
    assert_eq!(event.dst_ip.as_deref(), Some("10.0.0.1"));
}

#[test]
fn normalizes_protocol_numbers() {
    let line = "src=1.1.1.1 dst=2.2.2.2 action=allow proto=6";
    let event = GenericKvParser.parse(raw(line));
    assert_eq!(event.protocol.as_deref(), Some("TCP"));
}

#[test]
fn parses_via_toml_rule() {
    let toml = r#"
[[rules]]
name = "Cisco ASA"
priority = 10
match_pattern = '^(?P<timestamp>\w+ \d+ \d+:\d+:\d+) (?P<device>\S+) .*src=(?P<src>\S+) dst=(?P<dst>\S+) .*action=(?P<action>\S+)'
field_mappings = [
    { target = "src_ip", source = "src" },
    { target = "dst_ip", source = "dst" },
    { target = "action", source = "action" },
    { target = "device_id", source = "device" },
]
"#;

    let parser = RuleBasedParser::from_rules(rules_from_toml(toml)).unwrap();
    let line =
        "May 15 10:00:01 asa-fw-01 %ASA-6-302013: src=192.168.1.1 dst=10.0.0.1 action=permit";
    let event = parser.parse(raw(line));

    assert_eq!(event.parse_status, ParseStatus::Parsed);
    assert_eq!(event.src_ip.as_deref(), Some("192.168.1.1"));
    assert_eq!(event.dst_ip.as_deref(), Some("10.0.0.1"));
    assert_eq!(event.action.as_deref(), Some("permit"));
    assert_eq!(event.device_id.as_deref(), Some("asa-fw-01"));
    assert_eq!(event.vendor.as_deref(), Some("Cisco ASA"));
}

#[test]
fn parses_with_transform() {
    let rule = ParseRule {
        name: "TestRule".to_string(),
        priority: 1,
        match_pattern: r"src=(?P<src>\S+) proto=(?P<proto>\S+) action=(?P<action>\S+)"
            .to_string(),
        field_mappings: vec![
            FieldMapping {
                target: "src_ip".to_string(),
                source: "src".to_string(),
                transform: None,
            },
            FieldMapping {
                target: "protocol".to_string(),
                source: "proto".to_string(),
                transform: Some("normalize_protocol".to_string()),
            },
            FieldMapping {
                target: "action".to_string(),
                source: "action".to_string(),
                transform: Some("uppercase".to_string()),
            },
        ],
    };

    let parser = RuleBasedParser::from_rules(vec![rule]).unwrap();
    let event = parser.parse(raw("src=1.2.3.4 proto=6 action=allow"));

    assert_eq!(event.protocol.as_deref(), Some("TCP"));
    assert_eq!(event.action.as_deref(), Some("ALLOW"));
}

#[test]
fn empty_parser_fails_gracefully() {
    let parser = RuleBasedParser::empty();
    let event = parser.parse(raw("anything"));
    assert_eq!(event.parse_status, ParseStatus::Failed);
}

#[test]
fn priority_order_is_respected() {
    let rules = vec![
        ParseRule {
            name: "HighPriority".to_string(),
            priority: 1,
            match_pattern: r".*action=(?P<action>\S+).*".to_string(),
            field_mappings: vec![FieldMapping {
                target: "action".to_string(),
                source: "action".to_string(),
                transform: None,
            }],
        },
        ParseRule {
            name: "LowPriority".to_string(),
            priority: 99,
            match_pattern: r".*action=(?P<action>\S+).*".to_string(),
            field_mappings: vec![FieldMapping {
                target: "action".to_string(),
                source: "action".to_string(),
                transform: None,
            }],
        },
    ];

    let parser = RuleBasedParser::from_rules(rules).unwrap();
    let event = parser.parse(raw("action=block"));
    assert_eq!(event.vendor.as_deref(), Some("HighPriority"));
}

#[test]
fn duplicate_rule_names_are_rejected() {
    let rule = ParseRule {
        name: "Duplicate".to_string(),
        priority: 1,
        match_pattern: r"action=(?P<action>\S+)".to_string(),
        field_mappings: vec![FieldMapping {
            target: "action".to_string(),
            source: "action".to_string(),
            transform: None,
        }],
    };

    let err = RuleBasedParser::from_rules(vec![rule.clone(), rule]).unwrap_err();
    assert!(err.contains("duplicate rule name"));
}

#[test]
fn classify_firewall_tuple_distinguishes_parsed_partial_failed() {
    let mut event = CanonicalEvent::failed(
        RawLog {
            ingest_time: Timestamp::from_unix(1_778_808_000, 0),
            source_addr: "tcp://127.0.0.1:1514".to_string(),
            raw: "raw".to_string(),
        },
        "bad",
    );

    event.src_ip = Some("192.168.1.1".to_string());
    event.dst_ip = Some("10.0.0.1".to_string());
    event.protocol = Some("UDP".to_string());
    event.parse_error = Some("old error".to_string());
    event.classify_firewall_tuple();
    assert_eq!(event.parse_status, ParseStatus::Parsed);
    assert_eq!(event.parse_error, None);

    event.protocol = None;
    event.action = None;
    event.classify_firewall_tuple();
    assert_eq!(event.parse_status, ParseStatus::Partial);
    assert!(event
        .parse_error
        .as_deref()
        .unwrap()
        .contains("minimum searchable tuple"));

    event.src_ip = None;
    event.dst_ip = None;
    event.classify_firewall_tuple();
    assert_eq!(event.parse_status, ParseStatus::Failed);
}

#[test]
fn failed_events_preserve_raw() {
    let raw = RawLog {
        ingest_time: Timestamp::from_unix(1_778_808_000, 0),
        source_addr: "tcp://127.0.0.1:1514".to_string(),
        raw: "not a firewall log".to_string(),
    };

    let event = CanonicalEvent::failed(raw, "missing required fields");

    assert_eq!(event.raw, "not a firewall log");
    assert_eq!(event.source_addr, "tcp://127.0.0.1:1514");
    assert_eq!(event.parse_status, ParseStatus::Failed);
    assert_eq!(
        event.parse_error.as_deref(),
        Some("missing required fields")
    );
}

#[test]
fn event_id_is_stable_for_same_raw_source_and_timestamp() {
    let ts = Timestamp::from_unix(1_778_808_000, 42);

    let first = make_event_id("raw", ts, "tcp://127.0.0.1:1514");
    let second = make_event_id("raw", ts, "tcp://127.0.0.1:1514");

    assert_eq!(first, second);
}
