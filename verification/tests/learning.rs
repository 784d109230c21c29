use fwlog::diagnostics::ParseDiagnosticsBuffer;
use fwlog::event::{CanonicalEvent, ParseStatus, RawLog, Timestamp};
use fwlog::learn::{
    apply_active_rules, candidate_from_pair, AdaptiveFieldRule, AdaptiveRuleSnapshot,
    AdaptiveRuleStatus, AdaptiveValueType, CanonicalField, RuleCounters,
};

fn raw_line(line: &str) -> RawLog {
    RawLog {
        ingest_time: Timestamp::from_unix(1_778_808_000, 0),
        source_addr: "tcp://127.0.0.1:1514".to_string(),
        raw: line.to_string(),
    }
}

#[test]
fn active_rule_fills_empty_destination_and_reclassifies_partial() {
    let raw = raw_line("dstAddr=10.0.0.2 src=10.0.0.1 proto=TCP");
    let mut event = CanonicalEvent::failed(raw.clone(), "partial");
    event.src_ip = Some("10.0.0.1".to_string());
    event.protocol = Some("TCP".to_string());
    event.classify_firewall_tuple();

    let rules = AdaptiveRuleSnapshot::from_rules(vec![AdaptiveFieldRule::active(
        "rule:source:tcp:dstAddr:dst_ip",
        "source:tcp://127.0.0.1",
        "dstAddr",
        CanonicalField::DstIp,
        AdaptiveValueType::Ip,
    )]);
    let mut diagnostics = ParseDiagnosticsBuffer::default();

    let result = apply_active_rules(
        &rules,
        "source:tcp://127.0.0.1",
        &raw.raw,
        &mut event,
        &mut diagnostics,
    );

    assert_eq!(result.applied, 1);
    assert_eq!(event.dst_ip.as_deref(), Some("10.0.0.2"));
    assert_eq!(event.parse_status, ParseStatus::Parsed);
    assert_eq!(diagnostics.applied_rules.len(), 1);
}

#[test]
fn active_rule_does_not_overwrite_existing_deterministic_field() {
    let raw = raw_line("dstAddr=10.0.0.2 dst=10.0.0.9 src=10.0.0.1 proto=TCP");
    let mut event = CanonicalEvent::failed(raw.clone(), "partial");
    event.src_ip = Some("10.0.0.1".to_string());
    event.dst_ip = Some("10.0.0.9".to_string());
    event.protocol = Some("TCP".to_string());
    event.classify_firewall_tuple();

    let rules = AdaptiveRuleSnapshot::from_rules(vec![AdaptiveFieldRule::active(
        "rule:source:tcp:dstAddr:dst_ip",
        "source:tcp://127.0.0.1",
        "dstAddr",
        CanonicalField::DstIp,
        AdaptiveValueType::Ip,
    )]);
    let mut diagnostics = ParseDiagnosticsBuffer::default();

    let result = apply_active_rules(
        &rules,
        "source:tcp://127.0.0.1",
        &raw.raw,
        &mut event,
        &mut diagnostics,
    );

    assert_eq!(result.applied, 0);
    assert_eq!(event.dst_ip.as_deref(), Some("10.0.0.9"));
    assert!(diagnostics.applied_rules.is_empty());
}

#[test]
fn active_rule_records_failed_rule_on_value_conversion_conflict() {
    let raw = raw_line("dstAddr=not-an-ip src=10.0.0.1 proto=TCP");
    let mut event = CanonicalEvent::failed(raw.clone(), "partial");
    event.src_ip = Some("10.0.0.1".to_string());
    event.protocol = Some("TCP".to_string());
    event.classify_firewall_tuple();
    let rules = AdaptiveRuleSnapshot::from_rules(vec![AdaptiveFieldRule::active(
        "rule:bad-dst",
        "source:tcp://127.0.0.1",
        "dstAddr",
        CanonicalField::DstIp,
        AdaptiveValueType::Ip,
    )]);
    let mut diagnostics = ParseDiagnosticsBuffer::default();

    let result = apply_active_rules(
        &rules,
        "source:tcp://127.0.0.1",
        &raw.raw,
        &mut event,
        &mut diagnostics,
    );

    assert_eq!(result.conflicts, 1);
    assert!(diagnostics.applied_rules.is_empty());
    assert_eq!(diagnostics.failed_rules[0].0, "rule:bad-dst");
    assert_eq!(event.dst_ip, None);
}

#[test]
fn candidate_from_pair_does_not_match_action_substrings() {
    let raw = raw_line("src=10.0.0.1 dst=10.0.0.2 activation=true transaction=abc");
    let mut event = CanonicalEvent::failed(raw, "partial");
    event.src_ip = Some("10.0.0.1".to_string());
    event.dst_ip = Some("10.0.0.2".to_string());
    event.classify_firewall_tuple();

    assert_eq!(candidate_from_pair(&event, "activation", "true"), None);
    assert_eq!(candidate_from_pair(&event, "transaction", "abc"), None);
}

#[test]
fn candidate_from_pair_does_not_treat_bare_target_as_dst_ip() {
    let raw = raw_line("src=10.0.0.1 target=10.0.0.2");
    let mut event = CanonicalEvent::failed(raw, "partial");
    event.src_ip = Some("10.0.0.1".to_string());
    event.classify_firewall_tuple();

    assert_eq!(candidate_from_pair(&event, "target", "10.0.0.2"), None);
    assert_eq!(
        candidate_from_pair(&event, "target_ip", "10.0.0.2"),
        Some((CanonicalField::DstIp, AdaptiveValueType::Ip))
    );
}

#[test]
fn candidate_from_pair_does_not_match_level_substrings() {
    let raw = raw_line("src=10.0.0.1 dst=10.0.0.2 deviceLevelName=gold");
    let mut event = CanonicalEvent::failed(raw, "partial");
    event.src_ip = Some("10.0.0.1".to_string());
    event.dst_ip = Some("10.0.0.2".to_string());
    event.classify_firewall_tuple();

    assert_eq!(candidate_from_pair(&event, "deviceLevelName", "gold"), None);
}

#[test]
fn shadow_rules_count_samples_only_while_in_shadow() {
    let mut rule = AdaptiveFieldRule::new_shadow("source-ip:10.0.0.1", "srcaddr", CanonicalField::SrcIp, AdaptiveValueType::Ip);
    assert_eq!(rule.rule_id, "rule:source-ip:10.0.0.1:srcaddr:src_ip");
    assert_eq!(rule.status, AdaptiveRuleStatus::Shadow);
    assert!(rule.record_shadow_sample(true));
    assert!(rule.record_shadow_sample(false));
    assert_eq!((rule.wins, rule.sample_count), (1, 2));

    rule.status = AdaptiveRuleStatus::Active;
    assert!(!rule.record_shadow_sample(true));
    assert_eq!((rule.wins, rule.sample_count), (1, 2));

    rule.status = AdaptiveRuleStatus::ShadowRecovering;
    rule.wins = u64::MAX;
    assert!(rule.record_shadow_sample(true));
    assert_eq!((rule.wins, rule.sample_count), (u64::MAX, 3));
}

#[test]
fn rule_counters_count_failures_and_conflicts() {
    let mut counters = RuleCounters::default();
    counters.record_applied(ParseStatus::Parsed);
    counters.record_applied(ParseStatus::Partial);
    counters.record_failed();
    assert_eq!(counters.post_activation_total, 3);
    assert_eq!(counters.post_activation_failed, 2);
    assert_eq!(counters.post_activation_conflicts, 1);
}
