//! Adaptive field rules: active rules fill fields the static parsers left empty, and
//! partially parsed lines propose shadow candidates for new rules.
use vstd::prelude::*;
use crate::event::{CanonicalEvent, EventView, ParseStatus, classified, ov};
use crate::diagnostics::{ParseDiagnosticsBuffer, RuleId, rule_ids};
use crate::adaptive::{
    ExtractDiagnostics, GenericPair, extract_generic_pairs, line_pairs, scan_window,
};
use crate::generic::{spec_unquote, unquote};
use crate::ip::{is_ip_addr, spec_is_ip};
use crate::scope::{ScopeNormalizationMode, normalize_source_scope, spec_scope};
use crate::sangfor::{parse_port, spec_port};
use crate::text::{
    ascii_lower_seq, ascii_upper_seq, concat, decimal_chars, owned, str_eq, to_ascii_lowercase,
    to_ascii_uppercase, u64_to_string,
};

verus! {

/// Lifecycle of an adaptive rule.
#[derive(Debug, Clone, Copy, PartialEq, Eq, Structural)]
pub enum AdaptiveRuleStatus {
    Shadow,
    ShadowRecovering,
    Active,
    Disabled,
}

/// The canonical fields adaptive rules can fill.
#[derive(Debug, Clone, Copy, PartialEq, Eq, PartialOrd, Ord, Structural)]
pub enum CanonicalField {
    SrcIp,
    SrcPort,
    DstIp,
    DstPort,
    Protocol,
    Action,
    Severity,
}

/// How a learned value is checked and normalised.
#[derive(Debug, Clone, Copy, PartialEq, Eq, Structural)]
pub enum AdaptiveValueType {
    Ip,
    Port,
    Protocol,
    Action,
    String,
}

impl CanonicalField {
    pub open spec fn spec_name(self) -> Seq<char> {
        match self {
            CanonicalField::SrcIp => "src_ip"@,
            CanonicalField::SrcPort => "src_port"@,
            CanonicalField::DstIp => "dst_ip"@,
            CanonicalField::DstPort => "dst_port"@,
            CanonicalField::Protocol => "protocol"@,
            CanonicalField::Action => "action"@,
            CanonicalField::Severity => "severity"@,
        }
    }

    pub fn as_str(self) -> (r: &'static str)
        ensures
            r@ == self.spec_name(),
    {
        match self {
            CanonicalField::SrcIp => "src_ip",
            CanonicalField::SrcPort => "src_port",
            CanonicalField::DstIp => "dst_ip",
            CanonicalField::DstPort => "dst_port",
            CanonicalField::Protocol => "protocol",
            CanonicalField::Action => "action",
            CanonicalField::Severity => "severity",
        }
    }
}

impl AdaptiveRuleStatus {
    pub open spec fn spec_name(self) -> Seq<char> {
        match self {
            AdaptiveRuleStatus::Shadow => "shadow"@,
            AdaptiveRuleStatus::ShadowRecovering => "shadow_recovering"@,
            AdaptiveRuleStatus::Active => "active"@,
            AdaptiveRuleStatus::Disabled => "disabled"@,
        }
    }

    pub fn as_str(self) -> (r: &'static str)
        ensures
            r@ == self.spec_name(),
    {
        match self {
            AdaptiveRuleStatus::Shadow => "shadow",
            AdaptiveRuleStatus::ShadowRecovering => "shadow_recovering",
            AdaptiveRuleStatus::Active => "active",
            AdaptiveRuleStatus::Disabled => "disabled",
        }
    }
}

impl AdaptiveValueType {
    pub open spec fn spec_name(self) -> Seq<char> {
        match self {
            AdaptiveValueType::Ip => "ip"@,
            AdaptiveValueType::Port => "port"@,
            AdaptiveValueType::Protocol => "protocol"@,
            AdaptiveValueType::Action => "action"@,
            AdaptiveValueType::String => "string"@,
        }
    }

    pub fn as_str(self) -> (r: &'static str)
        ensures
            r@ == self.spec_name(),
    {
        match self {
            AdaptiveValueType::Ip => "ip",
            AdaptiveValueType::Port => "port",
            AdaptiveValueType::Protocol => "protocol",
            AdaptiveValueType::Action => "action",
            AdaptiveValueType::String => "string",
        }
    }
}

/// A learned mapping from a raw key of one source scope to a canonical field, with the
/// counts it was learned from.
#[derive(Debug, Clone, PartialEq)]
pub struct AdaptiveFieldRule {
    pub rule_id: String,
    pub scope_key: String,
    pub raw_key: String,
    pub canonical_field: CanonicalField,
    pub value_type: AdaptiveValueType,
    pub status: AdaptiveRuleStatus,
    pub wins: u64,
    pub sample_count: u64,
    pub disabled_reason: Option<String>,
}

/// What a rule is, for the fields that decide how it applies.
pub struct AdaptiveRuleView {
    pub rule_id: Seq<char>,
    pub scope_key: Seq<char>,
    pub raw_key: Seq<char>,
    pub canonical_field: CanonicalField,
    pub value_type: AdaptiveValueType,
    pub status: AdaptiveRuleStatus,
    pub wins: u64,
    pub sample_count: u64,
    pub disabled_reason: Option<Seq<char>>,
}

impl View for AdaptiveFieldRule {
    type V = AdaptiveRuleView;

    open spec fn view(&self) -> AdaptiveRuleView {
        AdaptiveRuleView {
            rule_id: self.rule_id@,
            scope_key: self.scope_key@,
            raw_key: self.raw_key@,
            canonical_field: self.canonical_field,
            value_type: self.value_type,
            status: self.status,
            wins: self.wins,
            sample_count: self.sample_count,
            disabled_reason: ov(self.disabled_reason),
        }
    }
}

impl AdaptiveFieldRule {
    /// An active rule with no recorded samples.
    pub fn active(
        rule_id: &str,
        scope_key: &str,
        raw_key: &str,
        canonical_field: CanonicalField,
        value_type: AdaptiveValueType,
    ) -> (r: Self)
        ensures
            r@ == (AdaptiveRuleView {
                rule_id: rule_id@,
                scope_key: scope_key@,
                raw_key: raw_key@,
                canonical_field,
                value_type,
                status: AdaptiveRuleStatus::Active,
                wins: 0,
                sample_count: 0,
                disabled_reason: None,
            }),
    {
        AdaptiveFieldRule {
            rule_id: owned(rule_id),
            scope_key: owned(scope_key),
            raw_key: owned(raw_key),
            canonical_field,
            value_type,
            status: AdaptiveRuleStatus::Active,
            wins: 0,
            sample_count: 0,
            disabled_reason: None,
        }
    }
}

impl AdaptiveFieldRule {
    /// A rule learned from its first shadow sample: in shadow, named by its scope, raw key
    /// and field, with no samples yet.
    pub fn new_shadow(
        scope_key: &str,
        raw_key: &str,
        canonical_field: CanonicalField,
        value_type: AdaptiveValueType,
    ) -> (r: Self)
        ensures
            r@ == (AdaptiveRuleView {
                rule_id: spec_adaptive_rule_id(scope_key@, raw_key@, canonical_field),
                scope_key: scope_key@,
                raw_key: raw_key@,
                canonical_field,
                value_type,
                status: AdaptiveRuleStatus::Shadow,
                wins: 0,
                sample_count: 0,
                disabled_reason: None,
            }),
    {
        AdaptiveFieldRule {
            rule_id: adaptive_rule_id(scope_key, raw_key, canonical_field),
            scope_key: owned(scope_key),
            raw_key: owned(raw_key),
            canonical_field,
            value_type,
            status: AdaptiveRuleStatus::Shadow,
            wins: 0,
            sample_count: 0,
            disabled_reason: None,
        }
    }

    /// Counts one shadow sample, won or lost, while the rule is in shadow or recovering;
    /// a rule in any other state is left as it is. Returns whether the sample was counted.
    pub fn record_shadow_sample(&mut self, won: bool) -> (counted: bool)
        ensures
            counted == (old(self).status == AdaptiveRuleStatus::Shadow || old(self).status
                == AdaptiveRuleStatus::ShadowRecovering),
            counted ==> final(self)@ == (AdaptiveRuleView {
                sample_count: saturating_inc(old(self).sample_count),
                wins: if won {
                    saturating_inc(old(self).wins)
                } else {
                    old(self).wins
                },
                ..old(self)@
            }),
            !counted ==> final(self)@ == old(self)@,
    {
        let counted = match self.status {
            AdaptiveRuleStatus::Shadow => true,
            AdaptiveRuleStatus::ShadowRecovering => true,
            _ => false,
        };
        if counted {
            self.sample_count = self.sample_count.saturating_add(1);
            if won {
                self.wins = self.wins.saturating_add(1);
            }
        }
        counted
    }
}

/// The rules a parser applies, in order.
#[derive(Debug, Clone, PartialEq)]
pub struct AdaptiveRuleSnapshot {
    rules: Vec<AdaptiveFieldRule>,
}

impl View for AdaptiveRuleSnapshot {
    type V = Seq<AdaptiveRuleView>;

    closed spec fn view(&self) -> Seq<AdaptiveRuleView> {
        self.rules@.map_values(|r: AdaptiveFieldRule| r@)
    }
}

impl AdaptiveRuleSnapshot {
    pub fn from_rules(rules: Vec<AdaptiveFieldRule>) -> (r: Self)
        ensures
            r@ == rules@.map_values(|x: AdaptiveFieldRule| x@),
    {
        let r = AdaptiveRuleSnapshot { rules };
        proof {
            assert(r@ =~= rules@.map_values(|x: AdaptiveFieldRule| x@));
        }
        r
    }

    pub fn is_empty(&self) -> (r: bool)
        ensures
            r == (self@.len() == 0),
    {
        self.rules.len() == 0
    }

    pub fn rules(&self) -> (r: &[AdaptiveFieldRule])
        ensures
            r@.map_values(|x: AdaptiveFieldRule| x@) == self@,
    {
        self.rules.as_slice()
    }
}

impl Default for AdaptiveRuleSnapshot {
    fn default() -> (r: Self)
        ensures
            r@ == Seq::<AdaptiveRuleView>::empty(),
    {
        let r = AdaptiveRuleSnapshot { rules: Vec::new() };
        proof {
            assert(r@ =~= Seq::<AdaptiveRuleView>::empty());
        }
        r
    }
}

/// How many rules filled a field, and how many found a value they could not convert.
#[derive(Debug, Clone, Copy, PartialEq, Eq)]
pub struct ActiveRuleApplyResult {
    pub applied: usize,
    pub conflicts: usize,
}

impl Default for ActiveRuleApplyResult {
    fn default() -> (r: Self)
        ensures
            r.applied == 0,
            r.conflicts == 0,
    {
        ActiveRuleApplyResult { applied: 0, conflicts: 0 }
    }
}

/// At most this many pairs are read from a line.
pub const ADAPTIVE_MAX_PAIRS: usize = 64;

/// Lines are scanned up to this many bytes.
pub const ADAPTIVE_MAX_LINE_BYTES: usize = 16384;

/// The pairs the extractor gives for a line (at most 64, from its first 16 KiB).
pub open spec fn adaptive_pairs(raw: Seq<char>) -> Seq<(Seq<char>, Seq<char>)> {
    match scan_window(raw, ADAPTIVE_MAX_LINE_BYTES as nat) {
        Some(w) => {
            let all = line_pairs(w);
            all.take(
                if all.len() < ADAPTIVE_MAX_PAIRS {
                    all.len() as int
                } else {
                    ADAPTIVE_MAX_PAIRS as int
                },
            )
        },
        None => Seq::empty(),
    }
}

/// The value of the first pair with the given key.
pub open spec fn pair_value(pairs: Seq<(Seq<char>, Seq<char>)>, key: Seq<char>) -> Option<Seq<char>>
    decreases pairs.len(),
{
    if pairs.len() == 0 {
        None
    } else if pairs[0].0 == key {
        Some(pairs[0].1)
    } else {
        pair_value(pairs.drop_first(), key)
    }
}

/// The unquoted value of the first pair of a line with the given key.
pub open spec fn spec_find_raw_value(raw: Seq<char>, key: Seq<char>) -> Option<Seq<char>> {
    match pair_value(adaptive_pairs(raw), key) {
        Some(v) => Some(spec_unquote(v)),
        None => None,
    }
}

pub fn find_raw_value(raw: &str, raw_key: &str) -> (r: Option<String>)
    ensures
        ov(r) == spec_find_raw_value(raw@, raw_key@),
{
    let mut diagnostics = ExtractDiagnostics::default();
    let pairs = extract_generic_pairs::<64>(raw, 16384, &mut diagnostics);
    let ghost ps = pairs.pair_views();
    assert(ps == adaptive_pairs(raw@));
    assert(ps.skip(0) =~= ps);
    let mut i: usize = 0;
    while i < pairs.pairs.len()
        invariant
            i <= pairs.pairs@.len(),
            ps == pairs.pair_views(),
            ps == adaptive_pairs(raw@),
            ps.len() == pairs.pairs@.len(),
            pair_value(ps, raw_key@) == pair_value(ps.skip(i as int), raw_key@),
        decreases pairs.pairs.len() - i,
    {
        let pair = pairs.pairs[i];
        proof {
            assert(ps[i as int] == (pair.key@, pair.value@));
            assert(ps.skip(i as int)[0] == ps[i as int]);
            assert(ps.skip(i as int).drop_first() =~= ps.skip(i + 1));
        }
        if str_eq(pair.key, raw_key) {
            return Some(unquote(pair.value));
        }
        i = i + 1;
    }
    assert(ps.skip(i as int).len() == 0);
    None
}

/// A learned value checked and normalised for its type: an IP address as written, a port
/// in plain decimal, a protocol number or name by its upper-case name (any other protocol
/// upper-cased), anything else as it is.
pub open spec fn spec_normalize_value(value: Seq<char>, value_type: AdaptiveValueType) -> Option<Seq<char>> {
    match value_type {
        AdaptiveValueType::Ip => if spec_is_ip(value) {
            Some(value)
        } else {
            None
        },
        AdaptiveValueType::Port => match spec_port(value) {
            Some(p) => Some(decimal_chars(p as nat)),
            None => None,
        },
        AdaptiveValueType::Protocol => {
            let lower = ascii_lower_seq(value);
            if lower == "1"@ || lower == "icmp"@ {
                Some("ICMP"@)
            } else if lower == "6"@ || lower == "tcp"@ {
                Some("TCP"@)
            } else if lower == "17"@ || lower == "udp"@ {
                Some("UDP"@)
            } else {
                Some(ascii_upper_seq(value))
            }
        },
        _ => Some(value),
    }
}

pub fn normalize_value(value: &str, value_type: AdaptiveValueType) -> (r: Option<String>)
    ensures
        ov(r) == spec_normalize_value(value@, value_type),
{
    match value_type {
        AdaptiveValueType::Ip => if is_ip_addr(value) {
            Some(owned(value))
        } else {
            None
        },
        AdaptiveValueType::Port => match parse_port(value) {
            Some(p) => Some(u64_to_string(p as u64)),
            None => None,
        },
        AdaptiveValueType::Protocol => {
            let lower = to_ascii_lowercase(value);
            let l = lower.as_str();
            if str_eq(l, "1") || str_eq(l, "icmp") {
                Some(owned("ICMP"))
            } else if str_eq(l, "6") || str_eq(l, "tcp") {
                Some(owned("TCP"))
            } else if str_eq(l, "17") || str_eq(l, "udp") {
                Some(owned("UDP"))
            } else {
                Some(to_ascii_uppercase(value))
            }
        },
        _ => Some(owned(value)),
    }
}

pub open spec fn text_empty(o: Option<Seq<char>>) -> bool {
    match o {
        Some(s) => s.len() == 0,
        None => true,
    }
}

/// Whether a field of an event is missing (text fields also when empty).
pub open spec fn spec_field_is_empty(e: EventView, field: CanonicalField) -> bool {
    match field {
        CanonicalField::SrcIp => text_empty(e.src_ip),
        CanonicalField::SrcPort => e.src_port is None,
        CanonicalField::DstIp => text_empty(e.dst_ip),
        CanonicalField::DstPort => e.dst_port is None,
        CanonicalField::Protocol => text_empty(e.protocol),
        CanonicalField::Action => text_empty(e.action),
        CanonicalField::Severity => text_empty(e.severity),
    }
}

fn opt_text_empty(o: &Option<String>) -> (r: bool)
    ensures
        r == text_empty(ov(*o)),
{
    match o {
        Some(s) => s.as_str().is_empty(),
        None => true,
    }
}

pub fn field_is_empty(event: &CanonicalEvent, field: CanonicalField) -> (r: bool)
    ensures
        r == spec_field_is_empty(event@, field),
{
    match field {
        CanonicalField::SrcIp => opt_text_empty(&event.src_ip),
        CanonicalField::SrcPort => event.src_port.is_none(),
        CanonicalField::DstIp => opt_text_empty(&event.dst_ip),
        CanonicalField::DstPort => event.dst_port.is_none(),
        CanonicalField::Protocol => opt_text_empty(&event.protocol),
        CanonicalField::Action => opt_text_empty(&event.action),
        CanonicalField::Severity => opt_text_empty(&event.severity),
    }
}

/// A field set to a value (ports parsed from it).
pub open spec fn spec_set_field(e: EventView, field: CanonicalField, value: Seq<char>) -> EventView {
    match field {
        CanonicalField::SrcIp => EventView { src_ip: Some(value), ..e },
        CanonicalField::SrcPort => EventView { src_port: spec_port(value), ..e },
        CanonicalField::DstIp => EventView { dst_ip: Some(value), ..e },
        CanonicalField::DstPort => EventView { dst_port: spec_port(value), ..e },
        CanonicalField::Protocol => EventView { protocol: Some(value), ..e },
        CanonicalField::Action => EventView { action: Some(value), ..e },
        CanonicalField::Severity => EventView { severity: Some(value), ..e },
    }
}

/// Sets a field only when it is empty; tells whether it did.
pub fn set_field_if_empty(event: &mut CanonicalEvent, field: CanonicalField, value: String) -> (r: bool)
    ensures
        r == spec_field_is_empty(old(event)@, field),
        r ==> final(event)@ == spec_set_field(old(event)@, field, value@),
        !r ==> final(event)@ == old(event)@,
{
    if !field_is_empty(event, field) {
        return false;
    }
    match field {
        CanonicalField::SrcIp => event.src_ip = Some(value),
        CanonicalField::SrcPort => event.src_port = parse_port(value.as_str()),
        CanonicalField::DstIp => event.dst_ip = Some(value),
        CanonicalField::DstPort => event.dst_port = parse_port(value.as_str()),
        CanonicalField::Protocol => event.protocol = Some(value),
        CanonicalField::Action => event.action = Some(value),
        CanonicalField::Severity => event.severity = Some(value),
    }
    true
}

/// A list of rule ids that keeps at most eight and notes when one was dropped.
pub open spec fn bounded_push(ids: Seq<Seq<char>>, truncated: bool, id: Seq<char>) -> (Seq<Seq<char>>, bool) {
    if ids.len() < 8 {
        (ids.push(id), truncated)
    } else {
        (ids, true)
    }
}

/// The state of applying rules one after another.
pub struct ApplyState {
    pub event: EventView,
    pub applied: nat,
    pub conflicts: nat,
    pub applied_ids: Seq<Seq<char>>,
    pub applied_truncated: bool,
    pub failed_ids: Seq<Seq<char>>,
    pub failed_truncated: bool,
}

/// One rule applied: skipped unless active, of the scope, and aimed at an empty field whose
/// raw key the line has; a value that does not convert is a conflict; else the field is set.
pub open spec fn apply_rule_step(
    st: ApplyState,
    rule: AdaptiveRuleView,
    scope_key: Seq<char>,
    raw: Seq<char>,
) -> ApplyState {
    if rule.status != AdaptiveRuleStatus::Active || rule.scope_key != scope_key {
        st
    } else if !spec_field_is_empty(st.event, rule.canonical_field) {
        st
    } else {
        match spec_find_raw_value(raw, rule.raw_key) {
            None => st,
            Some(v) => match spec_normalize_value(v, rule.value_type) {
                None => {
                    let (ids, t) = bounded_push(st.failed_ids, st.failed_truncated, rule.rule_id);
                    ApplyState {
                        conflicts: st.conflicts + 1,
                        failed_ids: ids,
                        failed_truncated: t,
                        ..st
                    }
                },
                Some(n) => {
                    let (ids, t) = bounded_push(st.applied_ids, st.applied_truncated, rule.rule_id);
                    ApplyState {
                        event: spec_set_field(st.event, rule.canonical_field, n),
                        applied: st.applied + 1,
                        applied_ids: ids,
                        applied_truncated: t,
                        ..st
                    }
                },
            },
        }
    }
}

/// Rules applied in order.
pub open spec fn apply_rules(
    st: ApplyState,
    rules: Seq<AdaptiveRuleView>,
    scope_key: Seq<char>,
    raw: Seq<char>,
) -> ApplyState
    decreases rules.len(),
{
    if rules.len() == 0 {
        st
    } else {
        apply_rule_step(apply_rules(st, rules.drop_last(), scope_key, raw), rules.last(), scope_key, raw)
    }
}

/// The state before any rule: the event and the rule lists of the diagnostics.
pub open spec fn apply_start(e: EventView, d: ParseDiagnosticsBuffer) -> ApplyState {
    ApplyState {
        event: e,
        applied: 0,
        conflicts: 0,
        applied_ids: rule_ids(d.applied_rules),
        applied_truncated: d.applied_rules_truncated,
        failed_ids: rule_ids(d.failed_rules),
        failed_truncated: d.failed_rules_truncated,
    }
}

/// The event after the rules: reclassified when any rule filled a field.
pub open spec fn applied_event(st: ApplyState) -> EventView {
    if st.applied > 0 {
        classified(st.event)
    } else {
        st.event
    }
}

/// Applies the active rules of a scope to the fields of an event that are still empty,
/// recording in the diagnostics which rules filled a field and which found a value they
/// could not convert; the event is reclassified when any rule filled a field.
pub fn apply_active_rules(
    snapshot: &AdaptiveRuleSnapshot,
    scope_key: &str,
    raw: &str,
    event: &mut CanonicalEvent,
    diagnostics: &mut ParseDiagnosticsBuffer,
) -> (r: ActiveRuleApplyResult)
    ensures
        ({
            let st = apply_rules(
                apply_start(old(event)@, *old(diagnostics)),
                snapshot@,
                scope_key@,
                raw@,
            );
            &&& r.applied == st.applied
            &&& r.conflicts == st.conflicts
            &&& final(event)@ == applied_event(st)
            &&& rule_ids(final(diagnostics).applied_rules) == st.applied_ids
            &&& final(diagnostics).applied_rules_truncated == st.applied_truncated
            &&& rule_ids(final(diagnostics).failed_rules) == st.failed_ids
            &&& final(diagnostics).failed_rules_truncated == st.failed_truncated
            &&& final(diagnostics).attempts == old(diagnostics).attempts
            &&& final(diagnostics).matched_parser_id == old(diagnostics).matched_parser_id
            &&& final(diagnostics).failure_reason == old(diagnostics).failure_reason
            &&& final(diagnostics).pairs_truncated == old(diagnostics).pairs_truncated
            &&& final(diagnostics).line_truncated == old(diagnostics).line_truncated
        }),
{
    let ghost start = apply_start(event@, *diagnostics);
    let ghost rules = snapshot@;
    let ghost d0 = *diagnostics;
    let mut result = ActiveRuleApplyResult::default();
    let mut i: usize = 0;
    let n = snapshot.rules.len();
    while i < n
        invariant
            n == snapshot.rules@.len(),
            rules == snapshot@,
            rules == snapshot.rules@.map_values(|x: AdaptiveFieldRule| x@),
            i <= n,
            result.applied + result.conflicts <= i,
            ({
                let st = apply_rules(start, rules.take(i as int), scope_key@, raw@);
                &&& result.applied == st.applied
                &&& result.conflicts == st.conflicts
                &&& event@ == st.event
                &&& rule_ids(diagnostics.applied_rules) == st.applied_ids
                &&& diagnostics.applied_rules_truncated == st.applied_truncated
                &&& rule_ids(diagnostics.failed_rules) == st.failed_ids
                &&& diagnostics.failed_rules_truncated == st.failed_truncated
                &&& diagnostics.attempts == d0.attempts
                &&& diagnostics.matched_parser_id == d0.matched_parser_id
                &&& diagnostics.failure_reason == d0.failure_reason
                &&& diagnostics.pairs_truncated == d0.pairs_truncated
                &&& diagnostics.line_truncated == d0.line_truncated
            }),
        decreases n - i,
    {
        let rule = &snapshot.rules[i];
        proof {
            assert(rules.take(i + 1).drop_last() =~= rules.take(i as int));
            assert(rules.take(i + 1).last() == rule@);
        }
        let same_scope = str_eq(rule.scope_key.as_str(), scope_key);
        let is_active = match rule.status {
            AdaptiveRuleStatus::Active => true,
            _ => false,
        };
        if !is_active || !same_scope {
            i = i + 1;
            continue;
        }
        if !field_is_empty(event, rule.canonical_field) {
            i = i + 1;
            continue;
        }
        let value = match find_raw_value(raw, rule.raw_key.as_str()) {
            Some(v) => v,
            None => {
                i = i + 1;
                continue;
            },
        };
        match normalize_value(value.as_str(), rule.value_type) {
            None => {
                result.conflicts = result.conflicts + 1;
                diagnostics.push_failed_rule(RuleId(rule.rule_id.clone()));
            },
            Some(normalized) => {
                if set_field_if_empty(event, rule.canonical_field, normalized) {
                    diagnostics.push_applied_rule(RuleId(rule.rule_id.clone()));
                    result.applied = result.applied + 1;
                }
            },
        }
        i = i + 1;
    }
    proof {
        assert(rules.take(n as int) =~= rules);
    }
    if result.applied > 0 {
        event.classify_firewall_tuple();
    }
    result
}


pub open spec fn spec_is_src_ip_key(k: Seq<char>) -> bool {
    k == "src"@ || k == "source"@ || k == "source_ip"@ || k == "saddr"@ || k == "srcaddr"@ || k
        == "src_ip"@ || k == "sip"@ || k == "srcip"@
}

pub open spec fn spec_is_dst_ip_key(k: Seq<char>) -> bool {
    k == "dst"@ || k == "dest"@ || k == "destination"@ || k == "destination_ip"@ || k == "daddr"@
        || k == "dstaddr"@ || k == "dst_ip"@ || k == "dip"@ || k == "dstip"@ || k == "target_ip"@
        || k == "targetaddr"@ || k == "target_addr"@
}

pub open spec fn spec_is_src_port_key(k: Seq<char>) -> bool {
    k == "sport"@ || k == "source_port"@ || k == "srcport"@ || k == "spt"@ || k == "src_port"@
}

pub open spec fn spec_is_dst_port_key(k: Seq<char>) -> bool {
    k == "dport"@ || k == "destination_port"@ || k == "dstport"@ || k == "dpt"@ || k
        == "dst_port"@
}

pub open spec fn spec_is_protocol_key(k: Seq<char>) -> bool {
    k == "proto"@ || k == "protocol"@ || k == "prot"@
}

pub open spec fn spec_is_action_key(k: Seq<char>) -> bool {
    k == "action"@ || k == "act"@ || k == "disposition"@ || k == "actname"@ || k == "nat_type"@
}

pub open spec fn spec_is_severity_key(k: Seq<char>) -> bool {
    k == "severity"@ || k == "level"@ || k == "priority"@ || k == "sev"@
}

fn is_src_ip_key(k: &str) -> (r: bool)
    ensures
        r == spec_is_src_ip_key(k@),
{
    str_eq(k, "src") || str_eq(k, "source") || str_eq(k, "source_ip") || str_eq(k, "saddr")
        || str_eq(k, "srcaddr") || str_eq(k, "src_ip") || str_eq(k, "sip") || str_eq(k, "srcip")
}

fn is_dst_ip_key(k: &str) -> (r: bool)
    ensures
        r == spec_is_dst_ip_key(k@),
{
    str_eq(k, "dst") || str_eq(k, "dest") || str_eq(k, "destination") || str_eq(
        k,
        "destination_ip",
    ) || str_eq(k, "daddr") || str_eq(k, "dstaddr") || str_eq(k, "dst_ip") || str_eq(k, "dip")
        || str_eq(k, "dstip") || str_eq(k, "target_ip") || str_eq(k, "targetaddr") || str_eq(
        k,
        "target_addr",
    )
}

fn is_src_port_key(k: &str) -> (r: bool)
    ensures
        r == spec_is_src_port_key(k@),
{
    str_eq(k, "sport") || str_eq(k, "source_port") || str_eq(k, "srcport") || str_eq(k, "spt")
        || str_eq(k, "src_port")
}

fn is_dst_port_key(k: &str) -> (r: bool)
    ensures
        r == spec_is_dst_port_key(k@),
{
    str_eq(k, "dport") || str_eq(k, "destination_port") || str_eq(k, "dstport") || str_eq(
        k,
        "dpt",
    ) || str_eq(k, "dst_port")
}

fn is_protocol_key(k: &str) -> (r: bool)
    ensures
        r == spec_is_protocol_key(k@),
{
    str_eq(k, "proto") || str_eq(k, "protocol") || str_eq(k, "prot")
}

fn is_action_key(k: &str) -> (r: bool)
    ensures
        r == spec_is_action_key(k@),
{
    str_eq(k, "action") || str_eq(k, "act") || str_eq(k, "disposition") || str_eq(k, "actname")
        || str_eq(k, "nat_type")
}

fn is_severity_key(k: &str) -> (r: bool)
    ensures
        r == spec_is_severity_key(k@),
{
    str_eq(k, "severity") || str_eq(k, "level") || str_eq(k, "priority") || str_eq(k, "sev")
}

/// The field and value type a raw pair could teach, when its key (in ASCII lower case) is a
/// known spelling of a field the event lacks and its value fits that field.
pub open spec fn spec_candidate_from_pair(e: EventView, raw_key: Seq<char>, value: Seq<char>) -> Option<
    (CanonicalField, AdaptiveValueType),
> {
    let key = ascii_lower_seq(raw_key);
    if spec_is_src_ip_key(key) && e.src_ip is None && spec_normalize_value(
        value,
        AdaptiveValueType::Ip,
    ) is Some {
        Some((CanonicalField::SrcIp, AdaptiveValueType::Ip))
    } else if spec_is_dst_ip_key(key) && e.dst_ip is None && spec_normalize_value(
        value,
        AdaptiveValueType::Ip,
    ) is Some {
        Some((CanonicalField::DstIp, AdaptiveValueType::Ip))
    } else if spec_is_src_port_key(key) && e.src_port is None && spec_normalize_value(
        value,
        AdaptiveValueType::Port,
    ) is Some {
        Some((CanonicalField::SrcPort, AdaptiveValueType::Port))
    } else if spec_is_dst_port_key(key) && e.dst_port is None && spec_normalize_value(
        value,
        AdaptiveValueType::Port,
    ) is Some {
        Some((CanonicalField::DstPort, AdaptiveValueType::Port))
    } else if spec_is_protocol_key(key) && e.protocol is None && spec_normalize_value(
        value,
        AdaptiveValueType::Protocol,
    ) is Some {
        Some((CanonicalField::Protocol, AdaptiveValueType::Protocol))
    } else if spec_is_action_key(key) && e.action is None {
        Some((CanonicalField::Action, AdaptiveValueType::Action))
    } else if spec_is_severity_key(key) && e.severity is None {
        Some((CanonicalField::Severity, AdaptiveValueType::String))
    } else {
        None
    }
}

pub fn candidate_from_pair(event: &CanonicalEvent, raw_key: &str, value: &str) -> (r: Option<
    (CanonicalField, AdaptiveValueType),
>)
    ensures
        r == spec_candidate_from_pair(event@, raw_key@, value@),
{
    let lower = to_ascii_lowercase(raw_key);
    let key = lower.as_str();
    if is_src_ip_key(key) && event.src_ip.is_none() && normalize_value(
        value,
        AdaptiveValueType::Ip,
    ).is_some() {
        return Some((CanonicalField::SrcIp, AdaptiveValueType::Ip));
    }
    if is_dst_ip_key(key) && event.dst_ip.is_none() && normalize_value(
        value,
        AdaptiveValueType::Ip,
    ).is_some() {
        return Some((CanonicalField::DstIp, AdaptiveValueType::Ip));
    }
    if is_src_port_key(key) && event.src_port.is_none() && normalize_value(
        value,
        AdaptiveValueType::Port,
    ).is_some() {
        return Some((CanonicalField::SrcPort, AdaptiveValueType::Port));
    }
    if is_dst_port_key(key) && event.dst_port.is_none() && normalize_value(
        value,
        AdaptiveValueType::Port,
    ).is_some() {
        return Some((CanonicalField::DstPort, AdaptiveValueType::Port));
    }
    if is_protocol_key(key) && event.protocol.is_none() && normalize_value(
        value,
        AdaptiveValueType::Protocol,
    ).is_some() {
        return Some((CanonicalField::Protocol, AdaptiveValueType::Protocol));
    }
    if is_action_key(key) && event.action.is_none() {
        return Some((CanonicalField::Action, AdaptiveValueType::Action));
    }
    if is_severity_key(key) && event.severity.is_none() {
        return Some((CanonicalField::Severity, AdaptiveValueType::String));
    }
    None
}

/// `rule:<scope>:<raw key>:<field>`.
pub open spec fn spec_adaptive_rule_id(scope_key: Seq<char>, raw_key: Seq<char>, field: CanonicalField) -> Seq<char> {
    "rule:"@ + scope_key + ":"@ + raw_key + ":"@ + field.spec_name()
}

pub fn adaptive_rule_id(scope_key: &str, raw_key: &str, canonical_field: CanonicalField) -> (r: String)
    ensures
        r@ == spec_adaptive_rule_id(scope_key@, raw_key@, canonical_field),
{
    let a = concat("rule:", scope_key);
    let b = concat(a.as_str(), ":");
    let c = concat(b.as_str(), raw_key);
    let d = concat(c.as_str(), ":");
    concat(d.as_str(), canonical_field.as_str())
}

/// The outcome of trying a candidate rule on the event it came from: `None` when it would
/// fill nothing, `Some(false)` when its value does not convert, else whether it fills the
/// field or lifts the event to parsed.
pub open spec fn spec_shadow_candidate_result(
    e: EventView,
    scope_key: Seq<char>,
    raw_key: Seq<char>,
    field: CanonicalField,
    value_type: AdaptiveValueType,
) -> Option<bool> {
    let rule = AdaptiveRuleView {
        rule_id: spec_adaptive_rule_id(scope_key, raw_key, field),
        scope_key,
        raw_key,
        canonical_field: field,
        value_type,
        status: AdaptiveRuleStatus::Active,
        wins: 0,
        sample_count: 0,
        disabled_reason: None,
    };
    let start = ApplyState {
        event: e,
        applied: 0,
        conflicts: 0,
        applied_ids: Seq::empty(),
        applied_truncated: false,
        failed_ids: Seq::empty(),
        failed_truncated: false,
    };
    let st = apply_rules(start, seq![rule], scope_key, e.raw);
    let after = applied_event(st);
    if st.conflicts > 0 {
        Some(false)
    } else if st.applied == 0 {
        None
    } else {
        Some(
            (spec_field_is_empty(e, field) && !spec_field_is_empty(after, field)) || (
            e.parse_status != ParseStatus::Parsed && after.parse_status == ParseStatus::Parsed),
        )
    }
}

pub fn shadow_candidate_result(
    event: &CanonicalEvent,
    scope_key: &str,
    raw_key: &str,
    canonical_field: CanonicalField,
    value_type: AdaptiveValueType,
) -> (r: Option<bool>)
    ensures
        r == spec_shadow_candidate_result(event@, scope_key@, raw_key@, canonical_field, value_type),
{
    let rule_id = adaptive_rule_id(scope_key, raw_key, canonical_field);
    let mut rules: Vec<AdaptiveFieldRule> = Vec::new();
    rules.push(
        AdaptiveFieldRule::active(
            rule_id.as_str(),
            scope_key,
            raw_key,
            canonical_field,
            value_type,
        ),
    );
    let snapshot = AdaptiveRuleSnapshot::from_rules(rules);
    let mut simulated = event.duplicate();
    let before_status = simulated.parse_status;
    let before_empty = field_is_empty(&simulated, canonical_field);
    let mut diagnostics = ParseDiagnosticsBuffer::default();
    let ghost d0 = diagnostics;
    let result = apply_active_rules(
        &snapshot,
        scope_key,
        event.raw.as_str(),
        &mut simulated,
        &mut diagnostics,
    );
    proof {
        assert(snapshot@ =~= seq![
            AdaptiveRuleView {
                rule_id: spec_adaptive_rule_id(scope_key@, raw_key@, canonical_field),
                scope_key: scope_key@,
                raw_key: raw_key@,
                canonical_field,
                value_type,
                status: AdaptiveRuleStatus::Active,
                wins: 0,
                sample_count: 0,
                disabled_reason: None,
            },
        ]);
        assert(apply_start(event@, d0).applied_ids =~= Seq::<Seq<char>>::empty());
        assert(apply_start(event@, d0).failed_ids =~= Seq::<Seq<char>>::empty());
    }
    if result.conflicts > 0 {
        return Some(false);
    }
    if result.applied == 0 {
        return None;
    }
    let field_filled = before_empty && !field_is_empty(&simulated, canonical_field);
    let before_parsed = match before_status {
        ParseStatus::Parsed => true,
        _ => false,
    };
    let after_parsed = match simulated.parse_status {
        ParseStatus::Parsed => true,
        _ => false,
    };
    let status_improved = !before_parsed && after_parsed;
    Some(field_filled || status_improved)
}


/// One shadow sample a line gives: a raw key of a scope, the field it may stand for, and
/// whether trying it helped.
#[derive(Debug, Clone, PartialEq, Eq)]
pub struct ShadowObservation {
    pub scope_key: String,
    pub raw_key: String,
    pub canonical_field: CanonicalField,
    pub value_type: AdaptiveValueType,
    pub won: bool,
}

pub struct ShadowObservationView {
    pub scope_key: Seq<char>,
    pub raw_key: Seq<char>,
    pub canonical_field: CanonicalField,
    pub value_type: AdaptiveValueType,
    pub won: bool,
}

impl View for ShadowObservation {
    type V = ShadowObservationView;

    open spec fn view(&self) -> ShadowObservationView {
        ShadowObservationView {
            scope_key: self.scope_key@,
            raw_key: self.raw_key@,
            canonical_field: self.canonical_field,
            value_type: self.value_type,
            won: self.won,
        }
    }
}

/// The samples of the pairs of a line, in order: each pair that proposes a candidate whose
/// trial has an outcome.
pub open spec fn observations_from(
    e: EventView,
    scope_key: Seq<char>,
    pairs: Seq<(Seq<char>, Seq<char>)>,
) -> Seq<ShadowObservationView>
    decreases pairs.len(),
{
    if pairs.len() == 0 {
        Seq::empty()
    } else {
        let prev = observations_from(e, scope_key, pairs.drop_last());
        let (k, v) = pairs.last();
        match spec_candidate_from_pair(e, k, v) {
            None => prev,
            Some((f, vt)) => match spec_shadow_candidate_result(e, scope_key, k, f, vt) {
                None => prev,
                Some(won) => prev.push(
                    ShadowObservationView {
                        scope_key,
                        raw_key: k,
                        canonical_field: f,
                        value_type: vt,
                        won,
                    },
                ),
            },
        }
    }
}

/// What a parse result teaches: nothing for a parsed event, for a source without a known
/// scope, or for a line whose pairs were cut short; else the samples of its pairs.
pub open spec fn spec_shadow_observations(e: EventView) -> Seq<ShadowObservationView> {
    let (scope_key, _normalized, unknown, enabled) = spec_scope(
        e.source_addr,
        ScopeNormalizationMode::SourceIp,
    );
    if e.parse_status == ParseStatus::Parsed || unknown || !enabled {
        Seq::empty()
    } else {
        match scan_window(e.raw, ADAPTIVE_MAX_LINE_BYTES as nat) {
            None => Seq::empty(),
            Some(w) => {
                let all = line_pairs(w);
                if all.len() > ADAPTIVE_MAX_PAIRS {
                    Seq::empty()
                } else {
                    observations_from(e, scope_key, all)
                }
            },
        }
    }
}

/// The sample one pair gives, if any.
fn observation_of_pair(event: &CanonicalEvent, scope_key: &String, key: &str, value: &str) -> (r: Option<
    ShadowObservation,
>)
    ensures
        match spec_candidate_from_pair(event@, key@, value@) {
            None => r is None,
            Some((f, vt)) => match spec_shadow_candidate_result(event@, scope_key@, key@, f, vt) {
                None => r is None,
                Some(won) => r matches Some(o) && o@ == (ShadowObservationView {
                    scope_key: scope_key@,
                    raw_key: key@,
                    canonical_field: f,
                    value_type: vt,
                    won,
                }),
            },
        },
{
    match candidate_from_pair(event, key, value) {
        None => None,
        Some((field, value_type)) => {
            match shadow_candidate_result(event, scope_key.as_str(), key, field, value_type) {
                None => None,
                Some(won) => Some(
                    ShadowObservation {
                        scope_key: scope_key.clone(),
                        raw_key: owned(key),
                        canonical_field: field,
                        value_type,
                        won,
                    },
                ),
            }
        },
    }
}

fn observations_of_pairs<'a>(
    event: &CanonicalEvent,
    scope_key: &String,
    pairs: &Vec<GenericPair<'a>>,
) -> (r: Vec<ShadowObservation>)
    ensures
        r@.map_values(|o: ShadowObservation| o@) == observations_from(
            event@,
            scope_key@,
            pairs@.map_values(|p: GenericPair<'a>| (p.key@, p.value@)),
        ),
{
    let ghost ps = pairs@.map_values(|p: GenericPair<'a>| (p.key@, p.value@));
    let mut out: Vec<ShadowObservation> = Vec::new();
    let mut i: usize = 0;
    proof {
        assert(out@.map_values(|o: ShadowObservation| o@) =~= observations_from(event@, scope_key@, ps.take(0)));
    }
    while i < pairs.len()
        invariant
            i <= pairs@.len(),
            ps == pairs@.map_values(|p: GenericPair<'a>| (p.key@, p.value@)),
            out@.map_values(|o: ShadowObservation| o@) == observations_from(event@, scope_key@, ps.take(i as int)),
        decreases pairs.len() - i,
    {
        let pair = pairs[i];
        proof {
            assert(ps[i as int] == (pair.key@, pair.value@));
            assert(ps.take(i + 1).drop_last() =~= ps.take(i as int));
            assert(ps.take(i + 1).last() == ps[i as int]);
        }
        let ghost before = out@.map_values(|o: ShadowObservation| o@);
        match observation_of_pair(event, scope_key, pair.key, pair.value) {
            None => {},
            Some(obs) => {
                out.push(obs);
                proof {
                    assert(out@.map_values(|o: ShadowObservation| o@) =~= before.push(obs@));
                }
            },
        }
        i = i + 1;
    }
    proof {
        assert(ps.take(ps.len() as int) =~= ps);
    }
    out
}

/// The shadow samples a parse result gives (what observing it records).
pub fn shadow_observations(event: &CanonicalEvent) -> (r: Vec<ShadowObservation>)
    ensures
        r@.map_values(|o: ShadowObservation| o@) == spec_shadow_observations(event@),
{
    let empty: Vec<ShadowObservation> = Vec::new();
    proof {
        assert(empty@.map_values(|o: ShadowObservation| o@) =~= Seq::<ShadowObservationView>::empty());
    }
    let parsed = match event.parse_status {
        ParseStatus::Parsed => true,
        _ => false,
    };
    if parsed {
        return empty;
    }
    let scope = normalize_source_scope(event.source_addr.as_str(), ScopeNormalizationMode::SourceIp);
    if scope.unknown_source_bucket || !scope.adaptive_learning_enabled {
        return empty;
    }
    let mut extract = ExtractDiagnostics::default();
    let pairs = extract_generic_pairs::<64>(event.raw.as_str(), 16384, &mut extract);
    if extract.pairs_truncated || extract.reason.is_some() {
        return empty;
    }
    proof {
        let w = scan_window(event.raw@, ADAPTIVE_MAX_LINE_BYTES as nat)->0;
        assert(pairs.pair_views() =~= line_pairs(w));
    }
    observations_of_pairs(event, &scope.scope_key, &pairs.pairs)
}

/// Outcomes of an active rule since it was activated.
#[derive(Debug, Clone, PartialEq, Eq)]
pub struct RuleCounters {
    pub post_activation_failed: u64,
    pub post_activation_conflicts: u64,
    pub post_activation_total: u64,
}

pub open spec fn saturating_inc(n: u64) -> u64 {
    if n == u64::MAX {
        n
    } else {
        (n + 1) as u64
    }
}

impl Default for RuleCounters {
    fn default() -> (r: Self)
        ensures
            r.post_activation_failed == 0,
            r.post_activation_conflicts == 0,
            r.post_activation_total == 0,
    {
        RuleCounters { post_activation_failed: 0, post_activation_conflicts: 0, post_activation_total: 0 }
    }
}

impl RuleCounters {
    /// Counts a line the rule was applied to; a line that did not end parsed counts as failed.
    pub fn record_applied(&mut self, status: ParseStatus)
        ensures
            final(self).post_activation_total == saturating_inc(old(self).post_activation_total),
            final(self).post_activation_failed == if status == ParseStatus::Parsed {
                old(self).post_activation_failed
            } else {
                saturating_inc(old(self).post_activation_failed)
            },
            final(self).post_activation_conflicts == old(self).post_activation_conflicts,
    {
        self.post_activation_total = self.post_activation_total.saturating_add(1);
        let parsed = match status {
            ParseStatus::Parsed => true,
            _ => false,
        };
        if !parsed {
            self.post_activation_failed = self.post_activation_failed.saturating_add(1);
        }
    }

    /// Counts a line whose value the rule could not convert: a failure and a conflict.
    pub fn record_failed(&mut self)
        ensures
            final(self).post_activation_total == saturating_inc(old(self).post_activation_total),
            final(self).post_activation_failed == saturating_inc(old(self).post_activation_failed),
            final(self).post_activation_conflicts == saturating_inc(
                old(self).post_activation_conflicts,
            ),
    {
        self.post_activation_total = self.post_activation_total.saturating_add(1);
        self.post_activation_failed = self.post_activation_failed.saturating_add(1);
        self.post_activation_conflicts = self.post_activation_conflicts.saturating_add(1);
    }
}

} // verus!
