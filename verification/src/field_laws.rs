//! What the parsers and the query builder make of particular fields, over all inputs.
use vstd::prelude::*;
use crate::event::EventView;
use crate::regex_support::spec_regex_captures_all;
use crate::sangfor::{
    group_text, sangfor_fields, spec_canonical_key, spec_normalize_protocol, spec_port,
    spec_sangfor_parse, SangforFieldsView, SangforKey, SANGFOR_KV_PATTERN,
};
use crate::text::{all_digits, digits_value, spec_to_lowercase, trim_seq};
use crate::rule::{
    apply_mapping, apply_mappings, mapping_value, mappings_view, rule_attempt, spec_apply_transform,
    FieldMappingView, ParseRule,
};
use crate::regex_support::{spec_regex_captures, spec_regex_group_names};
use crate::store::{active_filter, day_filter, spec_normalize_query_protocol, spec_query_filters, EventQuery};
use crate::event::ov;
use crate::learn::{
    apply_rule_step, spec_find_raw_value, spec_normalize_value, AdaptiveRuleStatus,
    AdaptiveRuleView, AdaptiveValueType, ApplyState, CanonicalField,
};
use crate::text::ascii_lower_seq;
use crate::generic::{
    generic_fields, spec_canonicalize_key, spec_generic_key_lower, spec_generic_parse,
    spec_generic_protocol, spec_unquote, port_of, GenericFieldsView, GenericKey,
    GENERIC_KV_PATTERN,
};

verus! {

/// The event carries at least one of the fields that make a parse count.
pub open spec fn carries_tuple(e: EventView) -> bool {
    e.src_ip is Some || e.dst_ip is Some || e.protocol is Some || e.action is Some
}

proof fn lemma_sangfor_severity_key()
    ensures
        spec_canonical_key("severity"@) == Some(SangforKey::Severity),
{
    reveal_strlit("severity");
    reveal_strlit("src");
    reveal_strlit("源IP");
    reveal_strlit("dst");
    reveal_strlit("目的IP");
    reveal_strlit("sport");
    reveal_strlit("源端口");
    reveal_strlit("dport");
    reveal_strlit("目的端口");
    reveal_strlit("proto");
    reveal_strlit("协议");
    reveal_strlit("action");
    reveal_strlit("NAT类型");
    let s = "severity"@;
    assert(s.len() == 8);
    assert(s != "src"@ && s != "源IP"@ && s != "dst"@ && s != "目的IP"@ && s != "sport"@);
    assert(s != "源端口"@ && s != "dport"@ && s != "目的端口"@ && s != "proto"@ && s != "协议"@);
    assert(s != "action"@ && s != "NAT类型"@);
}

proof fn lemma_sangfor_no_severity(ms: Seq<Seq<Option<Seq<char>>>>)
    requires
        forall|j: int| 0 <= j < ms.len() ==> group_text(#[trigger] ms[j], 1) != "severity"@,
    ensures
        sangfor_fields(ms).severity is None,
    decreases ms.len(),
{
    if ms.len() > 0 {
        let init = ms.drop_last();
        assert forall|j: int| 0 <= j < init.len() implies group_text(#[trigger] init[j], 1) != "severity"@ by {
            assert(init[j] == ms[j]);
        }
        lemma_sangfor_no_severity(init);
        assert(group_text(ms[ms.len() - 1], 1) != "severity"@);
    }
}

/// Among the key=value matches of a Sangfor line, the first whose key is `severity` gives
/// the severity: its value, trimmed. Later severity matches do not replace it.
pub proof fn sangfor_severity_is_first_severity_value(ms: Seq<Seq<Option<Seq<char>>>>, k: int)
    requires
        0 <= k < ms.len(),
        group_text(ms[k], 1) == "severity"@,
        forall|j: int| 0 <= j < k ==> group_text(#[trigger] ms[j], 1) != "severity"@,
    ensures
        sangfor_fields(ms).severity == Some(trim_seq(group_text(ms[k], 2))),
    decreases ms.len(),
{
    lemma_sangfor_severity_key();
    let init = ms.drop_last();
    if k == ms.len() - 1 {
        assert forall|j: int| 0 <= j < init.len() implies group_text(#[trigger] init[j], 1) != "severity"@ by {
            assert(init[j] == ms[j]);
        }
        lemma_sangfor_no_severity(init);
    } else {
        assert(init[k] == ms[k]);
        assert forall|j: int| 0 <= j < k implies group_text(#[trigger] init[j], 1) != "severity"@ by {
            assert(init[j] == ms[j]);
        }
        sangfor_severity_is_first_severity_value(init, k);
    }
}

/// A Sangfor line that yields an event with any address, protocol or action carries, as its
/// severity, the trimmed value of its first `severity=` pair.
pub proof fn sangfor_event_keeps_severity(
    raw: Seq<char>,
    ingest_time: crate::event::Timestamp,
    source_addr: Seq<char>,
    k: int,
)
    requires
        0 <= k < spec_regex_captures_all(SANGFOR_KV_PATTERN@, raw).len(),
        group_text(spec_regex_captures_all(SANGFOR_KV_PATTERN@, raw)[k], 1) == "severity"@,
        forall|j: int|
            0 <= j < k ==> group_text(#[trigger] spec_regex_captures_all(SANGFOR_KV_PATTERN@, raw)[j], 1)
                != "severity"@,
    ensures
        carries_tuple(spec_sangfor_parse(raw, ingest_time, source_addr)) ==> spec_sangfor_parse(
            raw,
            ingest_time,
            source_addr,
        ).severity == Some(trim_seq(group_text(spec_regex_captures_all(SANGFOR_KV_PATTERN@, raw)[k], 2))),
{
    sangfor_severity_is_first_severity_value(spec_regex_captures_all(SANGFOR_KV_PATTERN@, raw), k);
}

/// The keys that name the reporting device, in lower case.
pub open spec fn is_device_key(lower: Seq<char>) -> bool {
    lower == "device"@ || lower == "device_id"@ || lower == "host"@ || lower == "hostname"@
        || lower == "dev"@
}

/// The lower-case key of a generic pair match.
pub open spec fn pair_key_lower(m: Seq<Option<Seq<char>>>) -> Seq<char> {
    spec_to_lowercase(group_text(m, 1))
}

proof fn lemma_generic_device_key(k: Seq<char>)
    requires
        is_device_key(k),
    ensures
        spec_generic_key_lower(k) == Some(GenericKey::DeviceId),
{
    reveal_strlit("device");
    reveal_strlit("device_id");
    reveal_strlit("host");
    reveal_strlit("hostname");
    reveal_strlit("dev");
    if k == "device"@ {
        assert(k.len() == 6 && k[0] == 'd' && k[1] == 'e');
        lemma_not_earlier_key(k);
    } else if k == "device_id"@ {
        assert(k.len() == 9 && k[0] == 'd' && k[1] == 'e');
        lemma_not_earlier_key(k);
    } else if k == "host"@ {
        assert(k.len() == 4 && k[0] == 'h' && k[1] == 'o');
        lemma_not_earlier_key(k);
    } else if k == "hostname"@ {
        assert(k.len() == 8 && k[0] == 'h' && k[1] == 'o');
        lemma_not_earlier_key(k);
    } else {
        assert(k.len() == 3 && k[0] == 'd' && k[1] == 'e');
        lemma_not_earlier_key(k);
    }
}

proof fn lemma_not_earlier_key(k: Seq<char>)
    requires
        k.len() >= 2,
        (k[0] == 'd' && k[1] == 'e') || (k[0] == 'h' && k[1] == 'o'),
        k.len() == 3 || k.len() == 4 || k.len() == 6 || k.len() == 8 || k.len() == 9,
        k.len() == 4 || k.len() == 8 ==> k[0] == 'h',
        k.len() == 3 || k.len() == 6 || k.len() == 9 ==> k[0] == 'd',
    ensures
        k != "src"@ && k != "source"@ && k != "source_ip"@ && k != "saddr"@,
        k != "srcaddr"@ && k != "src_ip"@ && k != "sip"@ && k != "srcip"@,
        k != "dst"@ && k != "dest"@ && k != "destination"@ && k != "destination_ip"@,
        k != "daddr"@ && k != "dstaddr"@ && k != "dst_ip"@ && k != "dip"@ && k != "dstip"@,
        k != "sport"@ && k != "source_port"@ && k != "srcport"@ && k != "spt"@,
        k != "src_port"@ && k != "dport"@ && k != "destination_port"@ && k != "dstport"@,
        k != "dpt"@ && k != "dst_port"@ && k != "proto"@ && k != "protocol"@ && k != "prot"@,
        k != "action"@ && k != "act"@ && k != "disposition"@ && k != "nat类型"@,
        k != "severity"@ && k != "level"@ && k != "priority"@ && k != "sev"@,
{
    reveal_strlit("src");
    reveal_strlit("source");
    reveal_strlit("source_ip");
    reveal_strlit("saddr");
    reveal_strlit("srcaddr");
    reveal_strlit("src_ip");
    reveal_strlit("sip");
    reveal_strlit("srcip");
    reveal_strlit("dst");
    reveal_strlit("dest");
    reveal_strlit("destination");
    reveal_strlit("destination_ip");
    reveal_strlit("daddr");
    reveal_strlit("dstaddr");
    reveal_strlit("dst_ip");
    reveal_strlit("dip");
    reveal_strlit("dstip");
    reveal_strlit("sport");
    reveal_strlit("source_port");
    reveal_strlit("srcport");
    reveal_strlit("spt");
    reveal_strlit("src_port");
    reveal_strlit("dport");
    reveal_strlit("destination_port");
    reveal_strlit("dstport");
    reveal_strlit("dpt");
    reveal_strlit("dst_port");
    reveal_strlit("proto");
    reveal_strlit("protocol");
    reveal_strlit("prot");
    reveal_strlit("action");
    reveal_strlit("act");
    reveal_strlit("disposition");
    reveal_strlit("nat类型");
    reveal_strlit("severity");
    reveal_strlit("level");
    reveal_strlit("priority");
    reveal_strlit("sev");
    assert(forall|c: Seq<char>| #![auto] c.len() >= 2 && c[1] != 'e' && c[1] != 'o' ==> k != c);
    assert(forall|c: Seq<char>| #![auto] c.len() != k.len() ==> k != c);
}

proof fn lemma_generic_no_device(ms: Seq<Seq<Option<Seq<char>>>>)
    requires
        forall|j: int| 0 <= j < ms.len() ==> !is_device_key(pair_key_lower(#[trigger] ms[j])),
    ensures
        generic_fields(ms).device_id is None,
    decreases ms.len(),
{
    if ms.len() > 0 {
        let init = ms.drop_last();
        assert forall|j: int| 0 <= j < init.len() implies !is_device_key(pair_key_lower(#[trigger] init[j])) by {
            assert(init[j] == ms[j]);
        }
        lemma_generic_no_device(init);
        assert(!is_device_key(pair_key_lower(ms[ms.len() - 1])));
    }
}

/// Among the pairs of a generic line, the first whose key (in any case) is `device`,
/// `device_id`, `host`, `hostname` or `dev` gives the device id: its value, trimmed and
/// unquoted. Later device pairs do not replace it.
pub proof fn generic_device_id_is_first_device_value(ms: Seq<Seq<Option<Seq<char>>>>, k: int)
    requires
        0 <= k < ms.len(),
        is_device_key(pair_key_lower(ms[k])),
        forall|j: int| 0 <= j < k ==> !is_device_key(pair_key_lower(#[trigger] ms[j])),
    ensures
        generic_fields(ms).device_id == Some(spec_unquote(trim_seq(group_text(ms[k], 2)))),
    decreases ms.len(),
{
    lemma_generic_device_key(pair_key_lower(ms[k]));
    let init = ms.drop_last();
    if k == ms.len() - 1 {
        assert forall|j: int| 0 <= j < init.len() implies !is_device_key(pair_key_lower(#[trigger] init[j])) by {
            assert(init[j] == ms[j]);
        }
        lemma_generic_no_device(init);
    } else {
        assert(init[k] == ms[k]);
        assert forall|j: int| 0 <= j < k implies !is_device_key(pair_key_lower(#[trigger] init[j])) by {
            assert(init[j] == ms[j]);
        }
        generic_device_id_is_first_device_value(init, k);
    }
}

/// A generic line that yields an event with any address, protocol or action carries, as its
/// device id, the trimmed, unquoted value of its first device pair.
pub proof fn generic_event_keeps_device_id(
    raw: Seq<char>,
    ingest_time: crate::event::Timestamp,
    source_addr: Seq<char>,
    k: int,
)
    requires
        0 <= k < spec_regex_captures_all(GENERIC_KV_PATTERN@, raw).len(),
        is_device_key(pair_key_lower(spec_regex_captures_all(GENERIC_KV_PATTERN@, raw)[k])),
        forall|j: int|
            0 <= j < k ==> !is_device_key(
                pair_key_lower(#[trigger] spec_regex_captures_all(GENERIC_KV_PATTERN@, raw)[j]),
            ),
    ensures
        carries_tuple(spec_generic_parse(raw, ingest_time, source_addr)) ==> spec_generic_parse(
            raw,
            ingest_time,
            source_addr,
        ).device_id == Some(
            spec_unquote(trim_seq(group_text(spec_regex_captures_all(GENERIC_KV_PATTERN@, raw)[k], 2))),
        ),
{
    generic_device_id_is_first_device_value(spec_regex_captures_all(GENERIC_KV_PATTERN@, raw), k);
}

proof fn lemma_dst_port_target()
    ensures
        "dst_port"@ != "src_ip"@,
        "dst_port"@ != "dst_ip"@,
        "dst_port"@ != "src_port"@,
{
    reveal_strlit("dst_port");
    reveal_strlit("src_ip");
    reveal_strlit("dst_ip");
    reveal_strlit("src_port");
    assert("dst_port"@.len() == 8 && "dst_ip"@.len() == 6 && "src_ip"@.len() == 6);
    assert("dst_port"@[0] != "src_port"@[0]);
}

/// When the last mapping onto `dst_port` finds a decimal number of at most 65535 in its
/// group (and transforms nothing), the event's destination port is that number, whatever
/// the other mappings do.
pub proof fn rule_dst_port_is_last_captured_port(
    e: EventView,
    ms: Seq<FieldMappingView>,
    names: Seq<Option<Seq<char>>>,
    groups: Seq<Option<Seq<char>>>,
    k: int,
    val: Seq<char>,
)
    requires
        0 <= k < ms.len(),
        ms[k].target == "dst_port"@,
        ms[k].transform is None,
        mapping_value(names, groups, ms[k].source) == Some(val),
        val.len() > 0,
        all_digits(val),
        digits_value(val) <= 65535,
        forall|j: int| k < j < ms.len() ==> (#[trigger] ms[j]).target != "dst_port"@,
    ensures
        apply_mappings(e, ms, names, groups).dst_port == Some(digits_value(val) as u16),
    decreases ms.len(),
{
    lemma_dst_port_target();
    let init = ms.drop_last();
    if k == ms.len() - 1 {
        assert(crate::text::is_ascii_digit(val[0]));
        assert(val[0] != '+');
    } else {
        assert(init[k] == ms[k]);
        assert forall|j: int| k < j < init.len() implies (#[trigger] init[j]).target != "dst_port"@ by {
            assert(init[j] == ms[j]);
        }
        rule_dst_port_is_last_captured_port(e, init, names, groups, k, val);
        assert(ms[ms.len() - 1].target != "dst_port"@);
    }
}

/// A rule whose pattern matches a line and whose last `dst_port` mapping reads a decimal
/// port gives, when it gives an event, that port as the destination port.
pub proof fn rule_event_carries_mapped_dst_port(
    rule: ParseRule,
    raw: Seq<char>,
    ingest_time: crate::event::Timestamp,
    source_addr: Seq<char>,
    groups: Seq<Option<Seq<char>>>,
    k: int,
    val: Seq<char>,
)
    requires
        spec_regex_captures(rule.match_pattern@, raw) == Some(groups),
        0 <= k < mappings_view(rule.field_mappings@).len(),
        mappings_view(rule.field_mappings@)[k].target == "dst_port"@,
        mappings_view(rule.field_mappings@)[k].transform is None,
        mapping_value(
            spec_regex_group_names(rule.match_pattern@),
            groups,
            mappings_view(rule.field_mappings@)[k].source,
        ) == Some(val),
        val.len() > 0,
        all_digits(val),
        digits_value(val) <= 65535,
        forall|j: int|
            k < j < mappings_view(rule.field_mappings@).len() ==> (#[trigger] mappings_view(
                rule.field_mappings@,
            )[j]).target != "dst_port"@,
    ensures
        rule_attempt(rule, raw, ingest_time, source_addr) matches Some(ev) ==> ev.dst_port == Some(
            digits_value(val) as u16,
        ),
{
    rule_dst_port_is_last_captured_port(
        crate::rule::rule_base_event(rule.name@, raw, ingest_time, source_addr),
        mappings_view(rule.field_mappings@),
        spec_regex_group_names(rule.match_pattern@),
        groups,
        k,
        val,
    );
}

/// Every condition text the event query builder can emit, other than the two address ones.
pub open spec fn other_condition(c: Seq<char>) -> bool {
    c == "source_addr LIKE ?"@ || c == "device_id = ?"@
        || c == "(ingest_time LIKE ? OR event_time LIKE ? OR raw LIKE ?)"@
        || c == "(ingest_time LIKE ? OR event_time LIKE ?)"@
        || c == "substr(COALESCE(event_time, ingest_time), 1, 10) >= ?"@
        || c == "substr(COALESCE(event_time, ingest_time), 1, 10) <= ?"@
        || c == "upper(protocol) = ?"@ || c == "lower(action) = ?"@ || c == "raw LIKE ?"@
        || c == "FALSE"@ || c == "parse_status <> 'failed'"@
}

proof fn lemma_condition_texts_differ()
    ensures
        "src_ip = ?"@ != "dst_ip = ?"@,
        !other_condition("src_ip = ?"@),
        !other_condition("dst_ip = ?"@),
{
    reveal_strlit("src_ip = ?");
    reveal_strlit("dst_ip = ?");
    reveal_strlit("source_addr LIKE ?");
    reveal_strlit("device_id = ?");
    reveal_strlit("(ingest_time LIKE ? OR event_time LIKE ? OR raw LIKE ?)");
    reveal_strlit("(ingest_time LIKE ? OR event_time LIKE ?)");
    reveal_strlit("substr(COALESCE(event_time, ingest_time), 1, 10) >= ?");
    reveal_strlit("substr(COALESCE(event_time, ingest_time), 1, 10) <= ?");
    reveal_strlit("upper(protocol) = ?");
    reveal_strlit("lower(action) = ?");
    reveal_strlit("raw LIKE ?");
    reveal_strlit("FALSE");
    reveal_strlit("parse_status <> 'failed'");
    let a = "src_ip = ?"@;
    let b = "dst_ip = ?"@;
    assert(a.len() == 10 && b.len() == 10 && a[0] == 's' && b[0] == 'd');
    assert("raw LIKE ?"@.len() == 10 && "raw LIKE ?"@[0] == 'r');
    assert("device_id = ?"@.len() == 13 && "FALSE"@.len() == 5 && "lower(action) = ?"@.len() == 17);
    assert("upper(protocol) = ?"@.len() == 19 && "source_addr LIKE ?"@.len() == 18);
    assert("parse_status <> 'failed'"@.len() == 24);
    assert("(ingest_time LIKE ? OR event_time LIKE ?)"@[0] == '(');
    assert("(ingest_time LIKE ? OR event_time LIKE ? OR raw LIKE ?)"@[0] == '(');
    assert("substr(COALESCE(event_time, ingest_time), 1, 10) >= ?"@.len() > 11);
    assert("substr(COALESCE(event_time, ingest_time), 1, 10) <= ?"@.len() > 11);
}

/// The conditions of an event query hold `dst_ip = ?` exactly when the query filters on a
/// destination address, and `src_ip = ?` exactly when it filters on a source address.
pub proof fn query_address_conditions_follow_address_filters(q: EventQuery, include_raw: bool)
    ensures
        spec_query_filters(q, include_raw).0.contains("dst_ip = ?"@) <==> active_filter(ov(q.dst_ip)) is Some,
        spec_query_filters(q, include_raw).0.contains("src_ip = ?"@) <==> active_filter(ov(q.src_ip)) is Some,
{
    broadcast use vstd::seq_lib::lemma_seq_contains_after_push;
    broadcast use vstd::seq_lib::lemma_seq_empty_contains_nothing;
    lemma_condition_texts_differ();
    reveal_strlit("source_addr LIKE ?");
    reveal_strlit("device_id = ?");
}

/// A query whose only filter is a destination address `v` (failed events included) is the
/// single condition `dst_ip = ?` bound to `v`; likewise for a source address; with both, the
/// source condition comes first, each bound to its own address.
pub proof fn query_on_one_address_binds_it(q: EventQuery, include_raw: bool)
    requires
        q.day is None,
        q.date_from is None,
        q.date_to is None,
        q.device is None,
        q.device_id is None,
        q.protocol is None,
        q.action is None,
        q.keyword is None,
        q.include_failed,
    ensures
        (q.src_ip is None && active_filter(ov(q.dst_ip)) is Some) ==> spec_query_filters(
            q,
            include_raw,
        ) == (seq!["dst_ip = ?"@], seq![active_filter(ov(q.dst_ip))->0]),
        (q.dst_ip is None && active_filter(ov(q.src_ip)) is Some) ==> spec_query_filters(
            q,
            include_raw,
        ) == (seq!["src_ip = ?"@], seq![active_filter(ov(q.src_ip))->0]),
        (active_filter(ov(q.src_ip)) is Some && active_filter(ov(q.dst_ip)) is Some) ==> spec_query_filters(
            q,
            include_raw,
        ) == (
            seq!["src_ip = ?"@, "dst_ip = ?"@],
            seq![active_filter(ov(q.src_ip))->0, active_filter(ov(q.dst_ip))->0],
        ),
{
    assert(seq!["src_ip = ?"@].push("dst_ip = ?"@) =~= seq!["src_ip = ?"@, "dst_ip = ?"@]);
    if active_filter(ov(q.src_ip)) is Some && active_filter(ov(q.dst_ip)) is Some {
        let a = active_filter(ov(q.src_ip))->0;
        let b = active_filter(ov(q.dst_ip))->0;
        assert(Seq::<Seq<char>>::empty().push(a).push(b) =~= seq![a, b]);
        assert(Seq::<Seq<char>>::empty().push("src_ip = ?"@) =~= seq!["src_ip = ?"@]);
    }
    assert(Seq::<Seq<char>>::empty().push("dst_ip = ?"@) =~= seq!["dst_ip = ?"@]);
    assert(Seq::<Seq<char>>::empty().push("src_ip = ?"@) =~= seq!["src_ip = ?"@]);
    if let Some(v) = active_filter(ov(q.dst_ip)) {
        assert(Seq::<Seq<char>>::empty().push(v) =~= seq![v]);
    }
    if let Some(v) = active_filter(ov(q.src_ip)) {
        assert(Seq::<Seq<char>>::empty().push(v) =~= seq![v]);
    }
}

/// The protocol name a protocol number or name stands for, compared in ASCII lower case.
pub open spec fn protocol_name(lower: Seq<char>) -> Option<Seq<char>> {
    if lower == "6"@ || lower == "tcp"@ {
        Some("TCP"@)
    } else if lower == "17"@ || lower == "udp"@ {
        Some("UDP"@)
    } else if lower == "1"@ || lower == "icmp"@ {
        Some("ICMP"@)
    } else {
        None
    }
}

proof fn lemma_protocol_spellings_differ()
    ensures
        "1"@ != "6"@ && "1"@ != "tcp"@ && "1"@ != "17"@ && "1"@ != "udp"@,
        "icmp"@ != "6"@ && "icmp"@ != "tcp"@ && "icmp"@ != "17"@ && "icmp"@ != "udp"@,
        "6"@ != "17"@ && "6"@ != "udp"@ && "tcp"@ != "17"@ && "tcp"@ != "udp"@,
{
    reveal_strlit("1");
    reveal_strlit("6");
    reveal_strlit("17");
    reveal_strlit("tcp");
    reveal_strlit("udp");
    reveal_strlit("icmp");
    assert("1"@.len() == 1 && "6"@.len() == 1 && "17"@.len() == 2 && "tcp"@.len() == 3);
    assert("udp"@.len() == 3 && "icmp"@.len() == 4);
    assert("1"@[0] != "6"@[0] && "tcp"@[0] != "udp"@[0]);
}

/// A learned protocol value that is 6, 17 or 1, or tcp, udp or icmp in any ASCII case, is
/// normalised to TCP, UDP or ICMP.
pub proof fn learned_protocol_numbers_are_named(value: Seq<char>)
    requires
        protocol_name(ascii_lower_seq(value)) is Some,
    ensures
        spec_normalize_value(value, AdaptiveValueType::Protocol) == protocol_name(ascii_lower_seq(value)),
{
    lemma_protocol_spellings_differ();
}

/// An active protocol rule of the line's scope, on an event without a protocol, whose raw key
/// carries 6, 17 or 1 (or tcp, udp, icmp in any case) sets the protocol to its name.
pub proof fn active_protocol_rule_names_the_protocol(
    st: ApplyState,
    rule: AdaptiveRuleView,
    scope_key: Seq<char>,
    raw: Seq<char>,
)
    requires
        rule.status == AdaptiveRuleStatus::Active,
        rule.scope_key == scope_key,
        rule.canonical_field == CanonicalField::Protocol,
        rule.value_type == AdaptiveValueType::Protocol,
        st.event.protocol is None,
        spec_find_raw_value(raw, rule.raw_key) matches Some(v) && protocol_name(ascii_lower_seq(v)) is Some,
    ensures
        apply_rule_step(st, rule, scope_key, raw).event.protocol == protocol_name(
            ascii_lower_seq(spec_find_raw_value(raw, rule.raw_key)->0),
        ),
{
    learned_protocol_numbers_are_named(spec_find_raw_value(raw, rule.raw_key)->0);
}

/// The canonical field of a Sangfor key=value match.
pub open spec fn sangfor_key_of(m: Seq<Option<Seq<char>>>) -> Option<SangforKey> {
    spec_canonical_key(group_text(m, 1))
}

/// The trimmed value of a Sangfor key=value match.
pub open spec fn sangfor_value_of(m: Seq<Option<Seq<char>>>) -> Seq<char> {
    trim_seq(group_text(m, 2))
}

/// The text field of the Sangfor fields that a key fills.
pub open spec fn sangfor_text_field(f: SangforFieldsView, key: SangforKey) -> Option<Seq<char>> {
    match key {
        SangforKey::Src => f.src,
        SangforKey::Dst => f.dst,
        SangforKey::Proto => f.proto,
        SangforKey::Action => f.action,
        SangforKey::Severity => f.severity,
        _ => None,
    }
}

/// The port field of the Sangfor fields that a key fills.
pub open spec fn sangfor_port_field(f: SangforFieldsView, key: SangforKey) -> Option<u16> {
    match key {
        SangforKey::Sport => f.sport,
        SangforKey::Dport => f.dport,
        _ => None,
    }
}

pub open spec fn is_port_key(key: SangforKey) -> bool {
    key == SangforKey::Sport || key == SangforKey::Dport
}

/// How a Sangfor text field keeps a value: the protocol by its name, anything else as it is.
pub open spec fn sangfor_kept(key: SangforKey, value: Seq<char>) -> Seq<char> {
    if key == SangforKey::Proto {
        spec_normalize_protocol(value)
    } else {
        value
    }
}

proof fn lemma_sangfor_text_untouched(ms: Seq<Seq<Option<Seq<char>>>>, key: SangforKey)
    requires
        !is_port_key(key),
        forall|j: int| 0 <= j < ms.len() ==> sangfor_key_of(#[trigger] ms[j]) != Some(key),
    ensures
        sangfor_text_field(sangfor_fields(ms), key) is None,
    decreases ms.len(),
{
    if ms.len() > 0 {
        let init = ms.drop_last();
        assert forall|j: int| 0 <= j < init.len() implies sangfor_key_of(#[trigger] init[j]) != Some(key) by {
            assert(init[j] == ms[j]);
        }
        lemma_sangfor_text_untouched(init, key);
        assert(sangfor_key_of(ms[ms.len() - 1]) != Some(key));
    }
}

/// Among the key=value matches of a Sangfor line, the first whose key stands for the source,
/// destination, protocol, action or severity gives that field: its trimmed value (a protocol
/// by its name). Later matches of the same field do not replace it.
pub proof fn sangfor_text_field_is_first_value(ms: Seq<Seq<Option<Seq<char>>>>, key: SangforKey, k: int)
    requires
        !is_port_key(key),
        0 <= k < ms.len(),
        sangfor_key_of(ms[k]) == Some(key),
        forall|j: int| 0 <= j < k ==> sangfor_key_of(#[trigger] ms[j]) != Some(key),
    ensures
        sangfor_text_field(sangfor_fields(ms), key) == Some(sangfor_kept(key, sangfor_value_of(ms[k]))),
    decreases ms.len(),
{
    let init = ms.drop_last();
    if k == ms.len() - 1 {
        assert forall|j: int| 0 <= j < init.len() implies sangfor_key_of(#[trigger] init[j]) != Some(key) by {
            assert(init[j] == ms[j]);
        }
        lemma_sangfor_text_untouched(init, key);
    } else {
        assert(init[k] == ms[k]);
        assert forall|j: int| 0 <= j < k implies sangfor_key_of(#[trigger] init[j]) != Some(key) by {
            assert(init[j] == ms[j]);
        }
        sangfor_text_field_is_first_value(init, key, k);
    }
}

proof fn lemma_sangfor_port_open(ms: Seq<Seq<Option<Seq<char>>>>, key: SangforKey)
    requires
        is_port_key(key),
        forall|j: int|
            0 <= j < ms.len() && sangfor_key_of(#[trigger] ms[j]) == Some(key) ==> spec_port(
                sangfor_value_of(ms[j]),
            ) is None,
    ensures
        sangfor_port_field(sangfor_fields(ms), key) is None,
    decreases ms.len(),
{
    if ms.len() > 0 {
        let init = ms.drop_last();
        assert forall|j: int| 0 <= j < init.len() && sangfor_key_of(#[trigger] init[j]) == Some(key) implies spec_port(
            sangfor_value_of(init[j]),
        ) is None by {
            assert(init[j] == ms[j]);
        }
        lemma_sangfor_port_open(init, key);
        let last = ms[ms.len() - 1];
        assert(sangfor_key_of(last) == Some(key) ==> spec_port(sangfor_value_of(last)) is None);
    }
}

/// Among the key=value matches of a Sangfor line, the first source (or destination) port
/// whose value reads as a port gives that port; earlier ones that do not read as a port are
/// passed over, and later ones do not replace it.
pub proof fn sangfor_port_is_first_readable_port(ms: Seq<Seq<Option<Seq<char>>>>, key: SangforKey, k: int)
    requires
        is_port_key(key),
        0 <= k < ms.len(),
        sangfor_key_of(ms[k]) == Some(key),
        spec_port(sangfor_value_of(ms[k])) is Some,
        forall|j: int|
            0 <= j < k && sangfor_key_of(#[trigger] ms[j]) == Some(key) ==> spec_port(
                sangfor_value_of(ms[j]),
            ) is None,
    ensures
        sangfor_port_field(sangfor_fields(ms), key) == spec_port(sangfor_value_of(ms[k])),
    decreases ms.len(),
{
    let init = ms.drop_last();
    if k == ms.len() - 1 {
        assert forall|j: int| 0 <= j < init.len() && sangfor_key_of(#[trigger] init[j]) == Some(key) implies spec_port(
            sangfor_value_of(init[j]),
        ) is None by {
            assert(init[j] == ms[j]);
        }
        lemma_sangfor_port_open(init, key);
    } else {
        assert(init[k] == ms[k]);
        assert forall|j: int| 0 <= j < k && sangfor_key_of(#[trigger] init[j]) == Some(key) implies spec_port(
            sangfor_value_of(init[j]),
        ) is None by {
            assert(init[j] == ms[j]);
        }
        sangfor_port_is_first_readable_port(init, key, k);
    }
}

/// A Sangfor line that yields an event with any address, protocol or action carries every
/// field its key=value matches gave, as the Sangfor firewall's.
pub proof fn sangfor_event_carries_its_fields(raw: Seq<char>, ingest_time: crate::event::Timestamp, source_addr: Seq<char>)
    ensures
        ({
            let e = spec_sangfor_parse(raw, ingest_time, source_addr);
            let f = sangfor_fields(spec_regex_captures_all(SANGFOR_KV_PATTERN@, raw));
            carries_tuple(e) ==> {
                &&& e.src_ip == f.src
                &&& e.dst_ip == f.dst
                &&& e.src_port == f.sport
                &&& e.dst_port == f.dport
                &&& e.protocol == f.proto
                &&& e.action == f.action
                &&& e.severity == f.severity
                &&& e.vendor == Some("Sangfor"@)
                &&& e.product == Some("Firewall"@)
            }
        }),
{
}

/// The Sangfor adapter names protocol numbers 6, 17 and 1 as TCP, UDP and ICMP.
pub proof fn sangfor_protocol_numbers_are_named(value: Seq<char>)
    requires
        value == "6"@ || value == "17"@ || value == "1"@,
    ensures
        spec_normalize_protocol(value) == protocol_name(value)->0,
{
    lemma_protocol_spellings_differ();
}

/// The generic parser names a protocol given as 6, 17 or 1, or as tcp, udp or icmp in any
/// case, as TCP, UDP or ICMP.
pub proof fn generic_protocol_numbers_are_named(value: Seq<char>)
    requires
        protocol_name(spec_to_lowercase(value)) is Some,
    ensures
        spec_generic_protocol(value) == protocol_name(spec_to_lowercase(value))->0,
{
    lemma_protocol_spellings_differ();
}

/// The canonical field of a generic pair match.
pub open spec fn generic_key_of(m: Seq<Option<Seq<char>>>) -> Option<GenericKey> {
    spec_canonicalize_key(group_text(m, 1))
}

/// The value of a generic pair match, trimmed and unquoted.
pub open spec fn generic_value_of(m: Seq<Option<Seq<char>>>) -> Seq<char> {
    spec_unquote(trim_seq(group_text(m, 2)))
}

/// The generic field a key fills.
pub open spec fn generic_field(f: GenericFieldsView, key: GenericKey) -> Option<Seq<char>> {
    match key {
        GenericKey::SrcIp => f.src_ip,
        GenericKey::DstIp => f.dst_ip,
        GenericKey::SrcPort => f.src_port,
        GenericKey::DstPort => f.dst_port,
        GenericKey::Protocol => f.protocol,
        GenericKey::Action => f.action,
        GenericKey::Severity => f.severity,
        GenericKey::DeviceId => f.device_id,
    }
}

proof fn lemma_generic_untouched(ms: Seq<Seq<Option<Seq<char>>>>, key: GenericKey)
    requires
        forall|j: int| 0 <= j < ms.len() ==> generic_key_of(#[trigger] ms[j]) != Some(key),
    ensures
        generic_field(generic_fields(ms), key) is None,
    decreases ms.len(),
{
    if ms.len() > 0 {
        let init = ms.drop_last();
        assert forall|j: int| 0 <= j < init.len() implies generic_key_of(#[trigger] init[j]) != Some(key) by {
            assert(init[j] == ms[j]);
        }
        lemma_generic_untouched(init, key);
        assert(generic_key_of(ms[ms.len() - 1]) != Some(key));
    }
}

/// Among the pairs of a generic line, the first whose key stands for a field gives that
/// field: its value, trimmed and unquoted. Later pairs of the same field do not replace it.
pub proof fn generic_field_is_first_value(ms: Seq<Seq<Option<Seq<char>>>>, key: GenericKey, k: int)
    requires
        0 <= k < ms.len(),
        generic_key_of(ms[k]) == Some(key),
        forall|j: int| 0 <= j < k ==> generic_key_of(#[trigger] ms[j]) != Some(key),
    ensures
        generic_field(generic_fields(ms), key) == Some(generic_value_of(ms[k])),
    decreases ms.len(),
{
    let init = ms.drop_last();
    if k == ms.len() - 1 {
        assert forall|j: int| 0 <= j < init.len() implies generic_key_of(#[trigger] init[j]) != Some(key) by {
            assert(init[j] == ms[j]);
        }
        lemma_generic_untouched(init, key);
    } else {
        assert(init[k] == ms[k]);
        assert forall|j: int| 0 <= j < k implies generic_key_of(#[trigger] init[j]) != Some(key) by {
            assert(init[j] == ms[j]);
        }
        generic_field_is_first_value(init, key, k);
    }
}

/// A generic line that yields an event with any address, protocol or action carries the
/// device id, severity and ports its pairs gave; an explicit source or destination address,
/// protocol (by its name) or action is the event's, whatever else the line holds.
pub proof fn generic_event_carries_its_fields(raw: Seq<char>, ingest_time: crate::event::Timestamp, source_addr: Seq<char>)
    ensures
        ({
            let e = spec_generic_parse(raw, ingest_time, source_addr);
            let f = generic_fields(spec_regex_captures_all(GENERIC_KV_PATTERN@, raw));
            &&& carries_tuple(e) ==> {
                &&& e.device_id == f.device_id
                &&& e.severity == f.severity
                &&& e.src_port == port_of(f.src_port)
                &&& e.dst_port == port_of(f.dst_port)
                &&& e.vendor is None
            }
            &&& f.src_ip is Some ==> e.src_ip == f.src_ip
            &&& f.dst_ip is Some ==> e.dst_ip == f.dst_ip
            &&& f.protocol matches Some(p) ==> e.protocol == Some(spec_generic_protocol(p))
            &&& f.action is Some ==> e.action == f.action
        }),
{
}

/// The event fields a rule's mapping can name.
#[derive(PartialEq, Eq, Structural)]
pub enum RuleTarget {
    SrcIp,
    DstIp,
    SrcPort,
    DstPort,
    Protocol,
    Action,
    Severity,
    DeviceId,
    Vendor,
    Product,
}

/// How a mapping names each field.
pub open spec fn target_name(t: RuleTarget) -> Seq<char> {
    match t {
        RuleTarget::SrcIp => "src_ip"@,
        RuleTarget::DstIp => "dst_ip"@,
        RuleTarget::SrcPort => "src_port"@,
        RuleTarget::DstPort => "dst_port"@,
        RuleTarget::Protocol => "protocol"@,
        RuleTarget::Action => "action"@,
        RuleTarget::Severity => "severity"@,
        RuleTarget::DeviceId => "device_id"@,
        RuleTarget::Vendor => "vendor"@,
        RuleTarget::Product => "product"@,
    }
}

pub open spec fn is_port_target(t: RuleTarget) -> bool {
    t == RuleTarget::SrcPort || t == RuleTarget::DstPort
}

/// The text field of an event a target names.
pub open spec fn target_text(e: EventView, t: RuleTarget) -> Option<Seq<char>> {
    match t {
        RuleTarget::SrcIp => e.src_ip,
        RuleTarget::DstIp => e.dst_ip,
        RuleTarget::Protocol => e.protocol,
        RuleTarget::Action => e.action,
        RuleTarget::Severity => e.severity,
        RuleTarget::DeviceId => e.device_id,
        RuleTarget::Vendor => e.vendor,
        RuleTarget::Product => e.product,
        _ => None,
    }
}

/// The port field of an event a target names.
pub open spec fn target_port(e: EventView, t: RuleTarget) -> Option<u16> {
    match t {
        RuleTarget::SrcPort => e.src_port,
        RuleTarget::DstPort => e.dst_port,
        _ => None,
    }
}

proof fn lemma_target_names_differ(t: RuleTarget, u: RuleTarget)
    ensures
        t != u ==> target_name(t) != target_name(u),
{
    reveal_strlit("src_ip");
    reveal_strlit("dst_ip");
    reveal_strlit("src_port");
    reveal_strlit("dst_port");
    reveal_strlit("protocol");
    reveal_strlit("action");
    reveal_strlit("severity");
    reveal_strlit("device_id");
    reveal_strlit("vendor");
    reveal_strlit("product");
    let a = target_name(t);
    let b = target_name(u);
    if t != u {
        assert(a.len() != b.len() || a[0] != b[0] || a[1] != b[1]);
    }
}

proof fn lemma_mapping_sets_target(e: EventView, m: FieldMappingView, names: Seq<Option<Seq<char>>>, groups: Seq<Option<Seq<char>>>, t: RuleTarget)
    requires
        m.target == target_name(t),
        mapping_value(names, groups, m.source) is Some,
    ensures
        !is_port_target(t) ==> target_text(apply_mapping(e, m, names, groups), t) == Some(
            spec_apply_transform(mapping_value(names, groups, m.source)->0, m.transform),
        ),
        is_port_target(t) ==> target_port(apply_mapping(e, m, names, groups), t) == spec_port(
            spec_apply_transform(mapping_value(names, groups, m.source)->0, m.transform),
        ),
{
    lemma_target_names_differ(t, RuleTarget::SrcIp);
    lemma_target_names_differ(t, RuleTarget::DstIp);
    lemma_target_names_differ(t, RuleTarget::SrcPort);
    lemma_target_names_differ(t, RuleTarget::DstPort);
    lemma_target_names_differ(t, RuleTarget::Protocol);
    lemma_target_names_differ(t, RuleTarget::Action);
    lemma_target_names_differ(t, RuleTarget::Severity);
    lemma_target_names_differ(t, RuleTarget::DeviceId);
    lemma_target_names_differ(t, RuleTarget::Vendor);
}

/// Whatever a mapping onto another field does, it leaves this target's field as it was.
proof fn lemma_mapping_keeps_target(e: EventView, m: FieldMappingView, names: Seq<Option<Seq<char>>>, groups: Seq<Option<Seq<char>>>, t: RuleTarget)
    requires
        m.target != target_name(t),
    ensures
        target_text(apply_mapping(e, m, names, groups), t) == target_text(e, t),
        target_port(apply_mapping(e, m, names, groups), t) == target_port(e, t),
{
}

/// The last mapping onto a field decides it: when its group took part, a text field is the
/// captured value after the mapping's transform, and a port field is that value read as a
/// port. Mappings onto other fields never change it.
pub proof fn rule_field_is_last_mapped_value(
    e: EventView,
    ms: Seq<FieldMappingView>,
    names: Seq<Option<Seq<char>>>,
    groups: Seq<Option<Seq<char>>>,
    t: RuleTarget,
    k: int,
)
    requires
        0 <= k < ms.len(),
        ms[k].target == target_name(t),
        mapping_value(names, groups, ms[k].source) is Some,
        forall|j: int| k < j < ms.len() ==> (#[trigger] ms[j]).target != target_name(t),
    ensures
        !is_port_target(t) ==> target_text(apply_mappings(e, ms, names, groups), t) == Some(
            spec_apply_transform(mapping_value(names, groups, ms[k].source)->0, ms[k].transform),
        ),
        is_port_target(t) ==> target_port(apply_mappings(e, ms, names, groups), t) == spec_port(
            spec_apply_transform(mapping_value(names, groups, ms[k].source)->0, ms[k].transform),
        ),
    decreases ms.len(),
{
    let init = ms.drop_last();
    if k == ms.len() - 1 {
        lemma_mapping_sets_target(apply_mappings(e, init, names, groups), ms[k], names, groups, t);
    } else {
        assert(init[k] == ms[k]);
        assert forall|j: int| k < j < init.len() implies (#[trigger] init[j]).target != target_name(t) by {
            assert(init[j] == ms[j]);
        }
        rule_field_is_last_mapped_value(e, init, names, groups, t, k);
        lemma_mapping_keeps_target(apply_mappings(e, init, names, groups), ms[ms.len() - 1], names, groups, t);
    }
}

/// A field no mapping names keeps the value the rule's event starts with.
pub proof fn rule_unmapped_field_is_kept(
    e: EventView,
    ms: Seq<FieldMappingView>,
    names: Seq<Option<Seq<char>>>,
    groups: Seq<Option<Seq<char>>>,
    t: RuleTarget,
)
    requires
        forall|j: int| 0 <= j < ms.len() ==> (#[trigger] ms[j]).target != target_name(t),
    ensures
        target_text(apply_mappings(e, ms, names, groups), t) == target_text(e, t),
        target_port(apply_mappings(e, ms, names, groups), t) == target_port(e, t),
    decreases ms.len(),
{
    if ms.len() > 0 {
        let init = ms.drop_last();
        assert forall|j: int| 0 <= j < init.len() implies (#[trigger] init[j]).target != target_name(t) by {
            assert(init[j] == ms[j]);
        }
        rule_unmapped_field_is_kept(e, init, names, groups, t);
        lemma_mapping_keeps_target(apply_mappings(e, init, names, groups), ms[ms.len() - 1], names, groups, t);
    }
}

/// The event a matching rule gives carries, in each field, what the last mapping onto it
/// read (after its transform; a port read as a port).
pub proof fn rule_event_carries_last_mapped_values(
    rule: ParseRule,
    raw: Seq<char>,
    ingest_time: crate::event::Timestamp,
    source_addr: Seq<char>,
    groups: Seq<Option<Seq<char>>>,
    t: RuleTarget,
    k: int,
)
    requires
        spec_regex_captures(rule.match_pattern@, raw) == Some(groups),
        0 <= k < mappings_view(rule.field_mappings@).len(),
        mappings_view(rule.field_mappings@)[k].target == target_name(t),
        mapping_value(
            spec_regex_group_names(rule.match_pattern@),
            groups,
            mappings_view(rule.field_mappings@)[k].source,
        ) is Some,
        forall|j: int|
            k < j < mappings_view(rule.field_mappings@).len() ==> (#[trigger] mappings_view(
                rule.field_mappings@,
            )[j]).target != target_name(t),
    ensures
        ({
            let m = mappings_view(rule.field_mappings@)[k];
            let v = spec_apply_transform(
                mapping_value(spec_regex_group_names(rule.match_pattern@), groups, m.source)->0,
                m.transform,
            );
            rule_attempt(rule, raw, ingest_time, source_addr) matches Some(ev) ==> {
                &&& !is_port_target(t) ==> target_text(ev, t) == Some(v)
                &&& is_port_target(t) ==> target_port(ev, t) == spec_port(v)
            }
        }),
{
    rule_field_is_last_mapped_value(
        crate::rule::rule_base_event(rule.name@, raw, ingest_time, source_addr),
        mappings_view(rule.field_mappings@),
        spec_regex_group_names(rule.match_pattern@),
        groups,
        t,
        k,
    );
}

/// The conditions an event query can hold.
#[derive(PartialEq, Eq, Structural)]
pub enum QueryCondition {
    Device,
    DeviceId,
    DayWithRaw,
    Day,
    From,
    To,
    SrcIp,
    DstIp,
    Protocol,
    Action,
    Keyword,
    NoKeywordMatch,
    NotFailed,
}

pub open spec fn condition_text(c: QueryCondition) -> Seq<char> {
    match c {
        QueryCondition::Device => "source_addr LIKE ?"@,
        QueryCondition::DeviceId => "device_id = ?"@,
        QueryCondition::DayWithRaw => "(ingest_time LIKE ? OR event_time LIKE ? OR raw LIKE ?)"@,
        QueryCondition::Day => "(ingest_time LIKE ? OR event_time LIKE ?)"@,
        QueryCondition::From => "substr(COALESCE(event_time, ingest_time), 1, 10) >= ?"@,
        QueryCondition::To => "substr(COALESCE(event_time, ingest_time), 1, 10) <= ?"@,
        QueryCondition::SrcIp => "src_ip = ?"@,
        QueryCondition::DstIp => "dst_ip = ?"@,
        QueryCondition::Protocol => "upper(protocol) = ?"@,
        QueryCondition::Action => "lower(action) = ?"@,
        QueryCondition::Keyword => "raw LIKE ?"@,
        QueryCondition::NoKeywordMatch => "FALSE"@,
        QueryCondition::NotFailed => "parse_status <> 'failed'"@,
    }
}

/// When a query asks for each condition: a filter given with some text (a day filter only
/// when it is a well-formed day); the day and keyword conditions in their raw-text form only
/// when the raw text is read; a keyword without the raw text matches nothing; failed events
/// are left out unless asked for.
pub open spec fn condition_wanted(q: EventQuery, include_raw: bool, c: QueryCondition) -> bool {
    match c {
        QueryCondition::Device => active_filter(ov(q.device)) is Some,
        QueryCondition::DeviceId => active_filter(ov(q.device_id)) is Some,
        QueryCondition::DayWithRaw => day_filter(q.day) is Some && include_raw,
        QueryCondition::Day => day_filter(q.day) is Some && !include_raw,
        QueryCondition::From => day_filter(q.date_from) is Some,
        QueryCondition::To => day_filter(q.date_to) is Some,
        QueryCondition::SrcIp => active_filter(ov(q.src_ip)) is Some,
        QueryCondition::DstIp => active_filter(ov(q.dst_ip)) is Some,
        QueryCondition::Protocol => active_filter(ov(q.protocol)) is Some,
        QueryCondition::Action => active_filter(ov(q.action)) is Some,
        QueryCondition::Keyword => active_filter(ov(q.keyword)) is Some && include_raw,
        QueryCondition::NoKeywordMatch => active_filter(ov(q.keyword)) is Some && !include_raw,
        QueryCondition::NotFailed => !q.include_failed,
    }
}

proof fn lemma_condition_texts_distinct(c: QueryCondition, d: QueryCondition)
    ensures
        c != d ==> condition_text(c) != condition_text(d),
{
    reveal_strlit("source_addr LIKE ?");
    reveal_strlit("device_id = ?");
    reveal_strlit("(ingest_time LIKE ? OR event_time LIKE ? OR raw LIKE ?)");
    reveal_strlit("(ingest_time LIKE ? OR event_time LIKE ?)");
    reveal_strlit("substr(COALESCE(event_time, ingest_time), 1, 10) >= ?");
    reveal_strlit("substr(COALESCE(event_time, ingest_time), 1, 10) <= ?");
    reveal_strlit("src_ip = ?");
    reveal_strlit("dst_ip = ?");
    reveal_strlit("upper(protocol) = ?");
    reveal_strlit("lower(action) = ?");
    reveal_strlit("raw LIKE ?");
    reveal_strlit("FALSE");
    reveal_strlit("parse_status <> 'failed'");
    let a = condition_text(c);
    let b = condition_text(d);
    if c != d {
        assert(a.len() != b.len() || a[0] != b[0] || a[49] != b[49]);
    }
}

/// An event query holds each condition exactly when it asks for it (see `condition_wanted`):
/// a filter is never dropped, never doubled into another field's condition, and no
/// condition appears that was not asked for.
pub proof fn query_conditions_are_exactly_the_wanted_ones(q: EventQuery, include_raw: bool, c: QueryCondition)
    ensures
        spec_query_filters(q, include_raw).0.contains(condition_text(c)) <==> condition_wanted(
            q,
            include_raw,
            c,
        ),
{
    broadcast use vstd::seq_lib::lemma_seq_contains_after_push;
    broadcast use vstd::seq_lib::lemma_seq_empty_contains_nothing;
    lemma_condition_texts_distinct(c, QueryCondition::Device);
    lemma_condition_texts_distinct(c, QueryCondition::DeviceId);
    lemma_condition_texts_distinct(c, QueryCondition::DayWithRaw);
    lemma_condition_texts_distinct(c, QueryCondition::Day);
    lemma_condition_texts_distinct(c, QueryCondition::From);
    lemma_condition_texts_distinct(c, QueryCondition::To);
    lemma_condition_texts_distinct(c, QueryCondition::SrcIp);
    lemma_condition_texts_distinct(c, QueryCondition::DstIp);
    lemma_condition_texts_distinct(c, QueryCondition::Protocol);
    lemma_condition_texts_distinct(c, QueryCondition::Action);
    lemma_condition_texts_distinct(c, QueryCondition::Keyword);
    lemma_condition_texts_distinct(c, QueryCondition::NoKeywordMatch);
    lemma_condition_texts_distinct(c, QueryCondition::NotFailed);
}

/// The filter a condition reads, for the conditions bound to one text filter.
pub open spec fn filter_of(q: EventQuery, c: QueryCondition) -> Option<String> {
    match c {
        QueryCondition::Device => q.device,
        QueryCondition::DeviceId => q.device_id,
        QueryCondition::SrcIp => q.src_ip,
        QueryCondition::DstIp => q.dst_ip,
        QueryCondition::Protocol => q.protocol,
        QueryCondition::Action => q.action,
        _ => None,
    }
}

pub open spec fn is_text_filter(c: QueryCondition) -> bool {
    c == QueryCondition::Device || c == QueryCondition::DeviceId || c == QueryCondition::SrcIp
        || c == QueryCondition::DstIp || c == QueryCondition::Protocol || c == QueryCondition::Action
}

/// The query sets no filter but the one `c` reads, and wants failed events too.
pub open spec fn sole_text_filter(q: EventQuery, c: QueryCondition) -> bool {
    &&& q.day is None && q.date_from is None && q.date_to is None && q.keyword is None
    &&& q.include_failed
    &&& (c != QueryCondition::Device ==> q.device is None)
    &&& (c != QueryCondition::DeviceId ==> q.device_id is None)
    &&& (c != QueryCondition::SrcIp ==> q.src_ip is None)
    &&& (c != QueryCondition::DstIp ==> q.dst_ip is None)
    &&& (c != QueryCondition::Protocol ==> q.protocol is None)
    &&& (c != QueryCondition::Action ==> q.action is None)
}

/// What a text filter `v` is bound as: the device as a substring pattern, the protocol by its
/// upper-case name, the action in lower case, anything else as given.
pub open spec fn bound_value(c: QueryCondition, v: Seq<char>) -> Seq<char> {
    match c {
        QueryCondition::Device => "%"@ + v + "%"@,
        QueryCondition::Protocol => spec_normalize_query_protocol(v),
        QueryCondition::Action => ascii_lower_seq(v),
        _ => v,
    }
}

/// A query with a single text filter holds exactly that filter's condition, bound to the
/// filter's value.
pub proof fn query_with_one_filter_binds_its_value(q: EventQuery, include_raw: bool, c: QueryCondition)
    requires
        is_text_filter(c),
        sole_text_filter(q, c),
        active_filter(ov(filter_of(q, c))) is Some,
    ensures
        spec_query_filters(q, include_raw) == (
            seq![condition_text(c)],
            seq![bound_value(c, active_filter(ov(filter_of(q, c)))->0)],
        ),
{
    let v = active_filter(ov(filter_of(q, c)))->0;
    assert(Seq::<Seq<char>>::empty().push(condition_text(c)) =~= seq![condition_text(c)]);
    assert(Seq::<Seq<char>>::empty().push(bound_value(c, v)) =~= seq![bound_value(c, v)]);
}

/// A protocol filter given as 6 or 17 is looked up as TCP or UDP.
pub proof fn query_protocol_numbers_are_named(value: Seq<char>)
    requires
        value == "6"@ || value == "17"@,
    ensures
        spec_normalize_query_protocol(value) == protocol_name(value)->0,
{
    lemma_protocol_spellings_differ();
    reveal_strlit("6");
    reveal_strlit("17");
    assert(crate::text::ascii_upper_seq(value) =~= value);
}

/// A learned port written in decimal digits, no larger than 65535, is kept as that number in
/// plain decimal (leading zeros dropped); a learned action or severity is kept as it is.
pub proof fn learned_ports_and_labels_are_kept(value: Seq<char>)
    ensures
        (value.len() > 0 && all_digits(value) && digits_value(value) <= 65535) ==> spec_normalize_value(
            value,
            AdaptiveValueType::Port,
        ) == Some(crate::text::decimal_chars(digits_value(value))),
        spec_normalize_value(value, AdaptiveValueType::Action) == Some(value),
        spec_normalize_value(value, AdaptiveValueType::String) == Some(value),
{
    if value.len() > 0 && all_digits(value) {
        assert(crate::text::is_ascii_digit(value[0]));
    }
}

} // verus!
