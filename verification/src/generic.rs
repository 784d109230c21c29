//! The generic key/value parser: the second fallback, which recognises many separators and
//! key spellings and falls back to the IPv4 addresses it finds in the line.
use vstd::prelude::*;
use crate::event::{
    CanonicalEvent, EventView, ParseStatus, RawLog, Timestamp, classified, failed_view, ov,
    spec_event_id, make_event_id, clone_opt,
};
use crate::regex_support::{
    groups_view, matches_view, regex_captures, regex_captures_all, regex_find_all,
    spec_regex_captures, spec_regex_captures_all, spec_regex_find_all,
};
use crate::sangfor::{group_text, spec_port, parse_port};
use crate::text::{
    chars_of, owned, seq_contains, spec_to_lowercase, spec_to_uppercase, str_contains, str_eq,
    substring, to_lowercase, to_uppercase, trim, trim_seq,
};

verus! {

/// `key=value`, `key: value`, `key="value"` and `key='value'` pairs after a start of line or a
/// separator.
pub const GENERIC_KV_PATTERN: &'static str = r#"(?:^|[\s,;|])([a-zA-Z0-9_\u4e00-\u9fa5]+)\s*[:=]\s*("(?:[^"\\]|\\.)*"|'(?:[^'\\]|\\.)*'|[^\s,;|]+)"#;

/// A dotted IPv4 address on word boundaries.
pub const IPV4_PATTERN: &'static str = r#"\b(?:(?:25[0-5]|2[0-4][0-9]|[01]?[0-9][0-9]?)\.){3}(?:25[0-5]|2[0-4][0-9]|[01]?[0-9][0-9]?)\b"#;

/// A protocol label anywhere in the line, in any case (also its garbled Chinese spelling).
pub const PROTOCOL_HINT_PATTERN: &'static str = r"(?i)(?:proto|protocol|鍗忚|协议)\s*[:=]\s*([^\s,;|]+)";

/// An action label anywhere in the line, in any case (also garbled Chinese spellings).
pub const ACTION_HINT_PATTERN: &'static str = r"(?i)(?:action|act|鍔ㄤ綔|动作|nat绫诲瀷|nat类型)\s*[:=]\s*([^\s,;|]+)";

/// The canonical field a generic key stands for.
#[derive(Debug, Clone, Copy, PartialEq, Eq, Structural)]
pub enum GenericKey {
    SrcIp,
    DstIp,
    SrcPort,
    DstPort,
    Protocol,
    Action,
    Severity,
    DeviceId,
}

/// The field of a key already in lower case.
pub open spec fn spec_generic_key_lower(k: Seq<char>) -> Option<GenericKey> {
    if k == "src"@ || k == "source"@ || k == "source_ip"@ || k == "saddr"@ || k == "srcaddr"@
        || k == "src_ip"@ || k == "sip"@ || k == "srcip"@ {
        Some(GenericKey::SrcIp)
    } else if k == "dst"@ || k == "dest"@ || k == "destination"@ || k == "destination_ip"@ || k
        == "daddr"@ || k == "dstaddr"@ || k == "dst_ip"@ || k == "dip"@ || k == "dstip"@ {
        Some(GenericKey::DstIp)
    } else if k == "sport"@ || k == "source_port"@ || k == "srcport"@ || k == "spt"@ || k
        == "src_port"@ {
        Some(GenericKey::SrcPort)
    } else if k == "dport"@ || k == "destination_port"@ || k == "dstport"@ || k == "dpt"@ || k
        == "dst_port"@ {
        Some(GenericKey::DstPort)
    } else if k == "proto"@ || k == "protocol"@ || k == "prot"@ {
        Some(GenericKey::Protocol)
    } else if k == "action"@ || k == "act"@ || k == "disposition"@ || k == "nat类型"@ {
        Some(GenericKey::Action)
    } else if k == "severity"@ || k == "level"@ || k == "priority"@ || k == "sev"@ {
        Some(GenericKey::Severity)
    } else if k == "device"@ || k == "device_id"@ || k == "host"@ || k == "hostname"@ || k
        == "dev"@ {
        Some(GenericKey::DeviceId)
    } else if seq_contains(k, "源"@) && (seq_contains(k, "ip"@) || seq_contains(k, "地址"@)) {
        Some(GenericKey::SrcIp)
    } else if (seq_contains(k, "目的"@) || seq_contains(k, "目标"@)) && (seq_contains(k, "ip"@)
        || seq_contains(k, "地址"@)) {
        Some(GenericKey::DstIp)
    } else if seq_contains(k, "源"@) && seq_contains(k, "端口"@) {
        Some(GenericKey::SrcPort)
    } else if (seq_contains(k, "目的"@) || seq_contains(k, "目标"@)) && seq_contains(k, "端口"@) {
        Some(GenericKey::DstPort)
    } else if seq_contains(k, "协议"@) {
        Some(GenericKey::Protocol)
    } else if seq_contains(k, "动作"@) || (seq_contains(k, "nat"@) && seq_contains(k, "类型"@)) {
        Some(GenericKey::Action)
    } else if seq_contains(k, "级别"@) || seq_contains(k, "严重"@) || seq_contains(k, "等级"@) {
        Some(GenericKey::Severity)
    } else {
        None
    }
}

/// The field a raw key stands for, compared in lower case.
pub open spec fn spec_canonicalize_key(key: Seq<char>) -> Option<GenericKey> {
    spec_generic_key_lower(spec_to_lowercase(key))
}

/// Maps a key spelling (English or Chinese, in any case) to its canonical field.
pub fn canonicalize_key(key: &str) -> (r: Option<GenericKey>)
    ensures
        r == spec_canonicalize_key(key@),
{
    let lower = to_lowercase(key);
    let k = lower.as_str();
    if str_eq(k, "src") || str_eq(k, "source") || str_eq(k, "source_ip") || str_eq(k, "saddr")
        || str_eq(k, "srcaddr") || str_eq(k, "src_ip") || str_eq(k, "sip") || str_eq(k, "srcip") {
        Some(GenericKey::SrcIp)
    } else if str_eq(k, "dst") || str_eq(k, "dest") || str_eq(k, "destination") || str_eq(
        k,
        "destination_ip",
    ) || str_eq(k, "daddr") || str_eq(k, "dstaddr") || str_eq(k, "dst_ip") || str_eq(k, "dip")
        || str_eq(k, "dstip") {
        Some(GenericKey::DstIp)
    } else if str_eq(k, "sport") || str_eq(k, "source_port") || str_eq(k, "srcport") || str_eq(
        k,
        "spt",
    ) || str_eq(k, "src_port") {
        Some(GenericKey::SrcPort)
    } else if str_eq(k, "dport") || str_eq(k, "destination_port") || str_eq(k, "dstport")
        || str_eq(k, "dpt") || str_eq(k, "dst_port") {
        Some(GenericKey::DstPort)
    } else if str_eq(k, "proto") || str_eq(k, "protocol") || str_eq(k, "prot") {
        Some(GenericKey::Protocol)
    } else if str_eq(k, "action") || str_eq(k, "act") || str_eq(k, "disposition") || str_eq(
        k,
        "nat类型",
    ) {
        Some(GenericKey::Action)
    } else if str_eq(k, "severity") || str_eq(k, "level") || str_eq(k, "priority") || str_eq(
        k,
        "sev",
    ) {
        Some(GenericKey::Severity)
    } else if str_eq(k, "device") || str_eq(k, "device_id") || str_eq(k, "host") || str_eq(
        k,
        "hostname",
    ) || str_eq(k, "dev") {
        Some(GenericKey::DeviceId)
    } else if str_contains(k, "源") && (str_contains(k, "ip") || str_contains(k, "地址")) {
        Some(GenericKey::SrcIp)
    } else if (str_contains(k, "目的") || str_contains(k, "目标")) && (str_contains(k, "ip")
        || str_contains(k, "地址")) {
        Some(GenericKey::DstIp)
    } else if str_contains(k, "源") && str_contains(k, "端口") {
        Some(GenericKey::SrcPort)
    } else if (str_contains(k, "目的") || str_contains(k, "目标")) && str_contains(k, "端口") {
        Some(GenericKey::DstPort)
    } else if str_contains(k, "协议") {
        Some(GenericKey::Protocol)
    } else if str_contains(k, "动作") || (str_contains(k, "nat") && str_contains(k, "类型")) {
        Some(GenericKey::Action)
    } else if str_contains(k, "级别") || str_contains(k, "严重") || str_contains(k, "等级") {
        Some(GenericKey::Severity)
    } else {
        None
    }
}

/// A value without one pair of surrounding double quotes, or else single quotes.
pub open spec fn spec_unquote(s: Seq<char>) -> Seq<char> {
    if s.len() >= 2 && s[0] == '"' && s[s.len() - 1] == '"' {
        s.subrange(1, s.len() - 1)
    } else if s.len() >= 2 && s[0] == '\'' && s[s.len() - 1] == '\'' {
        s.subrange(1, s.len() - 1)
    } else {
        s
    }
}

/// Removes one pair of surrounding quotes: double quotes first, then single quotes.
pub fn unquote(s: &str) -> (r: String)
    ensures
        r@ == spec_unquote(s@),
{
    let v = chars_of(s);
    let n = v.len();
    if n >= 2 && v[0] == '"' && v[n - 1] == '"' {
        substring(s, 1, n - 1)
    } else if n >= 2 && v[0] == '\'' && v[n - 1] == '\'' {
        substring(s, 1, n - 1)
    } else {
        owned(s)
    }
}

/// A protocol number or name (in any case) by its upper-case name; anything else in upper case.
pub open spec fn spec_generic_protocol(value: Seq<char>) -> Seq<char> {
    let lower = spec_to_lowercase(value);
    if lower == "1"@ || lower == "icmp"@ {
        "ICMP"@
    } else if lower == "6"@ || lower == "tcp"@ {
        "TCP"@
    } else if lower == "17"@ || lower == "udp"@ {
        "UDP"@
    } else {
        spec_to_uppercase(value)
    }
}

pub fn normalize_protocol(value: &str) -> (r: String)
    ensures
        r@ == spec_generic_protocol(value@),
{
    let lower = to_lowercase(value);
    let l = lower.as_str();
    if str_eq(l, "1") || str_eq(l, "icmp") {
        owned("ICMP")
    } else if str_eq(l, "6") || str_eq(l, "tcp") {
        owned("TCP")
    } else if str_eq(l, "17") || str_eq(l, "udp") {
        owned("UDP")
    } else {
        to_uppercase(value)
    }
}

/// The first value of every canonical field among the pairs of a line.
pub struct GenericFields {
    pub src_ip: Option<String>,
    pub dst_ip: Option<String>,
    pub src_port: Option<String>,
    pub dst_port: Option<String>,
    pub protocol: Option<String>,
    pub action: Option<String>,
    pub severity: Option<String>,
    pub device_id: Option<String>,
}

pub struct GenericFieldsView {
    pub src_ip: Option<Seq<char>>,
    pub dst_ip: Option<Seq<char>>,
    pub src_port: Option<Seq<char>>,
    pub dst_port: Option<Seq<char>>,
    pub protocol: Option<Seq<char>>,
    pub action: Option<Seq<char>>,
    pub severity: Option<Seq<char>>,
    pub device_id: Option<Seq<char>>,
}

impl View for GenericFields {
    type V = GenericFieldsView;

    open spec fn view(&self) -> GenericFieldsView {
        GenericFieldsView {
            src_ip: ov(self.src_ip),
            dst_ip: ov(self.dst_ip),
            src_port: ov(self.src_port),
            dst_port: ov(self.dst_port),
            protocol: ov(self.protocol),
            action: ov(self.action),
            severity: ov(self.severity),
            device_id: ov(self.device_id),
        }
    }
}

pub open spec fn no_generic_fields() -> GenericFieldsView {
    GenericFieldsView {
        src_ip: None,
        dst_ip: None,
        src_port: None,
        dst_port: None,
        protocol: None,
        action: None,
        severity: None,
        device_id: None,
    }
}

/// Keeps the first value seen for a field.
pub open spec fn first_of(old: Option<Seq<char>>, val: Seq<char>) -> Option<Seq<char>> {
    if old is None {
        Some(val)
    } else {
        old
    }
}

/// One pair applied to the fields found so far; a field keeps its first value.
pub open spec fn generic_step(f: GenericFieldsView, m: Seq<Option<Seq<char>>>) -> GenericFieldsView {
    let val = spec_unquote(trim_seq(group_text(m, 2)));
    match spec_canonicalize_key(group_text(m, 1)) {
        Some(GenericKey::SrcIp) => GenericFieldsView { src_ip: first_of(f.src_ip, val), ..f },
        Some(GenericKey::DstIp) => GenericFieldsView { dst_ip: first_of(f.dst_ip, val), ..f },
        Some(GenericKey::SrcPort) => GenericFieldsView { src_port: first_of(f.src_port, val), ..f },
        Some(GenericKey::DstPort) => GenericFieldsView { dst_port: first_of(f.dst_port, val), ..f },
        Some(GenericKey::Protocol) => GenericFieldsView {
            protocol: first_of(f.protocol, val),
            ..f
        },
        Some(GenericKey::Action) => GenericFieldsView { action: first_of(f.action, val), ..f },
        Some(GenericKey::Severity) => GenericFieldsView {
            severity: first_of(f.severity, val),
            ..f
        },
        Some(GenericKey::DeviceId) => GenericFieldsView {
            device_id: first_of(f.device_id, val),
            ..f
        },
        None => f,
    }
}

/// The fields of a sequence of pair matches, taken in order.
pub open spec fn generic_fields(ms: Seq<Seq<Option<Seq<char>>>>) -> GenericFieldsView
    decreases ms.len(),
{
    if ms.len() == 0 {
        no_generic_fields()
    } else {
        generic_step(generic_fields(ms.drop_last()), ms.last())
    }
}

fn keep_first(slot: &mut Option<String>, val: String)
    ensures
        ov(*final(slot)) == first_of(ov(*old(slot)), val@),
{
    if slot.is_none() {
        *slot = Some(val);
    }
}

fn group_string(m: &Vec<Option<String>>, i: usize) -> (r: String)
    ensures
        r@ == group_text(groups_view(*m), i as int),
{
    if i < m.len() {
        match &m[i] {
            Some(s) => s.clone(),
            None => String::new(),
        }
    } else {
        String::new()
    }
}

fn apply_generic_match(f: &mut GenericFields, m: &Vec<Option<String>>)
    ensures
        final(f)@ == generic_step(old(f)@, groups_view(*m)),
{
    let key = group_string(m, 1);
    let raw_val = group_string(m, 2);
    let trimmed = trim(raw_val.as_str());
    let val = unquote(trimmed.as_str());
    match canonicalize_key(key.as_str()) {
        Some(GenericKey::SrcIp) => keep_first(&mut f.src_ip, val),
        Some(GenericKey::DstIp) => keep_first(&mut f.dst_ip, val),
        Some(GenericKey::SrcPort) => keep_first(&mut f.src_port, val),
        Some(GenericKey::DstPort) => keep_first(&mut f.dst_port, val),
        Some(GenericKey::Protocol) => keep_first(&mut f.protocol, val),
        Some(GenericKey::Action) => keep_first(&mut f.action, val),
        Some(GenericKey::Severity) => keep_first(&mut f.severity, val),
        Some(GenericKey::DeviceId) => keep_first(&mut f.device_id, val),
        None => {},
    }
}

/// The first value of every canonical field among the pair matches of a line.
pub fn generic_fields_from_matches(matches: &Vec<Vec<Option<String>>>) -> (r: GenericFields)
    ensures
        r@ == generic_fields(matches_view(*matches)),
{
    let mut f = GenericFields {
        src_ip: None,
        dst_ip: None,
        src_port: None,
        dst_port: None,
        protocol: None,
        action: None,
        severity: None,
        device_id: None,
    };
    let mut i: usize = 0;
    while i < matches.len()
        invariant
            i <= matches@.len(),
            f@ == generic_fields(matches_view(*matches).take(i as int)),
        decreases matches.len() - i,
    {
        apply_generic_match(&mut f, &matches[i]);
        assert(matches_view(*matches).take(i + 1).drop_last() =~= matches_view(*matches).take(
            i as int,
        ));
        i = i + 1;
    }
    assert(matches_view(*matches).take(matches@.len() as int) =~= matches_view(*matches));
    f
}

/// Group 1 of an optional match.
pub open spec fn hint_value(caps: Option<Seq<Option<Seq<char>>>>) -> Option<Seq<char>> {
    match caps {
        Some(g) => if g.len() > 1 && g[1] is Some {
            Some(g[1]->0)
        } else {
            None
        },
        None => None,
    }
}

/// Source and destination addresses: the explicit ones, else the first and second IPv4
/// addresses in the line.
pub open spec fn generic_addresses(f: GenericFieldsView, ips: Seq<Seq<char>>) -> (
    Option<Seq<char>>,
    Option<Seq<char>>,
) {
    if f.src_ip is None || f.dst_ip is None {
        (
            if f.src_ip is None && ips.len() > 0 {
                Some(ips[0])
            } else {
                f.src_ip
            },
            if f.dst_ip is None && ips.len() > 1 {
                Some(ips[1])
            } else {
                f.dst_ip
            },
        )
    } else {
        (f.src_ip, f.dst_ip)
    }
}

/// The protocol: the explicit one, else the protocol hint, normalised.
pub open spec fn generic_protocol(f: GenericFieldsView, hint: Option<Seq<char>>) -> Option<Seq<char>> {
    match f.protocol {
        Some(p) => Some(spec_generic_protocol(p)),
        None => match hint {
            Some(h) => Some(spec_generic_protocol(h)),
            None => None,
        },
    }
}

/// The action: the explicit one, else the action hint.
pub open spec fn generic_action(f: GenericFieldsView, hint: Option<Seq<char>>) -> Option<Seq<char>> {
    match f.action {
        Some(a) => Some(a),
        None => hint,
    }
}

pub open spec fn port_of(v: Option<Seq<char>>) -> Option<u16> {
    match v {
        Some(s) => spec_port(s),
        None => None,
    }
}

pub open spec fn generic_insufficient_message() -> Seq<char> {
    "generic parser: insufficient fields extracted"@
}

/// The event of a line from its fields, the IPv4 addresses in it and its two hints.
pub open spec fn generic_event_view(
    raw: Seq<char>,
    ingest_time: Timestamp,
    source_addr: Seq<char>,
    f: GenericFieldsView,
    ips: Seq<Seq<char>>,
    protocol_hint: Option<Seq<char>>,
    action_hint: Option<Seq<char>>,
) -> EventView {
    let (src, dst) = generic_addresses(f, ips);
    let protocol = generic_protocol(f, protocol_hint);
    let action = generic_action(f, action_hint);
    if src is None && dst is None && protocol is None && action is None {
        failed_view(ingest_time, source_addr, raw, generic_insufficient_message())
    } else {
        classified(
            EventView {
                event_id: spec_event_id(raw, ingest_time, source_addr),
                ingest_time,
                source_addr,
                device_id: f.device_id,
                event_time: None,
                vendor: None,
                product: None,
                src_ip: src,
                src_port: port_of(f.src_port),
                dst_ip: dst,
                dst_port: port_of(f.dst_port),
                protocol,
                action,
                severity: f.severity,
                raw,
                parse_status: ParseStatus::Parsed,
                parse_error: None,
            },
        )
    }
}

/// The event the generic parser gives for a line.
pub open spec fn spec_generic_parse(raw: Seq<char>, ingest_time: Timestamp, source_addr: Seq<char>) -> EventView {
    generic_event_view(
        raw,
        ingest_time,
        source_addr,
        generic_fields(spec_regex_captures_all(GENERIC_KV_PATTERN@, raw)),
        spec_regex_find_all(IPV4_PATTERN@, raw),
        hint_value(spec_regex_captures(PROTOCOL_HINT_PATTERN@, raw)),
        hint_value(spec_regex_captures(ACTION_HINT_PATTERN@, raw)),
    )
}

fn port_from(v: &Option<String>) -> (r: Option<u16>)
    ensures
        r == port_of(ov(*v)),
{
    match v {
        Some(s) => parse_port(s.as_str()),
        None => None,
    }
}

fn hint_from(caps: &Option<Vec<Option<String>>>) -> (r: Option<String>)
    ensures
        ov(r) == hint_value(
            match caps {
                Some(g) => Some(groups_view(*g)),
                None => None,
            },
        ),
{
    match caps {
        Some(g) => if g.len() > 1 {
            clone_opt(&g[1])
        } else {
            None
        },
        None => None,
    }
}

/// Builds the event of a line from its fields, the IPv4 addresses found in it and its
/// protocol and action hints.
pub fn generic_event(
    raw: RawLog,
    f: GenericFields,
    ips: &Vec<String>,
    protocol_hint: Option<String>,
    action_hint: Option<String>,
) -> (e: CanonicalEvent)
    ensures
        e@ == generic_event_view(
            raw.raw@,
            raw.ingest_time,
            raw.source_addr@,
            f@,
            ips@.map_values(|s: String| s@),
            ov(protocol_hint),
            ov(action_hint),
        ),
{
    let ghost fv = f@;
    let ghost ipv = ips@.map_values(|s: String| s@);
    let mut src_ip = clone_opt(&f.src_ip);
    let mut dst_ip = clone_opt(&f.dst_ip);
    if src_ip.is_none() || dst_ip.is_none() {
        if src_ip.is_none() && ips.len() > 0 {
            src_ip = Some(ips[0].clone());
        }
        if dst_ip.is_none() && ips.len() > 1 {
            dst_ip = Some(ips[1].clone());
        }
    }
    assert((ov(src_ip), ov(dst_ip)) == generic_addresses(fv, ipv));
    let protocol = match &f.protocol {
        Some(p) => Some(normalize_protocol(p.as_str())),
        None => match &protocol_hint {
            Some(h) => Some(normalize_protocol(h.as_str())),
            None => None,
        },
    };
    let action = match &f.action {
        Some(a) => Some(a.clone()),
        None => action_hint,
    };
    if src_ip.is_none() && dst_ip.is_none() && protocol.is_none() && action.is_none() {
        return CanonicalEvent::failed(raw, "generic parser: insufficient fields extracted");
    }
    let src_port = port_from(&f.src_port);
    let dst_port = port_from(&f.dst_port);
    let mut event = CanonicalEvent {
        event_id: make_event_id(raw.raw.as_str(), raw.ingest_time, raw.source_addr.as_str()),
        ingest_time: raw.ingest_time,
        source_addr: raw.source_addr,
        device_id: f.device_id,
        event_time: None,
        vendor: None,
        product: None,
        src_ip,
        src_port,
        dst_ip,
        dst_port,
        protocol,
        action,
        severity: f.severity,
        raw: raw.raw,
        parse_status: ParseStatus::Parsed,
        parse_error: None,
    };
    event.classify_firewall_tuple();
    event
}

/// The generic key/value parser.
#[derive(Debug, Clone, Copy, Default)]
pub struct GenericKvParser;

impl GenericKvParser {
    pub const PARSER_ID: &'static str = "parser:generic_kv_v1";

    pub const PARSER_NAME: &'static str = "GenericKv";

    /// Whether the line holds at least one key/value pair.
    pub fn can_parse(&self, raw: &RawLog) -> (r: bool)
        ensures
            r == spec_regex_captures(GENERIC_KV_PATTERN@, raw.raw@) is Some,
    {
        regex_captures(GENERIC_KV_PATTERN, raw.raw.as_str()).is_some()
    }

    /// Extracts the pairs, maps their keys, fills missing addresses, protocol and action
    /// from the rest of the line, and classifies the event.
    pub fn parse(&self, raw: RawLog) -> (e: CanonicalEvent)
        ensures
            e@ == spec_generic_parse(raw.raw@, raw.ingest_time, raw.source_addr@),
    {
        let matches = regex_captures_all(GENERIC_KV_PATTERN, raw.raw.as_str());
        let f = generic_fields_from_matches(&matches);
        let ips = if f.src_ip.is_none() || f.dst_ip.is_none() {
            regex_find_all(IPV4_PATTERN, raw.raw.as_str())
        } else {
            Vec::new()
        };
        let protocol_hint = if f.protocol.is_none() {
            hint_from(&regex_captures(PROTOCOL_HINT_PATTERN, raw.raw.as_str()))
        } else {
            None
        };
        let action_hint = if f.action.is_none() {
            hint_from(&regex_captures(ACTION_HINT_PATTERN, raw.raw.as_str()))
        } else {
            None
        };
        let ghost ips_spec = spec_regex_find_all(IPV4_PATTERN@, raw.raw@);
        let ghost fv = f@;
        proof {
            if fv.src_ip is Some && fv.dst_ip is Some {
                assert(generic_addresses(fv, ips@.map_values(|s: String| s@)) == generic_addresses(
                    fv,
                    ips_spec,
                ));
            }
        }
        let ghost rv = raw.raw@;
        let ghost t = raw.ingest_time;
        let ghost sv = raw.source_addr@;
        let e = generic_event(raw, f, &ips, protocol_hint, action_hint);
        e
    }
}

} // verus!
