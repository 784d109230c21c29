//! The adapter interface and the Sangfor firewall adapter (key=value and Chinese NAT lines).
use vstd::prelude::*;
use crate::event::{
    CanonicalEvent, EventView, ParseStatus, RawLog, Timestamp, classified, failed_view, ov,
    spec_event_id, make_event_id,
};
use crate::diagnostics::{DetectOutcome, DetectScore};
use crate::regex_support::{
    groups_view, matches_view, regex_captures, regex_captures_all, spec_regex_captures,
    spec_regex_captures_all,
};
use crate::calendar::{parse_utc, spec_parse_utc, spec_utc_year, utc_year};
use crate::text::{
    i64_to_string, owned, parse_unsigned, parse_unsigned_u64, seq_contains, signed_decimal_chars,
    spec_to_lowercase, spec_to_uppercase, str_contains, str_eq, to_lowercase, to_uppercase, trim,
    trim_seq,
};

verus! {

/// Whether a line mentions Sangfor or carries the Chinese log-type / NAT-type labels,
/// compared in lower case.
pub open spec fn spec_mentions_sangfor(raw: Seq<char>) -> bool {
    let lower = spec_to_lowercase(raw);
    seq_contains(lower, "sangfor"@) || seq_contains(lower, "日志类型"@) || seq_contains(
        lower,
        "nat类型"@,
    )
}

/// The compatibility check shared by adapters that do not decide for themselves.
pub fn mentions_sangfor(raw: &RawLog) -> (r: bool)
    ensures
        r == spec_mentions_sangfor(raw.raw@),
{
    let raw_lower = to_lowercase(raw.raw.as_str());
    str_contains(raw_lower.as_str(), "sangfor") || str_contains(raw_lower.as_str(), "日志类型")
        || str_contains(raw_lower.as_str(), "nat类型")
}

/// A parser of raw lines into canonical events. Every method is tied to a spec function
/// of the implementor; `detect` is provided and follows `can_parse`.
pub trait LogAdapter: Send + Sync {
    /// The adapter's display name. An adapter that does not describe itself leaves its
    /// spec functions unspecified.
    closed spec fn spec_name(&self) -> Seq<char> {
        arbitrary()
    }

    /// The parser id routes refer to.
    closed spec fn spec_parser_id(&self) -> Seq<char> {
        arbitrary()
    }

    /// Whether this adapter claims a line.
    closed spec fn spec_can_parse(&self, raw: Seq<char>) -> bool {
        arbitrary()
    }

    /// The event this adapter makes of a line.
    closed spec fn spec_parse(&self, raw: Seq<char>, ingest_time: Timestamp, source_addr: Seq<char>) -> EventView {
        arbitrary()
    }

    fn name(&self) -> (r: &'static str)
        ensures
            r@ == self.spec_name(),
    ;

    fn parser_id(&self) -> (r: &'static str)
        ensures
            r@ == self.spec_parser_id(),
    ;

    fn can_parse(&self, raw: &RawLog) -> (r: bool)
        ensures
            r == self.spec_can_parse(raw.raw@),
    ;

    fn detect(&self, raw: &RawLog) -> (r: DetectOutcome)
        ensures
            (r.score == DetectScore::CompatibilityMatch) == self.spec_can_parse(raw.raw@),
            r.reason@ == (if self.spec_can_parse(raw.raw@) {
                "compatibility can_parse matched"@
            } else {
                "compatibility can_parse did not match"@
            }),
    {
        if self.can_parse(raw) {
            DetectOutcome::matched("compatibility can_parse matched")
        } else {
            DetectOutcome::no_match("compatibility can_parse did not match")
        }
    }

    fn parse(&self, raw: RawLog) -> (e: CanonicalEvent)
        ensures
            e@ == self.spec_parse(raw.raw@, raw.ingest_time, raw.source_addr@),
    ;
}

/// The parser id of adapters that do not name their own.
pub const LEGACY_ADAPTER_PARSER_ID: &'static str = "parser:legacy_adapter";

/// Keys of Sangfor key=value pairs, in English and in Chinese; the value runs to the next
/// blank or comma.
pub const SANGFOR_KV_PATTERN: &'static str = r"(?:\s|^|,)(src|dst|sport|dport|proto|action|severity|源IP|目的IP|源端口|目的端口|协议|NAT类型)(?:=|:)\s*([^\s,]+)";

/// A syslog time stamp (`May 15 10:00:01`) at the start of a line, after an optional priority.
pub const SYSLOG_TIME_PATTERN: &'static str = r"^(?:<\d+>)?(\w{3}\s+\d{1,2}\s+\d{2}:\d{2}:\d{2})";

/// The layout of a syslog stamp once the year is put in front of it.
pub const SYSLOG_TIME_FORMAT: &'static str = "%Y %b %d %H:%M:%S";

/// The canonical field a Sangfor key stands for.
#[derive(Debug, Clone, Copy, PartialEq, Eq, Structural)]
pub enum SangforKey {
    Src,
    Dst,
    Sport,
    Dport,
    Proto,
    Action,
    Severity,
}

pub open spec fn spec_canonical_key(key: Seq<char>) -> Option<SangforKey> {
    if key == "src"@ || key == "源IP"@ {
        Some(SangforKey::Src)
    } else if key == "dst"@ || key == "目的IP"@ {
        Some(SangforKey::Dst)
    } else if key == "sport"@ || key == "源端口"@ {
        Some(SangforKey::Sport)
    } else if key == "dport"@ || key == "目的端口"@ {
        Some(SangforKey::Dport)
    } else if key == "proto"@ || key == "协议"@ {
        Some(SangforKey::Proto)
    } else if key == "action"@ || key == "NAT类型"@ {
        Some(SangforKey::Action)
    } else if key == "severity"@ {
        Some(SangforKey::Severity)
    } else if seq_contains(key, "IP"@) && seq_contains(key, "源"@) {
        Some(SangforKey::Src)
    } else if seq_contains(key, "IP"@) && seq_contains(key, "目的"@) {
        Some(SangforKey::Dst)
    } else if seq_contains(key, "端口"@) && seq_contains(key, "源"@) {
        Some(SangforKey::Sport)
    } else if seq_contains(key, "端口"@) && seq_contains(key, "目的"@) {
        Some(SangforKey::Dport)
    } else if seq_contains(key, "协议"@) {
        Some(SangforKey::Proto)
    } else if seq_contains(key, "NAT"@) && seq_contains(key, "类型"@) {
        Some(SangforKey::Action)
    } else {
        None
    }
}

/// The canonical field of a key: the exact English and Chinese names first, then Chinese
/// labels recognised by their parts.
pub fn canonical_key(key: &str) -> (r: Option<SangforKey>)
    ensures
        r == spec_canonical_key(key@),
{
    if str_eq(key, "src") || str_eq(key, "源IP") {
        Some(SangforKey::Src)
    } else if str_eq(key, "dst") || str_eq(key, "目的IP") {
        Some(SangforKey::Dst)
    } else if str_eq(key, "sport") || str_eq(key, "源端口") {
        Some(SangforKey::Sport)
    } else if str_eq(key, "dport") || str_eq(key, "目的端口") {
        Some(SangforKey::Dport)
    } else if str_eq(key, "proto") || str_eq(key, "协议") {
        Some(SangforKey::Proto)
    } else if str_eq(key, "action") || str_eq(key, "NAT类型") {
        Some(SangforKey::Action)
    } else if str_eq(key, "severity") {
        Some(SangforKey::Severity)
    } else if str_contains(key, "IP") && str_contains(key, "源") {
        Some(SangforKey::Src)
    } else if str_contains(key, "IP") && str_contains(key, "目的") {
        Some(SangforKey::Dst)
    } else if str_contains(key, "端口") && str_contains(key, "源") {
        Some(SangforKey::Sport)
    } else if str_contains(key, "端口") && str_contains(key, "目的") {
        Some(SangforKey::Dport)
    } else if str_contains(key, "协议") {
        Some(SangforKey::Proto)
    } else if str_contains(key, "NAT") && str_contains(key, "类型") {
        Some(SangforKey::Action)
    } else {
        None
    }
}

/// Protocol numbers 1, 6 and 17 by name; any other value in upper case.
pub open spec fn spec_normalize_protocol(value: Seq<char>) -> Seq<char> {
    if value == "1"@ {
        "ICMP"@
    } else if value == "6"@ {
        "TCP"@
    } else if value == "17"@ {
        "UDP"@
    } else {
        spec_to_uppercase(value)
    }
}

pub fn normalize_protocol(value: String) -> (r: String)
    ensures
        r@ == spec_normalize_protocol(value@),
{
    if str_eq(value.as_str(), "1") {
        owned("ICMP")
    } else if str_eq(value.as_str(), "6") {
        owned("TCP")
    } else if str_eq(value.as_str(), "17") {
        owned("UDP")
    } else {
        to_uppercase(value.as_str())
    }
}

/// A port number as `str::parse::<u16>` reads it.
pub open spec fn spec_port(s: Seq<char>) -> Option<u16> {
    match parse_unsigned(s, 65535) {
        Some(n) => Some(n as u16),
        None => None,
    }
}

pub fn parse_port(s: &str) -> (r: Option<u16>)
    ensures
        r == spec_port(s@),
{
    match parse_unsigned_u64(s, 65535) {
        Some(n) => Some(n as u16),
        None => None,
    }
}

/// The fields a Sangfor line yields.
pub struct SangforFields {
    pub src: Option<String>,
    pub dst: Option<String>,
    pub sport: Option<u16>,
    pub dport: Option<u16>,
    pub proto: Option<String>,
    pub action: Option<String>,
    pub severity: Option<String>,
}

pub struct SangforFieldsView {
    pub src: Option<Seq<char>>,
    pub dst: Option<Seq<char>>,
    pub sport: Option<u16>,
    pub dport: Option<u16>,
    pub proto: Option<Seq<char>>,
    pub action: Option<Seq<char>>,
    pub severity: Option<Seq<char>>,
}

impl View for SangforFields {
    type V = SangforFieldsView;

    open spec fn view(&self) -> SangforFieldsView {
        SangforFieldsView {
            src: ov(self.src),
            dst: ov(self.dst),
            sport: self.sport,
            dport: self.dport,
            proto: ov(self.proto),
            action: ov(self.action),
            severity: ov(self.severity),
        }
    }
}

pub open spec fn no_sangfor_fields() -> SangforFieldsView {
    SangforFieldsView {
        src: None,
        dst: None,
        sport: None,
        dport: None,
        proto: None,
        action: None,
        severity: None,
    }
}

/// Text of group `i` of a match, empty when the group did not take part.
pub open spec fn group_text(m: Seq<Option<Seq<char>>>, i: int) -> Seq<char> {
    if 0 <= i < m.len() && m[i] is Some {
        m[i]->0
    } else {
        Seq::empty()
    }
}

/// One key=value match applied to the fields found so far: the first value of a field is
/// kept; a port that does not parse leaves its field open for a later match.
pub open spec fn sangfor_step(f: SangforFieldsView, m: Seq<Option<Seq<char>>>) -> SangforFieldsView {
    let val = trim_seq(group_text(m, 2));
    match spec_canonical_key(group_text(m, 1)) {
        Some(SangforKey::Src) => if f.src is None {
            SangforFieldsView { src: Some(val), ..f }
        } else {
            f
        },
        Some(SangforKey::Dst) => if f.dst is None {
            SangforFieldsView { dst: Some(val), ..f }
        } else {
            f
        },
        Some(SangforKey::Sport) => if f.sport is None {
            SangforFieldsView { sport: spec_port(val), ..f }
        } else {
            f
        },
        Some(SangforKey::Dport) => if f.dport is None {
            SangforFieldsView { dport: spec_port(val), ..f }
        } else {
            f
        },
        Some(SangforKey::Proto) => if f.proto is None {
            SangforFieldsView { proto: Some(spec_normalize_protocol(val)), ..f }
        } else {
            f
        },
        Some(SangforKey::Action) => if f.action is None {
            SangforFieldsView { action: Some(val), ..f }
        } else {
            f
        },
        Some(SangforKey::Severity) => if f.severity is None {
            SangforFieldsView { severity: Some(val), ..f }
        } else {
            f
        },
        None => f,
    }
}

/// The fields of a sequence of matches, taken in order.
pub open spec fn sangfor_fields(ms: Seq<Seq<Option<Seq<char>>>>) -> SangforFieldsView
    decreases ms.len(),
{
    if ms.len() == 0 {
        no_sangfor_fields()
    } else {
        sangfor_step(sangfor_fields(ms.drop_last()), ms.last())
    }
}

fn group_str(m: &Vec<Option<String>>, i: usize) -> (r: String)
    ensures
        r@ == group_text(groups_view(*m), i as int),
{
    if i < m.len() {
        match &m[i] {
            Some(s) => s.clone(),
            None => String::new(),
        }
    } else {
        String::new()
    }
}

fn apply_sangfor_match(f: &mut SangforFields, m: &Vec<Option<String>>)
    ensures
        final(f)@ == sangfor_step(old(f)@, groups_view(*m)),
{
    let key = group_str(m, 1);
    let raw_val = group_str(m, 2);
    let val = trim(raw_val.as_str());
    match canonical_key(key.as_str()) {
        Some(SangforKey::Src) => {
            if f.src.is_none() {
                f.src = Some(val);
            }
        },
        Some(SangforKey::Dst) => {
            if f.dst.is_none() {
                f.dst = Some(val);
            }
        },
        Some(SangforKey::Sport) => {
            if f.sport.is_none() {
                f.sport = parse_port(val.as_str());
            }
        },
        Some(SangforKey::Dport) => {
            if f.dport.is_none() {
                f.dport = parse_port(val.as_str());
            }
        },
        Some(SangforKey::Proto) => {
            if f.proto.is_none() {
                f.proto = Some(normalize_protocol(val));
            }
        },
        Some(SangforKey::Action) => {
            if f.action.is_none() {
                f.action = Some(val);
            }
        },
        Some(SangforKey::Severity) => {
            if f.severity.is_none() {
                f.severity = Some(val);
            }
        },
        None => {},
    }
}

/// The fields of the key=value matches of a line, each field from its first match.
pub fn sangfor_fields_from_matches(matches: &Vec<Vec<Option<String>>>) -> (r: SangforFields)
    ensures
        r@ == sangfor_fields(matches_view(*matches)),
{
    let mut f = SangforFields {
        src: None,
        dst: None,
        sport: None,
        dport: None,
        proto: None,
        action: None,
        severity: None,
    };
    let mut i: usize = 0;
    while i < matches.len()
        invariant
            i <= matches@.len(),
            f@ == sangfor_fields(matches_view(*matches).take(i as int)),
        decreases matches.len() - i,
    {
        apply_sangfor_match(&mut f, &matches[i]);
        assert(matches_view(*matches).take(i + 1).drop_last() =~= matches_view(*matches).take(
            i as int,
        ));
        i = i + 1;
    }
    assert(matches_view(*matches).take(matches@.len() as int) =~= matches_view(*matches));
    f
}

/// The syslog stamp at the start of a line, when there is one.
pub open spec fn spec_syslog_stamp(groups: Option<Seq<Option<Seq<char>>>>) -> Option<Seq<char>> {
    match groups {
        Some(g) => if g.len() > 1 && g[1] is Some {
            Some(g[1]->0)
        } else {
            None
        },
        None => None,
    }
}

/// The event time of a line: its syslog stamp read in the year the line arrived (UTC).
pub open spec fn spec_syslog_time(raw: Seq<char>, ingest_time: Timestamp) -> Option<Timestamp> {
    match spec_syslog_stamp(spec_regex_captures(SYSLOG_TIME_PATTERN@, raw)) {
        Some(stamp) => match spec_utc_year(ingest_time.secs, ingest_time.nanos) {
            Some(year) => match spec_parse_utc(
                signed_decimal_chars(year as int) + seq![' '] + stamp,
                SYSLOG_TIME_FORMAT@,
            ) {
                Some(p) => Some(Timestamp { secs: p.0, nanos: p.1 }),
                None => None,
            },
            None => None,
        },
        None => None,
    }
}

/// The stamp `<year> <stamp>` that is handed to the date parser.
pub fn stamp_with_year(year: i32, stamp: &str) -> (r: String)
    ensures
        r@ == signed_decimal_chars(year as int) + seq![' '] + stamp@,
{
    let y = i64_to_string(year as i64);
    let spaced = crate::text::concat(y.as_str(), " ");
    proof {
        reveal_strlit(" ");
        assert(" "@ =~= seq![' ']);
    }
    crate::text::concat(spaced.as_str(), stamp)
}

/// The syslog stamp of a line read in the year of its arrival.
pub fn parse_syslog_timestamp(raw: &str, ingest_time: Timestamp) -> (r: Option<Timestamp>)
    ensures
        r == spec_syslog_time(raw@, ingest_time),
{
    let caps = regex_captures(SYSLOG_TIME_PATTERN, raw);
    let stamp = match &caps {
        Some(g) => if g.len() > 1 {
            match &g[1] {
                Some(s) => s.clone(),
                None => return None,
            }
        } else {
            return None;
        },
        None => return None,
    };
    let year = match utc_year(ingest_time) {
        Some(y) => y,
        None => return None,
    };
    let with_year = stamp_with_year(year, stamp.as_str());
    parse_utc(with_year.as_str(), SYSLOG_TIME_FORMAT)
}

pub open spec fn sangfor_missing_message() -> Seq<char> {
    "missing required fields: src, dst, action"@
}

/// Whether the fields are too few to make an event.
pub open spec fn sangfor_insufficient(f: SangforFieldsView) -> bool {
    f.src is None && f.dst is None && f.proto is None && f.action is None
}

/// The event a Sangfor line gives, from its fields and its event time.
pub open spec fn sangfor_event_view(
    raw: Seq<char>,
    ingest_time: Timestamp,
    source_addr: Seq<char>,
    f: SangforFieldsView,
    event_time: Option<Timestamp>,
) -> EventView {
    if sangfor_insufficient(f) {
        failed_view(ingest_time, source_addr, raw, sangfor_missing_message())
    } else {
        classified(
            EventView {
                event_id: spec_event_id(raw, ingest_time, source_addr),
                ingest_time,
                source_addr,
                device_id: None,
                event_time,
                vendor: Some("Sangfor"@),
                product: Some("Firewall"@),
                src_ip: f.src,
                src_port: f.sport,
                dst_ip: f.dst,
                dst_port: f.dport,
                protocol: f.proto,
                action: f.action,
                severity: f.severity,
                raw,
                parse_status: ParseStatus::Parsed,
                parse_error: None,
            },
        )
    }
}

/// The event a Sangfor line gives from the matches of its key=value pairs.
pub open spec fn spec_sangfor_parse(raw: Seq<char>, ingest_time: Timestamp, source_addr: Seq<char>) -> EventView {
    sangfor_event_view(
        raw,
        ingest_time,
        source_addr,
        sangfor_fields(spec_regex_captures_all(SANGFOR_KV_PATTERN@, raw)),
        spec_syslog_time(raw, ingest_time),
    )
}

/// Builds the event of a line from the fields found in it; the event time is read only when
/// the fields suffice.
pub fn sangfor_event(raw: RawLog, f: SangforFields) -> (e: CanonicalEvent)
    ensures
        e@ == sangfor_event_view(
            raw.raw@,
            raw.ingest_time,
            raw.source_addr@,
            f@,
            spec_syslog_time(raw.raw@, raw.ingest_time),
        ),
{
    if f.src.is_none() && f.dst.is_none() && f.proto.is_none() && f.action.is_none() {
        return CanonicalEvent::failed(raw, "missing required fields: src, dst, action");
    }
    let event_time = parse_syslog_timestamp(raw.raw.as_str(), raw.ingest_time);
    let mut event = CanonicalEvent {
        event_id: make_event_id(raw.raw.as_str(), raw.ingest_time, raw.source_addr.as_str()),
        ingest_time: raw.ingest_time,
        source_addr: raw.source_addr,
        device_id: None,
        event_time,
        vendor: Some(owned("Sangfor")),
        product: Some(owned("Firewall")),
        src_ip: f.src,
        src_port: f.sport,
        dst_ip: f.dst,
        dst_port: f.dport,
        protocol: f.proto,
        action: f.action,
        severity: f.severity,
        raw: raw.raw,
        parse_status: ParseStatus::Parsed,
        parse_error: None,
    };
    event.classify_firewall_tuple();
    event
}

/// The Sangfor firewall adapter.
#[derive(Debug, Clone, Copy, Default)]
pub struct SangforAdapter;

impl LogAdapter for SangforAdapter {
    open spec fn spec_name(&self) -> Seq<char> {
        "SangforAdapter"@
    }

    open spec fn spec_parser_id(&self) -> Seq<char> {
        "parser:sangfor_nat_v1"@
    }

    open spec fn spec_can_parse(&self, raw: Seq<char>) -> bool {
        spec_mentions_sangfor(raw)
    }

    open spec fn spec_parse(&self, raw: Seq<char>, ingest_time: Timestamp, source_addr: Seq<char>) -> EventView {
        spec_sangfor_parse(raw, ingest_time, source_addr)
    }

    fn name(&self) -> (r: &'static str) {
        "SangforAdapter"
    }

    fn parser_id(&self) -> (r: &'static str) {
        "parser:sangfor_nat_v1"
    }

    fn can_parse(&self, raw: &RawLog) -> (r: bool) {
        mentions_sangfor(raw)
    }

    fn parse(&self, raw: RawLog) -> (e: CanonicalEvent) {
        let matches = regex_captures_all(SANGFOR_KV_PATTERN, raw.raw.as_str());
        let f = sangfor_fields_from_matches(&matches);
        sangfor_event(raw, f)
    }
}

} // verus!
