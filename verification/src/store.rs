//! The event store's query side: the filters of an event query turned into SQL with its
//! parameters, the normalisation of days and protocols, and the rows the store reports.
use vstd::prelude::*;
use crate::event::ov;
use crate::text::{
    ascii_lower_seq, ascii_upper_seq, concat, owned, str_eq, to_ascii_lowercase,
    to_ascii_uppercase, chars_of, string_from_chars, u64_to_string, decimal_chars,
};
use crate::ip::is_dec_digit;

verus! {

/// Filters of an event query; absent or empty filters do not restrict.
#[derive(Debug, Clone, PartialEq, Eq)]
pub struct EventQuery {
    pub day: Option<String>,
    pub date_from: Option<String>,
    pub date_to: Option<String>,
    pub device: Option<String>,
    pub device_id: Option<String>,
    pub src_ip: Option<String>,
    pub dst_ip: Option<String>,
    pub protocol: Option<String>,
    pub action: Option<String>,
    pub keyword: Option<String>,
    pub include_failed: bool,
}

impl Default for EventQuery {
    fn default() -> (r: Self)
        ensures
            r.day is None,
            r.date_from is None,
            r.date_to is None,
            r.device is None,
            r.device_id is None,
            r.src_ip is None,
            r.dst_ip is None,
            r.protocol is None,
            r.action is None,
            r.keyword is None,
            !r.include_failed,
    {
        EventQuery {
            day: None,
            date_from: None,
            date_to: None,
            device: None,
            device_id: None,
            src_ip: None,
            dst_ip: None,
            protocol: None,
            action: None,
            keyword: None,
            include_failed: false,
        }
    }
}

/// A cached answer of the IP region lookup.
#[derive(Debug, Clone, PartialEq, Eq)]
pub struct IpRegionCacheEntry {
    pub ip: String,
    pub region: Option<String>,
    pub country: Option<String>,
    pub province: Option<String>,
    pub city: Option<String>,
    pub isp: Option<String>,
    pub source: String,
    pub updated_at: String,
}

/// A window of per-minute metrics.
#[derive(Debug, Clone, Copy, PartialEq, Eq)]
pub struct MinuteMetricQuery {
    pub hours: u32,
    pub limit: usize,
}

impl Default for MinuteMetricQuery {
    /// The last day, one point per minute.
    fn default() -> (r: Self)
        ensures
            r.hours == 24,
            r.limit == 1440,
    {
        MinuteMetricQuery { hours: 24, limit: 1440 }
    }
}

/// A window of per-source metrics.
#[derive(Debug, Clone, Copy, PartialEq, Eq)]
pub struct SourceMetricQuery {
    pub hours: u32,
    pub limit: usize,
}

/// The longest metric window, in hours (a leap year).
pub const MAX_METRIC_HOURS: u32 = 8784;

/// The most metric points a query returns (a leap year of minutes).
pub const MAX_METRIC_POINTS: usize = 527040;

/// The window and row limit a metric query runs with: both clamped to at least one and at
/// most a leap year.
pub fn metric_window(hours: u32, limit: usize) -> (r: (u32, usize))
    ensures
        r.0 == (if hours < 1 {
            1
        } else if hours > MAX_METRIC_HOURS {
            MAX_METRIC_HOURS
        } else {
            hours
        }),
        r.1 == (if limit < 1 {
            1
        } else if limit > MAX_METRIC_POINTS {
            MAX_METRIC_POINTS
        } else {
            limit
        }),
{
    let h = if hours < 1 {
        1
    } else if hours > MAX_METRIC_HOURS {
        MAX_METRIC_HOURS
    } else {
        hours
    };
    let l = if limit < 1 {
        1
    } else if limit > MAX_METRIC_POINTS {
        MAX_METRIC_POINTS
    } else {
        limit
    };
    (h, l)
}

/// Per-minute counts by status.
#[derive(Debug, Clone, PartialEq, Eq)]
pub struct MinuteMetricPoint {
    pub bucket_minute: String,
    pub total: u64,
    pub parsed: u64,
    pub partial: u64,
    pub failed: u64,
    pub raw_bytes: u64,
}

/// Per-hour counts by status.
#[derive(Debug, Clone, PartialEq, Eq)]
pub struct HourMetricPoint {
    pub bucket_hour: String,
    pub total: u64,
    pub parsed: u64,
    pub partial: u64,
    pub failed: u64,
    pub raw_bytes: u64,
}

/// How often a parse error occurred.
#[derive(Debug, Clone, PartialEq, Eq)]
pub struct ParseErrorSummary {
    pub reason: String,
    pub count: u64,
}

/// Counts of one source over a window.
#[derive(Debug, Clone, PartialEq, Eq)]
pub struct SourceMetricBucket {
    pub source_addr: String,
    pub total: u64,
    pub parsed: u64,
    pub partial: u64,
    pub failed: u64,
    pub raw_bytes: u64,
    pub last_seen: String,
}

/// Counts of stored events by status.
#[derive(Debug, Clone, Copy, PartialEq, Eq)]
pub struct EventStats {
    pub total: u64,
    pub parsed: u64,
    pub partial: u64,
    pub failed: u64,
}

/// A count column read as unsigned: missing and negative values count as zero.
pub open spec fn spec_count_value(v: Option<i64>) -> u64 {
    match v {
        Some(x) => if x < 0 {
            0
        } else {
            x as u64
        },
        None => 0,
    }
}

pub fn count_value(v: Option<i64>) -> (r: u64)
    ensures
        r == spec_count_value(v),
        r == (match v {
            Some(x) => if x < 0 {
                0
            } else {
                x as u64
            },
            None => 0,
        }),
{
    match v {
        Some(x) => if x < 0 {
            0
        } else {
            x as u64
        },
        None => 0,
    }
}

impl EventStats {
    /// Stats from the four count columns of the stats query.
    pub fn from_counts(total: i64, parsed: Option<i64>, partial: Option<i64>, failed: Option<i64>) -> (r: Self)
        ensures
            r.total == spec_count_value(Some(total)),
            r.parsed == spec_count_value(parsed),
            r.partial == spec_count_value(partial),
            r.failed == spec_count_value(failed),
    {
        EventStats {
            total: count_value(Some(total)),
            parsed: count_value(parsed),
            partial: count_value(partial),
            failed: count_value(failed),
        }
    }
}

/// An indexed frozen archive.
#[derive(Debug, Clone, PartialEq, Eq)]
pub struct FrozenArchiveIndex {
    pub archive_path: String,
    pub day: String,
    pub source_addr: String,
    pub bytes: u64,
    pub line_count: u64,
    pub first_seen: Option<String>,
    pub last_seen: Option<String>,
    pub indexed_at: String,
}

/// A parse failure pattern seen by the parser.
#[derive(Debug, Clone, PartialEq)]
pub struct ParserDiagnosticRow {
    pub fingerprint: String,
    pub scope_key: Option<String>,
    pub reason: String,
    pub sample_raw: Option<String>,
    pub sample_raw_truncated: bool,
    pub count: i64,
    pub suggested_rule_id: Option<String>,
    pub last_seen: String,
}

/// The stored control state of a source scope.
#[derive(Debug, Clone, PartialEq)]
pub struct ParserScopeRow {
    pub scope_key: String,
    pub source_high_entropy: bool,
    pub adaptive_learning_enabled: bool,
    pub unknown_source_bucket: bool,
    pub metrics_gap: bool,
    pub metrics_gap_since: Option<String>,
    pub malformed_flood_until: Option<String>,
    pub shadow_rule_cooldown_until: Option<String>,
    pub adaptive_quarantine_until: Option<String>,
    pub quarantine_backoff_seconds: i64,
    pub quarantine_attempts: i64,
    pub last_state_change: String,
    pub last_seen: String,
}

/// A published snapshot of the adaptive parser state.
#[derive(Debug, Clone, PartialEq)]
pub struct ParserCheckpointVersionRow {
    pub snapshot_version: i64,
    pub created_at: String,
    pub published_at: Option<String>,
    pub status: String,
    pub profiles_count: i64,
    pub rules_count: i64,
    pub diagnostics_count: i64,
    pub scope_state_count: i64,
    pub aliases_count: i64,
}

/// A diagnostic row of a checkpoint.
#[derive(Debug, Clone, PartialEq)]
pub struct ParserDiagnosticCheckpointRow {
    pub fingerprint: String,
    pub scope_key: Option<String>,
    pub reason: String,
    pub sample_raw: Option<String>,
    pub sample_raw_truncated: bool,
    pub count: i64,
    pub suggested_rule_id: Option<String>,
    pub last_seen: String,
}

/// A scope row of a checkpoint.
#[derive(Debug, Clone, PartialEq)]
pub struct ParserScopeCheckpointRow {
    pub scope_key: String,
    pub source_high_entropy: bool,
    pub adaptive_learning_enabled: bool,
    pub unknown_source_bucket: bool,
    pub metrics_gap: bool,
    pub metrics_gap_since: Option<String>,
    pub malformed_flood_until: Option<String>,
    pub shadow_rule_cooldown_until: Option<String>,
    pub adaptive_quarantine_until: Option<String>,
    pub quarantine_backoff_seconds: i64,
    pub quarantine_attempts: i64,
    pub last_state_change: String,
    pub last_seen: String,
}

/// A device and the source address its lines arrive from.
#[derive(Debug, Clone, PartialEq, Eq)]
pub struct DeviceBinding {
    pub id: String,
    pub protocol: String,
    pub host: String,
    pub port: u16,
}

/// The source address a device binding stands for: `protocol://host:port`, the protocol
/// in ASCII lower case.
pub open spec fn spec_binding_source(b: DeviceBinding) -> Seq<char> {
    ascii_lower_seq(b.protocol@) + "://"@ + b.host@ + ":"@ + decimal_chars(b.port as nat)
}

pub fn binding_source_addr(binding: &DeviceBinding) -> (r: String)
    ensures
        r@ == spec_binding_source(*binding),
{
    let proto = to_ascii_lowercase(binding.protocol.as_str());
    let a = concat(proto.as_str(), "://");
    let b = concat(a.as_str(), binding.host.as_str());
    let c = concat(b.as_str(), ":");
    let port = u64_to_string(binding.port as u64);
    concat(c.as_str(), port.as_str())
}

/// The ASCII digits of a text, in order.
pub open spec fn ascii_digits(s: Seq<char>) -> Seq<char> {
    s.filter(|c: char| is_dec_digit(c))
}

proof fn lemma_digits_push(s: Seq<char>, c: char)
    ensures
        ascii_digits(s.push(c)) == if is_dec_digit(c) {
            ascii_digits(s).push(c)
        } else {
            ascii_digits(s)
        },
{
    reveal_with_fuel(Seq::filter, 1);
    assert(s.push(c).drop_last() =~= s);
}

/// The ASCII digits of a text.
pub fn digits_of(s: &str) -> (r: Vec<char>)
    ensures
        r@ == ascii_digits(s@),
{
    let v = chars_of(s);
    let mut out: Vec<char> = Vec::new();
    let mut i: usize = 0;
    proof {
        reveal_with_fuel(Seq::filter, 1);
        assert(v@.take(0) =~= Seq::<char>::empty());
    }
    while i < v.len()
        invariant
            i <= v@.len(),
            v@ == s@,
            out@ == ascii_digits(v@.take(i as int)),
        decreases v.len() - i,
    {
        proof {
            assert(v@.take(i + 1) =~= v@.take(i as int).push(v@[i as int]));
            lemma_digits_push(v@.take(i as int), v@[i as int]);
        }
        let c = v[i];
        if '0' <= c && c <= '9' {
            out.push(c);
        }
        i = i + 1;
    }
    proof {
        assert(v@.take(v@.len() as int) =~= v@);
    }
    out
}

/// A day written with any separators: its eight digits as `YYYY-MM-DD`.
pub open spec fn spec_normalize_day(day: Seq<char>) -> Option<Seq<char>> {
    let d = ascii_digits(day);
    if d.len() == 8 {
        Some(d.subrange(0, 4) + seq!['-'] + d.subrange(4, 6) + seq!['-'] + d.subrange(6, 8))
    } else {
        None
    }
}

pub fn normalize_day(day: &str) -> (r: Option<String>)
    ensures
        ov(r) == spec_normalize_day(day@),
{
    let d = digits_of(day);
    if d.len() == 8 {
        let mut out: Vec<char> = Vec::new();
        out.push(d[0]);
        out.push(d[1]);
        out.push(d[2]);
        out.push(d[3]);
        out.push('-');
        out.push(d[4]);
        out.push(d[5]);
        out.push('-');
        out.push(d[6]);
        out.push(d[7]);
        proof {
            assert(out@ =~= d@.subrange(0, 4) + seq!['-'] + d@.subrange(4, 6) + seq!['-']
                + d@.subrange(6, 8));
        }
        Some(string_from_chars(out.as_slice()))
    } else {
        None
    }
}

/// A protocol filter in upper case, numbers 17 and 6 by name.
pub open spec fn spec_normalize_query_protocol(value: Seq<char>) -> Seq<char> {
    let upper = ascii_upper_seq(value);
    if upper == "17"@ {
        "UDP"@
    } else if upper == "6"@ {
        "TCP"@
    } else {
        upper
    }
}

pub fn normalize_protocol(value: &str) -> (r: String)
    ensures
        r@ == spec_normalize_query_protocol(value@),
{
    let upper = to_ascii_uppercase(value);
    if str_eq(upper.as_str(), "17") {
        owned("UDP")
    } else if str_eq(upper.as_str(), "6") {
        owned("TCP")
    } else {
        upper
    }
}

/// A filter that is present and not empty.
pub open spec fn active_filter(o: Option<Seq<char>>) -> Option<Seq<char>> {
    match o {
        Some(v) => if v.len() > 0 {
            Some(v)
        } else {
            None
        },
        None => None,
    }
}

/// The texts of a list of strings.
pub open spec fn sv(v: Seq<String>) -> Seq<Seq<char>> {
    v.map_values(|s: String| s@)
}

pub type Filters = (Seq<Seq<char>>, Seq<Seq<char>>);

/// A day filter normalised, when present and well formed.
pub open spec fn day_filter(o: Option<String>) -> Option<Seq<char>> {
    match ov(o) {
        Some(d) => spec_normalize_day(d),
        None => None,
    }
}

pub open spec fn step_device(f: Filters, q: EventQuery) -> Filters {
    match active_filter(ov(q.device)) {
        Some(v) => (f.0.push("source_addr LIKE ?"@), f.1.push("%"@ + v + "%"@)),
        None => f,
    }
}

pub open spec fn step_equal(f: Filters, o: Option<String>, clause: Seq<char>) -> Filters {
    match active_filter(ov(o)) {
        Some(v) => (f.0.push(clause), f.1.push(v)),
        None => f,
    }
}

pub open spec fn step_day(f: Filters, q: EventQuery, include_raw: bool) -> Filters {
    match day_filter(q.day) {
        Some(v) => if include_raw {
            (
                f.0.push("(ingest_time LIKE ? OR event_time LIKE ? OR raw LIKE ?)"@),
                f.1.push(v + "%"@).push(v + "%"@).push("%"@ + v + "%"@),
            )
        } else {
            (f.0.push("(ingest_time LIKE ? OR event_time LIKE ?)"@), f.1.push(v + "%"@).push(v + "%"@))
        },
        None => f,
    }
}

pub open spec fn step_range(f: Filters, o: Option<String>, clause: Seq<char>) -> Filters {
    match day_filter(o) {
        Some(v) => (f.0.push(clause), f.1.push(v)),
        None => f,
    }
}

pub open spec fn step_protocol(f: Filters, q: EventQuery) -> Filters {
    match active_filter(ov(q.protocol)) {
        Some(v) => (f.0.push("upper(protocol) = ?"@), f.1.push(spec_normalize_query_protocol(v))),
        None => f,
    }
}

pub open spec fn step_action(f: Filters, q: EventQuery) -> Filters {
    match active_filter(ov(q.action)) {
        Some(v) => (f.0.push("lower(action) = ?"@), f.1.push(ascii_lower_seq(v))),
        None => f,
    }
}

pub open spec fn step_keyword(f: Filters, q: EventQuery, include_raw: bool) -> Filters {
    match active_filter(ov(q.keyword)) {
        Some(v) => if include_raw {
            (f.0.push("raw LIKE ?"@), f.1.push("%"@ + v + "%"@))
        } else {
            (f.0.push("FALSE"@), f.1)
        },
        None => f,
    }
}

pub open spec fn step_failed(f: Filters, q: EventQuery) -> Filters {
    if !q.include_failed {
        (f.0.push("parse_status <> 'failed'"@), f.1)
    } else {
        f
    }
}

/// The WHERE conditions and their parameters for an event query, in order.
pub open spec fn spec_query_filters(q: EventQuery, include_raw: bool) -> Filters {
    let f0 = (Seq::<Seq<char>>::empty(), Seq::<Seq<char>>::empty());
    let f1 = step_device(f0, q);
    let f2 = step_equal(f1, q.device_id, "device_id = ?"@);
    let f3 = step_day(f2, q, include_raw);
    let f4 = step_range(f3, q.date_from, "substr(COALESCE(event_time, ingest_time), 1, 10) >= ?"@);
    let f5 = step_range(f4, q.date_to, "substr(COALESCE(event_time, ingest_time), 1, 10) <= ?"@);
    let f6 = step_equal(f5, q.src_ip, "src_ip = ?"@);
    let f7 = step_equal(f6, q.dst_ip, "dst_ip = ?"@);
    let f8 = step_protocol(f7, q);
    let f9 = step_action(f8, q);
    let f10 = step_keyword(f9, q, include_raw);
    step_failed(f10, q)
}

fn push_text(v: &mut Vec<String>, s: String)
    ensures
        sv(final(v)@) == sv(old(v)@).push(s@),
{
    let ghost before = v@;
    v.push(s);
    proof {
        assert(sv(v@) =~= sv(before).push(s@));
    }
}

fn active(o: &Option<String>) -> (r: Option<&String>)
    ensures
        match r {
            Some(s) => active_filter(ov(*o)) == Some(s@),
            None => active_filter(ov(*o)) is None,
        },
{
    match o {
        Some(s) => if s.as_str().is_empty() {
            None
        } else {
            Some(s)
        },
        None => None,
    }
}

fn normalized_day_of(o: &Option<String>) -> (r: Option<String>)
    ensures
        ov(r) == day_filter(*o),
{
    match o {
        Some(d) => normalize_day(d.as_str()),
        None => None,
    }
}

fn wrapped(prefix: &str, v: &str, suffix: &str) -> (r: String)
    ensures
        r@ == prefix@ + v@ + suffix@,
{
    let a = concat(prefix, v);
    concat(a.as_str(), suffix)
}

fn add_device(c: &mut Vec<String>, v: &mut Vec<String>, q: &EventQuery)
    ensures
        (sv(final(c)@), sv(final(v)@)) == step_device((sv(old(c)@), sv(old(v)@)), *q),
{
    match active(&q.device) {
        Some(x) => {
            push_text(c, owned("source_addr LIKE ?"));
            push_text(v, wrapped("%", x.as_str(), "%"));
        },
        None => {},
    }
}

fn add_equal(c: &mut Vec<String>, v: &mut Vec<String>, o: &Option<String>, clause: &str)
    ensures
        (sv(final(c)@), sv(final(v)@)) == step_equal((sv(old(c)@), sv(old(v)@)), *o, clause@),
{
    match active(o) {
        Some(x) => {
            push_text(c, owned(clause));
            push_text(v, x.clone());
        },
        None => {},
    }
}

fn add_day(c: &mut Vec<String>, v: &mut Vec<String>, q: &EventQuery, include_raw: bool)
    ensures
        (sv(final(c)@), sv(final(v)@)) == step_day((sv(old(c)@), sv(old(v)@)), *q, include_raw),
{
    match normalized_day_of(&q.day) {
        Some(x) => {
            if include_raw {
                push_text(c, owned("(ingest_time LIKE ? OR event_time LIKE ? OR raw LIKE ?)"));
            } else {
                push_text(c, owned("(ingest_time LIKE ? OR event_time LIKE ?)"));
            }
            push_text(v, concat(x.as_str(), "%"));
            push_text(v, concat(x.as_str(), "%"));
            if include_raw {
                push_text(v, wrapped("%", x.as_str(), "%"));
            }
        },
        None => {},
    }
}

fn add_range(c: &mut Vec<String>, v: &mut Vec<String>, o: &Option<String>, clause: &str)
    ensures
        (sv(final(c)@), sv(final(v)@)) == step_range((sv(old(c)@), sv(old(v)@)), *o, clause@),
{
    match normalized_day_of(o) {
        Some(x) => {
            push_text(c, owned(clause));
            push_text(v, x);
        },
        None => {},
    }
}

fn add_protocol(c: &mut Vec<String>, v: &mut Vec<String>, q: &EventQuery)
    ensures
        (sv(final(c)@), sv(final(v)@)) == step_protocol((sv(old(c)@), sv(old(v)@)), *q),
{
    match active(&q.protocol) {
        Some(x) => {
            push_text(c, owned("upper(protocol) = ?"));
            push_text(v, normalize_protocol(x.as_str()));
        },
        None => {},
    }
}

fn add_action(c: &mut Vec<String>, v: &mut Vec<String>, q: &EventQuery)
    ensures
        (sv(final(c)@), sv(final(v)@)) == step_action((sv(old(c)@), sv(old(v)@)), *q),
{
    match active(&q.action) {
        Some(x) => {
            push_text(c, owned("lower(action) = ?"));
            push_text(v, to_ascii_lowercase(x.as_str()));
        },
        None => {},
    }
}

fn add_keyword(c: &mut Vec<String>, v: &mut Vec<String>, q: &EventQuery, include_raw: bool)
    ensures
        (sv(final(c)@), sv(final(v)@)) == step_keyword((sv(old(c)@), sv(old(v)@)), *q, include_raw),
{
    match active(&q.keyword) {
        Some(x) => {
            if include_raw {
                push_text(c, owned("raw LIKE ?"));
                push_text(v, wrapped("%", x.as_str(), "%"));
            } else {
                push_text(c, owned("FALSE"));
            }
        },
        None => {},
    }
}

/// The WHERE conditions and parameters of an event query: device (substring of the source),
/// device id, day, date range, addresses, protocol, action, keyword (only when the raw text
/// is read; else nothing matches) and, unless failed events are wanted, no failed events.
pub fn query_filters(query: &EventQuery, include_raw: bool) -> (r: (Vec<String>, Vec<String>))
    ensures
        (sv(r.0@), sv(r.1@)) == spec_query_filters(*query, include_raw),
{
    let mut c: Vec<String> = Vec::new();
    let mut v: Vec<String> = Vec::new();
    proof {
        assert(sv(c@) =~= Seq::<Seq<char>>::empty());
        assert(sv(v@) =~= Seq::<Seq<char>>::empty());
    }
    add_device(&mut c, &mut v, query);
    add_equal(&mut c, &mut v, &query.device_id, "device_id = ?");
    add_day(&mut c, &mut v, query, include_raw);
    add_range(&mut c, &mut v, &query.date_from, "substr(COALESCE(event_time, ingest_time), 1, 10) >= ?");
    add_range(&mut c, &mut v, &query.date_to, "substr(COALESCE(event_time, ingest_time), 1, 10) <= ?");
    add_equal(&mut c, &mut v, &query.src_ip, "src_ip = ?");
    add_equal(&mut c, &mut v, &query.dst_ip, "dst_ip = ?");
    add_protocol(&mut c, &mut v, query);
    add_action(&mut c, &mut v, query);
    add_keyword(&mut c, &mut v, query, include_raw);
    if !query.include_failed {
        push_text(&mut c, owned("parse_status <> 'failed'"));
    }
    (c, v)
}

/// The text of a WHERE clause: empty without conditions, else `WHERE` and the conditions
/// joined by `AND`.
pub open spec fn spec_where_clause(clauses: Seq<Seq<char>>) -> Seq<char> {
    if clauses.len() == 0 {
        Seq::empty()
    } else {
        "WHERE "@ + crate::engine::join(clauses, " AND "@)
    }
}

pub fn where_clause(clauses: &Vec<String>) -> (r: String)
    ensures
        r@ == spec_where_clause(sv(clauses@)),
{
    if clauses.len() == 0 {
        String::new()
    } else {
        let joined = crate::engine::join_texts(clauses, " AND ");
        concat("WHERE ", joined.as_str())
    }
}

} // verus!
