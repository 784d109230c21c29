//! The HTTP API's request types and the rules it applies to them: defaults and limits,
//! query conversions, day filters, cold-search matching, custom IP regions and devices.
use vstd::prelude::*;
use crate::event::{CanonicalEvent, EventView, Timestamp, ov, clone_opt};
use crate::store::{EventQuery, ascii_digits, digits_of, sv};
use crate::text::{
    ascii_lower_seq, concat, owned, str_eq, str_contains, str_ends_with,
    to_ascii_lowercase, to_uppercase, spec_to_uppercase, trim, trim_seq,
    parse_unsigned, parse_unsigned_u64, seq_contains, seq_ends_with, string_from_chars,
    digits_value,
};

verus! {

pub const MAX_QUERY_LIMIT: usize = 100_000;

pub const MAX_COLD_SEARCH_LIMIT: usize = 10_000;

pub const MAX_EXPORT_LIMIT: usize = 1_000_000;

/// A row limit.
#[derive(Debug)]
pub struct LimitQuery {
    pub limit: usize,
}

/// A window of minute metrics.
#[derive(Debug)]
pub struct MinuteMetricsRequest {
    pub hours: u32,
    pub limit: usize,
}

/// A window of source metrics.
#[derive(Debug)]
pub struct SourceMetricsRequest {
    pub hours: u32,
    pub limit: usize,
}

/// Filters of the hot event list.
#[derive(Debug, Clone)]
pub struct EventsQuery {
    pub day: Option<String>,
    pub date_from: Option<String>,
    pub date_to: Option<String>,
    pub device: Option<String>,
    pub device_id: Option<String>,
    pub src_ip: Option<String>,
    pub dst_ip: Option<String>,
    pub protocol: Option<String>,
    pub action: Option<String>,
    pub keyword: Option<String>,
    pub include_failed: bool,
    pub limit: usize,
}

/// Filters of a search through archives.
#[derive(Debug, Clone)]
pub struct ColdSearchQuery {
    pub day: Option<String>,
    pub date_from: Option<String>,
    pub date_to: Option<String>,
    pub device: Option<String>,
    pub device_id: Option<String>,
    pub src_ip: Option<String>,
    pub dst_ip: Option<String>,
    pub protocol: Option<String>,
    pub action: Option<String>,
    pub keyword: Option<String>,
    pub include_failed: bool,
    pub limit: usize,
}

/// Filters of a unified search over hot events and archives.
#[derive(Debug, Clone)]
pub struct SearchQuery {
    pub scope: String,
    pub day: Option<String>,
    pub date_from: Option<String>,
    pub date_to: Option<String>,
    pub device: Option<String>,
    pub device_id: Option<String>,
    pub src_ip: Option<String>,
    pub dst_ip: Option<String>,
    pub protocol: Option<String>,
    pub action: Option<String>,
    pub keyword: Option<String>,
    pub include_failed: bool,
    pub limit: usize,
}

/// A listing of the archive index.
#[derive(Debug)]
pub struct ArchiveIndexQuery {
    pub day: Option<String>,
    pub limit: usize,
}

/// An address to locate.
#[derive(Debug)]
pub struct IpRegionQuery {
    pub ip: String,
}

/// A named network of the operator's own.
#[derive(Debug, Clone)]
pub struct CustomIpRegion {
    pub id: String,
    pub cidr: String,
    pub name: String,
    pub note: String,
    pub enabled: bool,
    pub deleted: bool,
    pub created_at: String,
}

/// A custom region as submitted.
#[derive(Debug)]
pub struct CustomIpRegionInput {
    pub cidr: String,
    pub name: String,
    pub note: String,
    pub enabled: bool,
}

/// How an export is written.
#[derive(Debug, Clone, Copy, PartialEq, Eq, Structural)]
pub enum ExportFormat {
    Csv,
    Zst,
    Parquet,
}

impl Default for ExportFormat {
    fn default() -> (r: Self)
        ensures
            r == ExportFormat::Zst,
    {
        ExportFormat::Zst
    }
}

impl ExportFormat {
    pub open spec fn spec_extension(self) -> Seq<char> {
        match self {
            ExportFormat::Csv => "csv"@,
            ExportFormat::Zst => "csv.zst"@,
            ExportFormat::Parquet => "parquet"@,
        }
    }

    pub open spec fn spec_content_type(self) -> Seq<char> {
        match self {
            ExportFormat::Csv => "text/csv; charset=utf-8"@,
            ExportFormat::Zst => "application/zstd"@,
            ExportFormat::Parquet => "application/vnd.apache.parquet"@,
        }
    }

    pub fn extension(self) -> (r: &'static str)
        ensures
            r@ == self.spec_extension(),
    {
        match self {
            ExportFormat::Csv => "csv",
            ExportFormat::Zst => "csv.zst",
            ExportFormat::Parquet => "parquet",
        }
    }

    pub fn content_type(self) -> (r: &'static str)
        ensures
            r@ == self.spec_content_type(),
    {
        match self {
            ExportFormat::Csv => "text/csv; charset=utf-8",
            ExportFormat::Zst => "application/zstd",
            ExportFormat::Parquet => "application/vnd.apache.parquet",
        }
    }
}

/// An export as requested.
#[derive(Debug, Clone)]
pub struct ExportJobRequest {
    pub scope: String,
    pub day: Option<String>,
    pub date_from: Option<String>,
    pub date_to: Option<String>,
    pub device: Option<String>,
    pub device_id: Option<String>,
    pub src_ip: Option<String>,
    pub dst_ip: Option<String>,
    pub protocol: Option<String>,
    pub action: Option<String>,
    pub keyword: Option<String>,
    pub format: ExportFormat,
    pub include_failed: bool,
    pub limit: usize,
}

/// A frozen archive to restore.
#[derive(Debug)]
pub struct RestoreQuery {
    pub path: String,
}

/// A firewall that sends logs.
#[derive(Debug, Clone)]
pub struct FirewallDevice {
    pub id: String,
    pub name: String,
    pub host: String,
    pub protocol: String,
    pub port: u16,
    pub note: String,
    pub enabled: bool,
    pub created_at: String,
}

/// A device as submitted.
#[derive(Debug)]
pub struct FirewallDeviceInput {
    pub name: String,
    pub host: String,
    pub protocol: String,
    pub port: u16,
    pub note: String,
    pub enabled: bool,
}

pub fn default_enabled() -> (r: bool)
    ensures
        r,
{
    true
}

pub fn is_false(value: &bool) -> (r: bool)
    ensures
        r == !*value,
{
    !*value
}

pub fn default_limit() -> (r: usize)
    ensures
        r == 20,
{
    20
}

pub fn default_export_limit() -> (r: usize)
    ensures
        r == 1_000_000,
{
    1_000_000
}

pub fn default_search_scope() -> (r: String)
    ensures
        r@ == "all"@,
{
    owned("all")
}

pub fn default_archive_index_limit() -> (r: usize)
    ensures
        r == 1000,
{
    1000
}

pub fn default_metric_hours() -> (r: u32)
    ensures
        r == 24,
{
    24
}

pub fn default_metric_limit() -> (r: usize)
    ensures
        r == 1440,
{
    1440
}

pub fn default_source_metric_limit() -> (r: usize)
    ensures
        r == 20,
{
    20
}

/// `limit` clamped to `1..=max`.
pub open spec fn clamp_limit(limit: usize, max: usize) -> usize {
    if limit < 1 {
        1
    } else if limit > max {
        max
    } else {
        limit
    }
}

pub fn bounded_limit(limit: usize) -> (r: usize)
    ensures
        r == clamp_limit(limit, MAX_QUERY_LIMIT),
{
    if limit < 1 {
        1
    } else if limit > MAX_QUERY_LIMIT {
        MAX_QUERY_LIMIT
    } else {
        limit
    }
}

/// The most rows a listing of the frozen archive index returns.
pub const MAX_ARCHIVE_INDEX_LIMIT: usize = 10_000;

/// The row limit of an archive index listing: at least one, at most
/// `MAX_ARCHIVE_INDEX_LIMIT`.
pub fn archive_index_limit(limit: usize) -> (r: usize)
    ensures
        r == clamp_limit(limit, MAX_ARCHIVE_INDEX_LIMIT),
{
    if limit < 1 {
        1
    } else if limit > MAX_ARCHIVE_INDEX_LIMIT {
        MAX_ARCHIVE_INDEX_LIMIT
    } else {
        limit
    }
}

pub fn bounded_cold_limit(limit: usize) -> (r: usize)
    ensures
        r == clamp_limit(limit, MAX_COLD_SEARCH_LIMIT),
{
    if limit < 1 {
        1
    } else if limit > MAX_COLD_SEARCH_LIMIT {
        MAX_COLD_SEARCH_LIMIT
    } else {
        limit
    }
}

pub fn bounded_export_limit(limit: usize) -> (r: usize)
    ensures
        r == clamp_limit(limit, MAX_EXPORT_LIMIT),
{
    if limit < 1 {
        1
    } else if limit > MAX_EXPORT_LIMIT {
        MAX_EXPORT_LIMIT
    } else {
        limit
    }
}

/// A count given as text: surrounding whitespace ignored, then `str::parse::<usize>`.
pub fn parse_usize_text(text: &str) -> (r: Option<usize>)
    ensures
        match r {
            Some(n) => parse_unsigned(trim_seq(text@), usize::MAX as nat) == Some(n as nat),
            None => parse_unsigned(trim_seq(text@), usize::MAX as nat) is None,
        },
{
    let t = trim(text);
    match parse_unsigned_u64(t.as_str(), usize::MAX as u64) {
        Some(n) => Some(n as usize),
        None => None,
    }
}

/// What a flag given as text means, in any ASCII case and with whitespace ignored.
pub open spec fn spec_parse_bool_text(text: Seq<char>) -> Result<bool, Seq<char>> {
    let t = ascii_lower_seq(trim_seq(text));
    if t == "true"@ || t == "1"@ || t == "yes"@ || t == "on"@ {
        Ok(true)
    } else if t == "false"@ || t == "0"@ || t == "no"@ || t == "off"@ || t == ""@ {
        Ok(false)
    } else {
        Err("invalid bool "@ + t)
    }
}

pub fn parse_bool_text(text: &str) -> (r: Result<bool, String>)
    ensures
        match r {
            Ok(b) => spec_parse_bool_text(text@) == Ok::<bool, Seq<char>>(b),
            Err(e) => spec_parse_bool_text(text@) == Err::<bool, Seq<char>>(e@),
        },
{
    let trimmed = trim(text);
    let lower = to_ascii_lowercase(trimmed.as_str());
    let t = lower.as_str();
    if str_eq(t, "true") || str_eq(t, "1") || str_eq(t, "yes") || str_eq(t, "on") {
        Ok(true)
    } else if str_eq(t, "false") || str_eq(t, "0") || str_eq(t, "no") || str_eq(t, "off")
        || str_eq(t, "") {
        Ok(false)
    } else {
        Err(concat("invalid bool ", t))
    }
}

/// The store query and row limit of an event list request.
pub fn event_query_from_params(query: EventsQuery) -> (r: (EventQuery, usize))
    ensures
        ov(r.0.day) == ov(query.day),
        ov(r.0.date_from) == ov(query.date_from),
        ov(r.0.date_to) == ov(query.date_to),
        ov(r.0.device) == ov(query.device),
        ov(r.0.device_id) == ov(query.device_id),
        ov(r.0.src_ip) == ov(query.src_ip),
        ov(r.0.dst_ip) == ov(query.dst_ip),
        ov(r.0.protocol) == ov(query.protocol),
        ov(r.0.action) == ov(query.action),
        ov(r.0.keyword) == ov(query.keyword),
        r.0.include_failed == query.include_failed,
        r.1 == clamp_limit(query.limit, MAX_QUERY_LIMIT),
{
    let limit = bounded_limit(query.limit);
    (
        EventQuery {
            day: query.day,
            date_from: query.date_from,
            date_to: query.date_to,
            device: query.device,
            device_id: query.device_id,
            src_ip: query.src_ip,
            dst_ip: query.dst_ip,
            protocol: query.protocol,
            action: query.action,
            keyword: query.keyword,
            include_failed: query.include_failed,
        },
        limit,
    )
}

/// The store query of a search request.
pub fn event_query_from_search_params(query: &SearchQuery) -> (r: EventQuery)
    ensures
        ov(r.day) == ov(query.day),
        ov(r.date_from) == ov(query.date_from),
        ov(r.date_to) == ov(query.date_to),
        ov(r.device) == ov(query.device),
        ov(r.device_id) == ov(query.device_id),
        ov(r.src_ip) == ov(query.src_ip),
        ov(r.dst_ip) == ov(query.dst_ip),
        ov(r.protocol) == ov(query.protocol),
        ov(r.action) == ov(query.action),
        ov(r.keyword) == ov(query.keyword),
        r.include_failed == query.include_failed,
{
    EventQuery {
        day: clone_opt(&query.day),
        date_from: clone_opt(&query.date_from),
        date_to: clone_opt(&query.date_to),
        device: clone_opt(&query.device),
        device_id: clone_opt(&query.device_id),
        src_ip: clone_opt(&query.src_ip),
        dst_ip: clone_opt(&query.dst_ip),
        protocol: clone_opt(&query.protocol),
        action: clone_opt(&query.action),
        keyword: clone_opt(&query.keyword),
        include_failed: query.include_failed,
    }
}

/// The archive search of a search request, with the given row limit.
pub fn cold_query_from_search_params(query: &SearchQuery, limit: usize) -> (r: ColdSearchQuery)
    ensures
        ov(r.day) == ov(query.day),
        ov(r.date_from) == ov(query.date_from),
        ov(r.date_to) == ov(query.date_to),
        ov(r.device) == ov(query.device),
        ov(r.device_id) == ov(query.device_id),
        ov(r.src_ip) == ov(query.src_ip),
        ov(r.dst_ip) == ov(query.dst_ip),
        ov(r.protocol) == ov(query.protocol),
        ov(r.action) == ov(query.action),
        ov(r.keyword) == ov(query.keyword),
        r.include_failed == query.include_failed,
        r.limit == limit,
{
    ColdSearchQuery {
        day: clone_opt(&query.day),
        date_from: clone_opt(&query.date_from),
        date_to: clone_opt(&query.date_to),
        device: clone_opt(&query.device),
        device_id: clone_opt(&query.device_id),
        src_ip: clone_opt(&query.src_ip),
        dst_ip: clone_opt(&query.dst_ip),
        protocol: clone_opt(&query.protocol),
        action: clone_opt(&query.action),
        keyword: clone_opt(&query.keyword),
        include_failed: query.include_failed,
        limit,
    }
}

/// The search an export runs: its filters, with the export row limit.
pub fn search_query_from_export_request(input: &ExportJobRequest) -> (r: SearchQuery)
    ensures
        r.scope@ == input.scope@,
        ov(r.day) == ov(input.day),
        ov(r.date_from) == ov(input.date_from),
        ov(r.date_to) == ov(input.date_to),
        ov(r.device) == ov(input.device),
        ov(r.device_id) == ov(input.device_id),
        ov(r.src_ip) == ov(input.src_ip),
        ov(r.dst_ip) == ov(input.dst_ip),
        ov(r.protocol) == ov(input.protocol),
        ov(r.action) == ov(input.action),
        ov(r.keyword) == ov(input.keyword),
        r.include_failed == input.include_failed,
        r.limit == clamp_limit(input.limit, MAX_EXPORT_LIMIT),
{
    SearchQuery {
        scope: input.scope.clone(),
        day: clone_opt(&input.day),
        date_from: clone_opt(&input.date_from),
        date_to: clone_opt(&input.date_to),
        device: clone_opt(&input.device),
        device_id: clone_opt(&input.device_id),
        src_ip: clone_opt(&input.src_ip),
        dst_ip: clone_opt(&input.dst_ip),
        protocol: clone_opt(&input.protocol),
        action: clone_opt(&input.action),
        keyword: clone_opt(&input.keyword),
        include_failed: input.include_failed,
        limit: bounded_export_limit(input.limit),
    }
}

/// The eight digits of a day written with any separators.
pub open spec fn spec_normalize_day_filter(day: Seq<char>) -> Option<Seq<char>> {
    let d = ascii_digits(day);
    if d.len() == 8 {
        Some(d)
    } else {
        None
    }
}

pub fn normalize_day_filter(day: &str) -> (r: Option<String>)
    ensures
        ov(r) == spec_normalize_day_filter(day@),
{
    let d = digits_of(day);
    if d.len() == 8 {
        Some(string_from_chars(d.as_slice()))
    } else {
        None
    }
}

pub open spec fn is_leap_year(y: int) -> bool {
    (y % 4 == 0 && y % 100 != 0) || y % 400 == 0
}

pub open spec fn days_in_month(y: int, m: int) -> int {
    if m == 2 {
        if is_leap_year(y) {
            29
        } else {
            28
        }
    } else if m == 4 || m == 6 || m == 9 || m == 11 {
        30
    } else {
        31
    }
}

/// A calendar day: a month of the year and a day of that month.
pub open spec fn valid_date(y: int, m: int, d: int) -> bool {
    1 <= m <= 12 && 1 <= d <= days_in_month(y, m)
}

/// A day given as text: its eight digits read as `%Y%m%d`, when that is a calendar day.
pub open spec fn spec_parse_day(value: Seq<char>) -> Option<(int, int, int)> {
    match spec_normalize_day_filter(value) {
        Some(d) => {
            let y = digits_value(d.subrange(0, 4)) as int;
            let m = digits_value(d.subrange(4, 6)) as int;
            let dd = digits_value(d.subrange(6, 8)) as int;
            if valid_date(y, m, dd) {
                Some((y, m, dd))
            } else {
                None
            }
        },
        None => None,
    }
}

/// Whether one day comes before another.
pub open spec fn date_lt(a: (int, int, int), b: (int, int, int)) -> bool {
    a.0 < b.0 || (a.0 == b.0 && (a.1 < b.1 || (a.1 == b.1 && a.2 < b.2)))
}

fn digit_value(c: char) -> (r: u32)
    requires
        '0' <= c <= '9',
    ensures
        r == (c as u32) - ('0' as u32),
        r <= 9,
{
    (c as u32) - ('0' as u32)
}

proof fn lemma_digits_value_two(s: Seq<char>)
    requires
        s.len() == 2,
    ensures
        digits_value(s) == digits_value(seq![s[0]]) * 10 + ((s[1] as u32) - ('0' as u32)) as nat,
        digits_value(seq![s[0]]) == ((s[0] as u32) - ('0' as u32)) as nat,
{
    reveal_with_fuel(digits_value, 3);
    assert(s.drop_last() =~= seq![s[0]]);
    assert(seq![s[0]].drop_last() =~= Seq::<char>::empty());
    assert(s.last() == s[1]);
}

proof fn lemma_digits_value_four(s: Seq<char>)
    requires
        s.len() == 4,
    ensures
        digits_value(s) == ((digits_value(s.subrange(0, 2)) * 10 + ((s[2] as u32) - ('0' as u32)) as nat)
            * 10 + ((s[3] as u32) - ('0' as u32)) as nat),
{
    reveal_with_fuel(digits_value, 3);
    assert(s.drop_last() =~= s.subrange(0, 3));
    assert(s.subrange(0, 3).drop_last() =~= s.subrange(0, 2));
    assert(s.subrange(0, 3).last() == s[2]);
    assert(s.last() == s[3]);
}

/// A day given as text, as year, month and day.
pub fn parse_day(value: &str) -> (r: Option<(u32, u32, u32)>)
    ensures
        match r {
            Some((y, m, d)) => spec_parse_day(value@) == Some((y as int, m as int, d as int)),
            None => spec_parse_day(value@) is None,
        },
{
    let d = digits_of(value);
    if d.len() != 8 {
        return None;
    }
    proof {
        reveal_with_fuel(Seq::filter, 1);
        assert forall|k: int| 0 <= k < d@.len() implies '0' <= #[trigger] d@[k] <= '9' by {
            value@.lemma_filter_pred(|c: char| crate::ip::is_dec_digit(c), k);
        }
    }
    let y = ((digit_value(d[0]) * 10 + digit_value(d[1])) * 10 + digit_value(d[2])) * 10
        + digit_value(d[3]);
    let m = digit_value(d[4]) * 10 + digit_value(d[5]);
    let dd = digit_value(d[6]) * 10 + digit_value(d[7]);
    proof {
        let ds = d@;
        lemma_digits_value_four(ds.subrange(0, 4));
        lemma_digits_value_two(ds.subrange(0, 4).subrange(0, 2));
        lemma_digits_value_two(ds.subrange(4, 6));
        lemma_digits_value_two(ds.subrange(6, 8));
        assert(ds.subrange(0, 4).subrange(0, 2)[0] == ds[0]);
        assert(ds.subrange(0, 4).subrange(0, 2)[1] == ds[1]);
    }
    let leap = (y % 4 == 0 && y % 100 != 0) || y % 400 == 0;
    let dim: u32 = if m == 2 {
        if leap {
            29
        } else {
            28
        }
    } else if m == 4 || m == 6 || m == 9 || m == 11 {
        30
    } else {
        31
    };
    if 1 <= m && m <= 12 && 1 <= dd && dd <= dim {
        Some((y, m, dd))
    } else {
        None
    }
}

fn date_less(a: (u32, u32, u32), b: (u32, u32, u32)) -> (r: bool)
    ensures
        r == date_lt((a.0 as int, a.1 as int, a.2 as int), (b.0 as int, b.1 as int, b.2 as int)),
{
    a.0 < b.0 || (a.0 == b.0 && (a.1 < b.1 || (a.1 == b.1 && a.2 < b.2)))
}

/// The day of an optional text.
pub open spec fn opt_day(o: Option<Seq<char>>) -> Option<(int, int, int)> {
    match o {
        Some(v) => spec_parse_day(v),
        None => None,
    }
}

fn parse_opt_day(o: &Option<String>) -> (r: Option<(u32, u32, u32)>)
    ensures
        match r {
            Some((y, m, d)) => opt_day(ov(*o)) == Some((y as int, m as int, d as int)),
            None => opt_day(ov(*o)) is None,
        },
{
    match o {
        Some(v) => parse_day(v.as_str()),
        None => None,
    }
}

/// Scope is one of `hot`, `archive`, `all` (any ASCII case).
pub open spec fn valid_scope(scope: Seq<char>) -> bool {
    let s = ascii_lower_seq(scope);
    s == "hot"@ || s == "archive"@ || s == "all"@
}

pub fn is_valid_scope(scope: &str) -> (r: bool)
    ensures
        r == valid_scope(scope@),
{
    let lower = to_ascii_lowercase(scope);
    str_eq(lower.as_str(), "hot") || str_eq(lower.as_str(), "archive") || str_eq(
        lower.as_str(),
        "all",
    )
}

/// An export request is refused for an unknown scope, or for a range that ends before it
/// starts.
pub open spec fn spec_validate_export(input: ExportJobRequest) -> Result<(), Seq<char>> {
    if !valid_scope(input.scope@) {
        Err("scope must be hot, archive, or all"@)
    } else {
        match (opt_day(ov(input.date_from)), opt_day(ov(input.date_to))) {
            (Some(start), Some(end)) => if date_lt(end, start) {
                Err("date_to must be greater than or equal to date_from"@)
            } else {
                Ok(())
            },
            _ => Ok(()),
        }
    }
}

pub fn validate_export_job_request(input: &ExportJobRequest) -> (r: Result<(), String>)
    ensures
        match r {
            Ok(()) => spec_validate_export(*input) is Ok,
            Err(e) => spec_validate_export(*input) == Err::<(), Seq<char>>(e@),
        },
{
    if !is_valid_scope(input.scope.as_str()) {
        return Err(owned("scope must be hot, archive, or all"));
    }
    match (parse_opt_day(&input.date_from), parse_opt_day(&input.date_to)) {
        (Some(start), Some(end)) => {
            if date_less(end, start) {
                return Err(owned("date_to must be greater than or equal to date_from"));
            }
        },
        _ => {},
    }
    Ok(())
}

/// `YYYY-MM-DD` from the first eight digits of a text, when it has that many.
pub open spec fn spec_infer_day_from_text(text: Seq<char>) -> Option<Seq<char>> {
    let d = ascii_digits(text);
    if d.len() < 8 {
        None
    } else {
        Some(d.subrange(0, 4) + seq!['-'] + d.subrange(4, 6) + seq!['-'] + d.subrange(6, 8))
    }
}

pub fn infer_day_from_text(text: &str) -> (r: Option<String>)
    ensures
        ov(r) == spec_infer_day_from_text(text@),
{
    let d = digits_of(text);
    if d.len() < 8 {
        return None;
    }
    let mut out: Vec<char> = Vec::new();
    out.push(d[0]);
    out.push(d[1]);
    out.push(d[2]);
    out.push(d[3]);
    out.push('-');
    out.push(d[4]);
    out.push(d[5]);
    out.push('-');
    out.push(d[6]);
    out.push(d[7]);
    proof {
        assert(out@ =~= d@.subrange(0, 4) + seq!['-'] + d@.subrange(4, 6) + seq!['-'] + d@.subrange(
            6,
            8,
        ));
    }
    Some(string_from_chars(out.as_slice()))
}

/// `YYYY-MM-DD` of an eight-digit day.
pub open spec fn dashed_day(v: Seq<char>) -> Seq<char> {
    v.subrange(0, 4) + seq!['-'] + v.subrange(4, 6) + seq!['-'] + v.subrange(6, 8)
}

/// An eight-digit day, as day filters are after normalisation.
pub open spec fn is_day_digits(v: Seq<char>) -> bool {
    v.len() == 8 && forall|k: int| 0 <= k < 8 ==> crate::ip::is_dec_digit(#[trigger] v[k])
}

fn dashed(v: &str) -> (r: String)
    requires
        is_day_digits(v@),
    ensures
        r@ == dashed_day(v@),
{
    let c = crate::text::chars_of(v);
    let mut out: Vec<char> = Vec::new();
    out.push(c[0]);
    out.push(c[1]);
    out.push(c[2]);
    out.push(c[3]);
    out.push('-');
    out.push(c[4]);
    out.push(c[5]);
    out.push('-');
    out.push(c[6]);
    out.push(c[7]);
    proof {
        assert(out@ =~= dashed_day(v@));
    }
    string_from_chars(out.as_slice())
}

/// A text mentions a day in either of its two spellings; no day means every text.
pub open spec fn spec_day_matches(text: Seq<char>, day: Option<Seq<char>>) -> bool {
    match day {
        Some(v) => seq_contains(text, v) || seq_contains(text, dashed_day(v)),
        None => true,
    }
}

/// Whether an entry of a cold archive belongs to the day (by its path).
pub fn cold_entry_day_matches(entry_path: &str, day: Option<&str>) -> (r: bool)
    requires
        day matches Some(v) ==> is_day_digits(v@),
    ensures
        r == spec_day_matches(entry_path@, match day {
            Some(v) => Some(v@),
            None => None,
        }),
{
    match day {
        Some(value) => {
            if str_contains(entry_path, value) {
                true
            } else {
                let d = dashed(value);
                str_contains(entry_path, d.as_str())
            }
        },
        None => true,
    }
}

/// Whether an archive file belongs to the day (by its file name; a path without one does
/// not).
pub fn archive_path_day_matches(file_name: Option<&str>, day: Option<&str>) -> (r: bool)
    requires
        day matches Some(v) ==> is_day_digits(v@),
    ensures
        r == (match day {
            Some(v) => match file_name {
                Some(n) => spec_day_matches(n@, Some(v@)),
                None => false,
            },
            None => true,
        }),
{
    match day {
        Some(value) => match file_name {
            Some(name) => cold_entry_day_matches(name, Some(value)),
            None => false,
        },
        None => true,
    }
}

/// A frozen raw archive (`.raw.zst`), by file name.
pub fn is_raw_zst_archive(file_name: Option<&str>) -> (r: bool)
    ensures
        r == (match file_name {
            Some(n) => seq_ends_with(n@, ".raw.zst"@),
            None => false,
        }),
{
    match file_name {
        Some(name) => str_ends_with(name, ".raw.zst"),
        None => false,
    }
}

/// A protocol filter compared in ASCII upper case, numbers 17 and 6 by name.
pub open spec fn spec_query_protocol(value: Option<Seq<char>>) -> Option<Seq<char>> {
    match value {
        Some(t) => Some(crate::store::spec_normalize_query_protocol(t)),
        None => None,
    }
}

pub fn normalize_query_protocol(value: Option<&str>) -> (r: Option<String>)
    ensures
        ov(r) == spec_query_protocol(match value {
            Some(v) => Some(v@),
            None => None,
        }),
{
    match value {
        Some(text) => Some(crate::store::normalize_protocol(text)),
        None => None,
    }
}

/// The day an event happened (its event time, else its arrival), when chrono can tell it.
pub open spec fn event_day(e: EventView) -> Option<(int, int, int)> {
    let t = match e.event_time {
        Some(t) => t,
        None => e.ingest_time,
    };
    match crate::calendar::spec_utc_date(t.secs, t.nanos) {
        Some((y, m, d)) => Some((y as int, m as int, d as int)),
        None => None,
    }
}

/// Whether an archived event passes the filters of a cold search: the device text is a
/// part of its source, the device id, addresses and action (in any ASCII case) are equal,
/// the protocol is equal after normalisation, and its day lies in the date range. An event
/// whose day cannot be told fails a date bound.
pub open spec fn spec_matches_cold_query(e: EventView, q: ColdSearchQuery) -> bool {
    &&& (ov(q.device) matches Some(v) ==> seq_contains(e.source_addr, v))
    &&& (ov(q.device_id) matches Some(v) ==> e.device_id == Some(v))
    &&& (opt_day(ov(q.date_from)) matches Some(start) ==> (event_day(e) matches Some(day) && !date_lt(
        day,
        start,
    )))
    &&& (opt_day(ov(q.date_to)) matches Some(end) ==> (event_day(e) matches Some(day) && !date_lt(
        end,
        day,
    )))
    &&& (ov(q.src_ip) matches Some(v) ==> e.src_ip == Some(v))
    &&& (ov(q.dst_ip) matches Some(v) ==> e.dst_ip == Some(v))
    &&& (ov(q.protocol) matches Some(v) ==> spec_query_protocol(e.protocol) == spec_query_protocol(
        Some(v),
    ))
    &&& (ov(q.action) matches Some(v) ==> (e.action matches Some(a) && ascii_lower_seq(a)
        == ascii_lower_seq(v)))
}

fn opt_str_eq(a: &Option<String>, b: &str) -> (r: bool)
    ensures
        r == (ov(*a) == Some(b@)),
{
    match a {
        Some(x) => str_eq(x.as_str(), b),
        None => false,
    }
}

fn opt_string_eq(a: &Option<String>, b: &Option<String>) -> (r: bool)
    ensures
        r == (ov(*a) == ov(*b)),
{
    match (a, b) {
        (Some(x), Some(y)) => str_eq(x.as_str(), y.as_str()),
        (None, None) => true,
        _ => false,
    }
}

fn event_date(e: &CanonicalEvent) -> (r: Option<(i64, i64, i64)>)
    ensures
        match r {
            Some((y, m, d)) => event_day(e@) == Some((y as int, m as int, d as int)),
            None => event_day(e@) is None,
        },
{
    let t = match e.event_time {
        Some(t) => t,
        None => e.ingest_time,
    };
    match crate::calendar::utc_date(t) {
        Some((y, m, d)) => Some((y as i64, m as i64, d as i64)),
        None => None,
    }
}

fn date_less_wide(a: (i64, i64, i64), b: (i64, i64, i64)) -> (r: bool)
    ensures
        r == date_lt((a.0 as int, a.1 as int, a.2 as int), (b.0 as int, b.1 as int, b.2 as int)),
{
    a.0 < b.0 || (a.0 == b.0 && (a.1 < b.1 || (a.1 == b.1 && a.2 < b.2)))
}

fn widen(d: (u32, u32, u32)) -> (r: (i64, i64, i64))
    ensures
        r.0 == d.0 as int,
        r.1 == d.1 as int,
        r.2 == d.2 as int,
{
    (d.0 as i64, d.1 as i64, d.2 as i64)
}

/// Checks an archived event against the filters of a cold search.
pub fn matches_cold_query(event: &CanonicalEvent, query: &ColdSearchQuery) -> (r: bool)
    ensures
        r == spec_matches_cold_query(event@, *query),
{
    match &query.device {
        Some(v) => {
            if !str_contains(event.source_addr.as_str(), v.as_str()) {
                return false;
            }
        },
        None => {},
    }
    match &query.device_id {
        Some(v) => {
            if !opt_str_eq(&event.device_id, v.as_str()) {
                return false;
            }
        },
        None => {},
    }
    match parse_opt_day(&query.date_from) {
        Some(start) => {
            match event_date(event) {
                Some(day) => {
                    if date_less_wide(day, widen(start)) {
                        return false;
                    }
                },
                None => {
                    return false;
                },
            }
        },
        None => {},
    }
    match parse_opt_day(&query.date_to) {
        Some(end) => {
            match event_date(event) {
                Some(day) => {
                    if date_less_wide(widen(end), day) {
                        return false;
                    }
                },
                None => {
                    return false;
                },
            }
        },
        None => {},
    }
    match &query.src_ip {
        Some(v) => {
            if !opt_str_eq(&event.src_ip, v.as_str()) {
                return false;
            }
        },
        None => {},
    }
    match &query.dst_ip {
        Some(v) => {
            if !opt_str_eq(&event.dst_ip, v.as_str()) {
                return false;
            }
        },
        None => {},
    }
    match &query.protocol {
        Some(v) => {
            let left = match &event.protocol {
                Some(p) => normalize_query_protocol(Some(p.as_str())),
                None => None,
            };
            let right = normalize_query_protocol(Some(v.as_str()));
            if !opt_string_eq(&left, &right) {
                return false;
            }
        },
        None => {},
    }
    match &query.action {
        Some(v) => {
            let expected = to_ascii_lowercase(v.as_str());
            match &event.action {
                Some(a) => {
                    let actual = to_ascii_lowercase(a.as_str());
                    if !str_eq(actual.as_str(), expected.as_str()) {
                        return false;
                    }
                },
                None => {
                    return false;
                },
            }
        },
        None => {},
    }
    true
}

/// The 32-bit value of four octets, first octet highest.
pub open spec fn octets_value(o: Seq<nat>) -> nat {
    o[0] * 16777216 + o[1] * 65536 + o[2] * 256 + o[3]
}

/// The network mask of a prefix length.
pub open spec fn prefix_mask(prefix: u32) -> u32 {
    if prefix == 0 {
        0
    } else {
        (u32::MAX << ((32 - prefix) as u32)) as u32
    }
}

/// An IPv4 network `address/prefix` as its address value and mask, or why it is refused.
pub open spec fn spec_parse_ipv4_cidr(cidr: Seq<char>) -> Result<(u32, u32), Seq<char>> {
    match crate::text::first_occurrence(cidr, "/"@) {
        None => Err("cidr must use address/prefix format"@),
        Some(i) => {
            let addr = cidr.subrange(0, i);
            let prefix = cidr.subrange(i + 1, cidr.len() as int);
            match crate::ip::spec_ipv4(addr) {
                None => Err("invalid cidr address: "@ + addr),
                Some(o) => match parse_unsigned(prefix, u32::MAX as nat) {
                    None => Err("invalid cidr prefix: "@ + prefix),
                    Some(p) => if p > 32 {
                        Err("cidr prefix must be 0..32"@)
                    } else {
                        Ok((octets_value(o) as u32, prefix_mask(p as u32)))
                    },
                },
            }
        },
    }
}

proof fn lemma_octets_bound(o: Seq<nat>)
    requires
        o.len() == 4,
        forall|k: int| 0 <= k < 4 ==> #[trigger] o[k] <= 255,
    ensures
        octets_value(o) <= u32::MAX,
{
    assert(o[0] * 16777216 <= 255 * 16777216) by (nonlinear_arith)
        requires
            o[0] <= 255,
    ;
    assert(o[1] * 65536 <= 255 * 65536) by (nonlinear_arith)
        requires
            o[1] <= 255,
    ;
    assert(o[2] * 256 <= 255 * 256) by (nonlinear_arith)
        requires
            o[2] <= 255,
    ;
}

fn octets_to_u32(o: &Vec<u8>) -> (r: u32)
    requires
        o@.len() == 4,
    ensures
        r as nat == octets_value(o@.map_values(|b: u8| b as nat)),
{
    let ghost ov4 = o@.map_values(|b: u8| b as nat);
    proof {
        lemma_octets_bound(ov4);
    }
    (o[0] as u32) * 16777216 + (o[1] as u32) * 65536 + (o[2] as u32) * 256 + (o[3] as u32)
}

/// Reads an IPv4 network in `address/prefix` form.
pub fn parse_ipv4_cidr(cidr: &str) -> (r: Result<(u32, u32), String>)
    ensures
        match r {
            Ok(v) => spec_parse_ipv4_cidr(cidr@) == Ok::<(u32, u32), Seq<char>>(v),
            Err(e) => spec_parse_ipv4_cidr(cidr@) == Err::<(u32, u32), Seq<char>>(e@),
        },
{
    let chars = crate::text::chars_of(cidr);
    let slash: [char; 1] = ['/'];
    proof {
        reveal_strlit("/");
        assert(slash@ =~= "/"@);
    }
    let i = match crate::text::find_first(chars.as_slice(), &slash) {
        Some(i) => i,
        None => {
            return Err(owned("cidr must use address/prefix format"));
        },
    };
    let n = chars.len();
    let addr = crate::text::substring(cidr, 0, i);
    let prefix = crate::text::substring(cidr, i + 1, n);
    let octets = match crate::ip::parse_ipv4(addr.as_str()) {
        Some(o) => o,
        None => {
            return Err(concat("invalid cidr address: ", addr.as_str()));
        },
    };
    let p = match parse_unsigned_u64(prefix.as_str(), u32::MAX as u64) {
        Some(p) => p as u32,
        None => {
            return Err(concat("invalid cidr prefix: ", prefix.as_str()));
        },
    };
    if p > 32 {
        return Err(owned("cidr prefix must be 0..32"));
    }
    octet_count_is_four(addr.as_str(), &octets);
    let mask: u32 = if p == 0 {
        0
    } else {
        u32::MAX << (32 - p)
    };
    Ok((octets_to_u32(&octets), mask))
}

fn octet_count_is_four(s: &str, octets: &Vec<u8>)
    requires
        crate::ip::spec_ipv4(s@) == Some(octets@.map_values(|b: u8| b as nat)),
    ensures
        octets@.len() == 4,
{
    proof {
        lemma_ipv4_octet_count(s@, 0, 0);
    }
}

proof fn lemma_ipv4_octet_count(s: Seq<char>, pos: int, k: nat)
    requires
        k <= 4,
    ensures
        crate::ip::ipv4_octets(s, pos, k) matches Some((_, o)) ==> o.len() == 4 - k,
    decreases 4 - k,
{
    if k < 4 {
        let start = if k == 0 {
            pos
        } else {
            pos + 1
        };
        match crate::ip::dec_octet(s, start) {
            Some((e, v)) => {
                lemma_ipv4_octet_count(s, e, k + 1);
            },
            None => {},
        }
    }
}

/// Whether an address text is an IPv4 address inside a custom network (never for IPv6 or
/// a network that does not parse).
pub open spec fn spec_custom_region_matches(ip: Seq<char>, cidr: Seq<char>) -> bool {
    match crate::ip::spec_ipv4(ip) {
        Some(o) => match spec_parse_ipv4_cidr(cidr) {
            Ok((network, mask)) => ((octets_value(o) as u32) & mask) == (network & mask),
            Err(_) => false,
        },
        None => false,
    }
}

pub fn custom_region_matches(ip: &str, cidr: &str) -> (r: bool)
    ensures
        r == spec_custom_region_matches(ip@, cidr@),
{
    let octets = match crate::ip::parse_ipv4(ip) {
        Some(o) => o,
        None => {
            return false;
        },
    };
    octet_count_is_four(ip, &octets);
    match parse_ipv4_cidr(cidr) {
        Ok((network, mask)) => (octets_to_u32(&octets) & mask) == (network & mask),
        Err(_) => false,
    }
}

/// Whether an address text is a public IPv4 address: not in 0/8, 10/8, 127/8, multicast
/// and above, 172.16/12, 192.168/16, 169.254/16 or 100.64/10.
pub open spec fn spec_is_public_ipv4(ip: Seq<char>) -> bool {
    match crate::ip::spec_ipv4(ip) {
        Some(o) => {
            let a = o[0];
            let b = o[1];
            !(a == 0 || a == 10 || a == 127 || a >= 224) && !(a == 172 && 16 <= b <= 31) && !(a
                == 192 && b == 168) && !(a == 169 && b == 254) && !(a == 100 && 64 <= b <= 127)
        },
        None => false,
    }
}

pub fn is_public_ipv4(ip: &str) -> (r: bool)
    ensures
        r == spec_is_public_ipv4(ip@),
{
    let o = match crate::ip::parse_ipv4(ip) {
        Some(o) => o,
        None => {
            return false;
        },
    };
    octet_count_is_four(ip, &o);
    let a = o[0];
    let b = o[1];
    if a == 0 || a == 10 || a == 127 || a >= 224 {
        return false;
    }
    if a == 172 && 16 <= b && b <= 31 {
        return false;
    }
    if a == 192 && b == 168 {
        return false;
    }
    if a == 169 && b == 254 {
        return false;
    }
    if a == 100 && 64 <= b && b <= 127 {
        return false;
    }
    true
}

/// A custom region input checked: network and name required (trimmed), the network must
/// parse; gives the trimmed network, name and note.
pub open spec fn spec_normalize_region_input(cidr: Seq<char>, name: Seq<char>, note: Seq<char>) -> Result<
    (Seq<char>, Seq<char>, Seq<char>),
    Seq<char>,
> {
    let c = trim_seq(cidr);
    let n = trim_seq(name);
    if c.len() == 0 {
        Err("cidr is required"@)
    } else if n.len() == 0 {
        Err("region name is required"@)
    } else {
        match spec_parse_ipv4_cidr(c) {
            Err(e) => Err(e),
            Ok(_) => Ok((c, n, trim_seq(note))),
        }
    }
}

pub fn normalize_custom_ip_region_input(input: &CustomIpRegionInput) -> (r: Result<(String, String, String), String>)
    ensures
        match r {
            Ok((c, n, t)) => spec_normalize_region_input(input.cidr@, input.name@, input.note@)
                == Ok::<(Seq<char>, Seq<char>, Seq<char>), Seq<char>>((c@, n@, t@)),
            Err(e) => spec_normalize_region_input(input.cidr@, input.name@, input.note@) == Err::<
                (Seq<char>, Seq<char>, Seq<char>),
                Seq<char>,
            >(e@),
        },
{
    let cidr = trim(input.cidr.as_str());
    let name = trim(input.name.as_str());
    if cidr.as_str().is_empty() {
        return Err(owned("cidr is required"));
    }
    if name.as_str().is_empty() {
        return Err(owned("region name is required"));
    }
    match parse_ipv4_cidr(cidr.as_str()) {
        Err(e) => Err(e),
        Ok(_) => Ok((cidr, name, trim(input.note.as_str()))),
    }
}

/// A device input checked: name and host required (trimmed), protocol (trimmed, upper case)
/// one of UDP, TCP, TLS, port not zero.
pub open spec fn spec_normalize_device_input(
    name: Seq<char>,
    host: Seq<char>,
    protocol: Seq<char>,
    port: u16,
    note: Seq<char>,
) -> Result<(Seq<char>, Seq<char>, Seq<char>, u16, Seq<char>), Seq<char>> {
    let n = trim_seq(name);
    let h = trim_seq(host);
    let p = spec_to_uppercase(trim_seq(protocol));
    if n.len() == 0 {
        Err("device name is required"@)
    } else if h.len() == 0 {
        Err("device host is required"@)
    } else if !(p == "UDP"@ || p == "TCP"@ || p == "TLS"@) {
        Err("device protocol must be UDP, TCP or TLS"@)
    } else if port == 0 {
        Err("device port is required"@)
    } else {
        Ok((n, h, p, port, trim_seq(note)))
    }
}

pub fn normalize_device_input(input: &FirewallDeviceInput) -> (r: Result<(String, String, String, u16, String), String>)
    ensures
        match r {
            Ok((n, h, p, port, t)) => spec_normalize_device_input(
                input.name@,
                input.host@,
                input.protocol@,
                input.port,
                input.note@,
            ) == Ok::<(Seq<char>, Seq<char>, Seq<char>, u16, Seq<char>), Seq<char>>(
                (n@, h@, p@, port, t@),
            ),
            Err(e) => spec_normalize_device_input(
                input.name@,
                input.host@,
                input.protocol@,
                input.port,
                input.note@,
            ) == Err::<(Seq<char>, Seq<char>, Seq<char>, u16, Seq<char>), Seq<char>>(e@),
        },
{
    let name = trim(input.name.as_str());
    let host = trim(input.host.as_str());
    let trimmed_protocol = trim(input.protocol.as_str());
    let protocol = to_uppercase(trimmed_protocol.as_str());
    if name.as_str().is_empty() {
        return Err(owned("device name is required"));
    }
    if host.as_str().is_empty() {
        return Err(owned("device host is required"));
    }
    let p = protocol.as_str();
    if !(str_eq(p, "UDP") || str_eq(p, "TCP") || str_eq(p, "TLS")) {
        return Err(owned("device protocol must be UDP, TCP or TLS"));
    }
    if input.port == 0 {
        return Err(owned("device port is required"));
    }
    Ok((name, host, protocol, input.port, trim(input.note.as_str())))
}

/// The region of an address as shown by the API.
#[derive(Debug, Clone)]
pub struct IpRegionResponse {
    pub ip: String,
    pub region: Option<String>,
    pub country: Option<String>,
    pub province: Option<String>,
    pub city: Option<String>,
    pub isp: Option<String>,
    pub raw: Option<String>,
}

/// The pieces of a text between the separators, and the piece being read.
pub open spec fn split_state(s: Seq<char>, sep: char) -> (Seq<Seq<char>>, Seq<char>)
    decreases s.len(),
{
    if s.len() == 0 {
        (Seq::empty(), Seq::empty())
    } else {
        let (done, cur) = split_state(s.drop_last(), sep);
        if s.last() == sep {
            (done.push(cur), Seq::empty())
        } else {
            (done, cur.push(s.last()))
        }
    }
}

/// The pieces of a text cut at every separator (as `str::split` gives them).
pub open spec fn spec_split(s: Seq<char>, sep: char) -> Seq<Seq<char>> {
    let (done, cur) = split_state(s, sep);
    done.push(cur)
}

/// A field of a region record: trimmed, and absent when empty or `0`.
pub open spec fn region_field(p: Seq<char>) -> Option<Seq<char>> {
    let t = trim_seq(p);
    if t.len() == 0 || t == "0"@ {
        None
    } else {
        Some(t)
    }
}

/// The fields present, in order.
pub open spec fn present(ps: Seq<Option<Seq<char>>>) -> Seq<Seq<char>>
    decreases ps.len(),
{
    if ps.len() == 0 {
        Seq::empty()
    } else {
        match ps.last() {
            Some(v) => present(ps.drop_last()).push(v),
            None => present(ps.drop_last()),
        }
    }
}

/// Two ASCII capital letters, as a country code is written.
pub open spec fn looks_like_country_code(v: Seq<char>) -> bool {
    v.len() == 2 && 'A' <= v[0] <= 'Z' && 'A' <= v[1] <= 'Z'
}

/// The fields shown: a trailing country code is dropped when something else is there.
pub open spec fn display_fields(cleaned: Seq<Seq<char>>) -> Seq<Seq<char>> {
    if cleaned.len() > 1 && looks_like_country_code(cleaned.last()) {
        cleaned.drop_last()
    } else {
        cleaned
    }
}

pub open spec fn seq_get(s: Seq<Seq<char>>, i: int) -> Option<Seq<char>> {
    if 0 <= i < s.len() {
        Some(s[i])
    } else {
        None
    }
}

/// The region of an address from its `|`-separated record: the first field is the country,
/// the shown fields give the region text (joined by blanks), province, city and, last, the
/// provider.
pub open spec fn spec_parse_ip_region(ip: Seq<char>, raw: Seq<char>) -> (
    Seq<char>,
    Option<Seq<char>>,
    Option<Seq<char>>,
    Option<Seq<char>>,
    Option<Seq<char>>,
    Option<Seq<char>>,
    Option<Seq<char>>,
) {
    let parts = spec_split(raw, '|').map_values(|p: Seq<char>| region_field(p));
    let display = display_fields(present(parts));
    (
        ip,
        if display.len() == 0 {
            None
        } else {
            Some(crate::engine::join(display, " "@))
        },
        parts[0],
        seq_get(display, 1),
        seq_get(display, 2),
        if display.len() == 0 {
            None
        } else {
            Some(display.last())
        },
        Some(raw),
    )
}

pub open spec fn region_response_view(r: IpRegionResponse) -> (
    Seq<char>,
    Option<Seq<char>>,
    Option<Seq<char>>,
    Option<Seq<char>>,
    Option<Seq<char>>,
    Option<Seq<char>>,
    Option<Seq<char>>,
) {
    (r.ip@, ov(r.region), ov(r.country), ov(r.province), ov(r.city), ov(r.isp), ov(r.raw))
}

fn split_on(s: &str, sep: char) -> (r: Vec<String>)
    ensures
        r@.map_values(|x: String| x@) == spec_split(s@, sep),
{
    let v = crate::text::chars_of(s);
    let mut done: Vec<String> = Vec::new();
    let mut cur: Vec<char> = Vec::new();
    let mut i: usize = 0;
    while i < v.len()
        invariant
            i <= v@.len(),
            v@ == s@,
            (done@.map_values(|x: String| x@), cur@) == split_state(v@.take(i as int), sep),
        decreases v.len() - i,
    {
        proof {
            assert(v@.take(i + 1).drop_last() =~= v@.take(i as int));
            assert(v@.take(i + 1).last() == v@[i as int]);
        }
        let c = v[i];
        if c == sep {
            let piece = string_from_chars(cur.as_slice());
            let ghost before = done@.map_values(|x: String| x@);
            done.push(piece);
            proof {
                assert(done@.map_values(|x: String| x@) =~= before.push(cur@));
            }
            cur = Vec::new();
            proof {
                assert(cur@ =~= Seq::<char>::empty());
            }
        } else {
            cur.push(c);
        }
        i = i + 1;
    }
    proof {
        assert(v@.take(v@.len() as int) =~= v@);
    }
    let last = string_from_chars(cur.as_slice());
    let ghost before = done@.map_values(|x: String| x@);
    done.push(last);
    proof {
        assert(done@.map_values(|x: String| x@) =~= before.push(cur@));
    }
    done
}

fn region_field_of(p: &str) -> (r: Option<String>)
    ensures
        ov(r) == region_field(p@),
{
    let t = trim(p);
    if t.as_str().is_empty() || str_eq(t.as_str(), "0") {
        None
    } else {
        Some(t)
    }
}

/// Splits an ip2region record into the fields the API shows.
pub fn parse_ip_region(ip: &str, raw: &str) -> (r: IpRegionResponse)
    ensures
        region_response_view(r) == spec_parse_ip_region(ip@, raw@),
{
    let pieces = split_on(raw, '|');
    let ghost pv = pieces@.map_values(|x: String| x@);
    let ghost parts = spec_split(raw@, '|').map_values(|p: Seq<char>| region_field(p));
    let mut fields: Vec<Option<String>> = Vec::new();
    let mut cleaned: Vec<String> = Vec::new();
    let mut i: usize = 0;
    proof {
        assert(parts.take(0) =~= Seq::<Option<Seq<char>>>::empty());
    }
    while i < pieces.len()
        invariant
            i <= pieces@.len(),
            pv == pieces@.map_values(|x: String| x@),
            pv == spec_split(raw@, '|'),
            parts == pv.map_values(|p: Seq<char>| region_field(p)),
            fields@.map_values(|o: Option<String>| ov(o)) == parts.take(i as int),
            cleaned@.map_values(|x: String| x@) == present(parts.take(i as int)),
        decreases pieces.len() - i,
    {
        let f = region_field_of(pieces[i].as_str());
        proof {
            assert(parts.take(i + 1).drop_last() =~= parts.take(i as int));
            assert(parts.take(i + 1).last() == parts[i as int]);
        }
        let ghost fb = fields@.map_values(|o: Option<String>| ov(o));
        let ghost cb = cleaned@.map_values(|x: String| x@);
        match &f {
            Some(v) => {
                cleaned.push(v.clone());
                proof {
                    assert(cleaned@.map_values(|x: String| x@) =~= cb.push(v@));
                }
            },
            None => {},
        }
        fields.push(f);
        proof {
            assert(fields@.map_values(|o: Option<String>| ov(o)) =~= parts.take(i + 1));
        }
        i = i + 1;
    }
    proof {
        assert(parts.take(parts.len() as int) =~= parts);
    }
    let country = if fields.len() > 0 {
        clone_opt(&fields[0])
    } else {
        None
    };
    let ghost cv = cleaned@.map_values(|x: String| x@);
    let n = cleaned.len();
    let drop_code = if n > 1 {
        let last = crate::text::chars_of(cleaned[n - 1].as_str());
        last.len() == 2 && 'A' <= last[0] && last[0] <= 'Z' && 'A' <= last[1] && last[1] <= 'Z'
    } else {
        false
    };
    let mut display = cleaned;
    if drop_code {
        display.pop();
    }
    let ghost dv = display@.map_values(|x: String| x@);
    proof {
        assert(dv =~= display_fields(cv));
    }
    let region = if display.len() == 0 {
        None
    } else {
        Some(crate::engine::join_texts(&display, " "))
    };
    let province = if display.len() > 1 {
        Some(display[1].clone())
    } else {
        None
    };
    let city = if display.len() > 2 {
        Some(display[2].clone())
    } else {
        None
    };
    let isp = if display.len() > 0 {
        Some(display[display.len() - 1].clone())
    } else {
        None
    };
    proof {
        assert(crate::route::strs(display@) =~= dv);
    }
    IpRegionResponse {
        ip: owned(ip),
        region,
        country,
        province,
        city,
        isp,
        raw: Some(owned(raw)),
    }
}

/// A custom region by its fields.
pub struct RegionView {
    pub id: Seq<char>,
    pub cidr: Seq<char>,
    pub name: Seq<char>,
    pub note: Seq<char>,
    pub enabled: bool,
    pub deleted: bool,
    pub created_at: Seq<char>,
}

impl View for CustomIpRegion {
    type V = RegionView;

    open spec fn view(&self) -> RegionView {
        RegionView {
            id: self.id@,
            cidr: self.cidr@,
            name: self.name@,
            note: self.note@,
            enabled: self.enabled,
            deleted: self.deleted,
            created_at: self.created_at@,
        }
    }
}

pub open spec fn regions_view(v: Seq<CustomIpRegion>) -> Seq<RegionView> {
    v.map_values(|r: CustomIpRegion| r@)
}

fn region_copy(r: &CustomIpRegion) -> (c: CustomIpRegion)
    ensures
        c@ == r@,
{
    CustomIpRegion {
        id: r.id.clone(),
        cidr: r.cidr.clone(),
        name: r.name.clone(),
        note: r.note.clone(),
        enabled: r.enabled,
        deleted: r.deleted,
        created_at: r.created_at.clone(),
    }
}

/// The built-in networks, stamped with the given creation time.
pub open spec fn spec_default_regions(created_at: Seq<char>) -> Seq<RegionView> {
    seq![
        RegionView {
            id: "builtin-0"@,
            cidr: "172.18.0.0/17"@,
            name: "172.18.0.0/17"@,
            note: "内置自定义网段"@,
            enabled: true,
            deleted: false,
            created_at,
        },
        RegionView {
            id: "builtin-1"@,
            cidr: "172.28.128.0/19"@,
            name: "172.28.128.0/19"@,
            note: "内置自定义网段"@,
            enabled: true,
            deleted: false,
            created_at,
        },
        RegionView {
            id: "builtin-2"@,
            cidr: "2.0.0.0/8"@,
            name: "2.0.0.0/8"@,
            note: "内置自定义网段"@,
            enabled: true,
            deleted: false,
            created_at,
        },
    ]
}

fn builtin(id: &str, cidr: &str, created_at: &str) -> (r: CustomIpRegion)
    ensures
        r@ == (RegionView {
            id: id@,
            cidr: cidr@,
            name: cidr@,
            note: "内置自定义网段"@,
            enabled: true,
            deleted: false,
            created_at: created_at@,
        }),
{
    CustomIpRegion {
        id: owned(id),
        cidr: owned(cidr),
        name: owned(cidr),
        note: owned("内置自定义网段"),
        enabled: true,
        deleted: false,
        created_at: owned(created_at),
    }
}

pub fn default_custom_ip_regions(created_at: &str) -> (r: Vec<CustomIpRegion>)
    ensures
        regions_view(r@) == spec_default_regions(created_at@),
{
    let mut v: Vec<CustomIpRegion> = Vec::new();
    v.push(builtin("builtin-0", "172.18.0.0/17", created_at));
    v.push(builtin("builtin-1", "172.28.128.0/19", created_at));
    v.push(builtin("builtin-2", "2.0.0.0/8", created_at));
    proof {
        assert(regions_view(v@) =~= spec_default_regions(created_at@));
    }
    v
}

/// The stored regions with every built-in one added whose network and id are both new.
pub open spec fn spec_merge_default_regions(rules: Seq<RegionView>, defaults: Seq<RegionView>) -> Seq<RegionView> {
    rules + defaults.filter(
        |d: RegionView|
            !rules.map_values(|r: RegionView| r.cidr).contains(d.cidr) && !rules.map_values(
                |r: RegionView| r.id,
            ).contains(d.id),
    )
}

fn has_cidr(rules: &Vec<CustomIpRegion>, cidr: &str) -> (r: bool)
    ensures
        r == regions_view(rules@).map_values(|x: RegionView| x.cidr).contains(cidr@),
{
    let ghost cs = regions_view(rules@).map_values(|x: RegionView| x.cidr);
    let mut i: usize = 0;
    while i < rules.len()
        invariant
            i <= rules@.len(),
            cs == regions_view(rules@).map_values(|x: RegionView| x.cidr),
            forall|k: int| 0 <= k < i ==> cs[k] != cidr@,
        decreases rules.len() - i,
    {
        if str_eq(rules[i].cidr.as_str(), cidr) {
            assert(cs[i as int] == cidr@);
            return true;
        }
        i = i + 1;
    }
    false
}

fn has_id(rules: &Vec<CustomIpRegion>, id: &str) -> (r: bool)
    ensures
        r == regions_view(rules@).map_values(|x: RegionView| x.id).contains(id@),
{
    let ghost cs = regions_view(rules@).map_values(|x: RegionView| x.id);
    let mut i: usize = 0;
    while i < rules.len()
        invariant
            i <= rules@.len(),
            cs == regions_view(rules@).map_values(|x: RegionView| x.id),
            forall|k: int| 0 <= k < i ==> cs[k] != id@,
        decreases rules.len() - i,
    {
        if str_eq(rules[i].id.as_str(), id) {
            assert(cs[i as int] == id@);
            return true;
        }
        i = i + 1;
    }
    false
}

/// Adds the built-in regions the stored ones do not already cover.
pub fn merge_default_regions(rules: Vec<CustomIpRegion>, defaults: Vec<CustomIpRegion>) -> (r: Vec<CustomIpRegion>)
    ensures
        regions_view(r@) == spec_merge_default_regions(regions_view(rules@), regions_view(defaults@)),
{
    let ghost rv = regions_view(rules@);
    let ghost dv = regions_view(defaults@);
    let mut extra: Vec<CustomIpRegion> = Vec::new();
    let mut i: usize = 0;
    proof {
        reveal_with_fuel(Seq::filter, 1);
        assert(dv.take(0) =~= Seq::<RegionView>::empty());
    }
    while i < defaults.len()
        invariant
            i <= defaults@.len(),
            rv == regions_view(rules@),
            dv == regions_view(defaults@),
            regions_view(extra@) == dv.take(i as int).filter(
                |d: RegionView|
                    !rv.map_values(|r: RegionView| r.cidr).contains(d.cidr) && !rv.map_values(
                        |r: RegionView| r.id,
                    ).contains(d.id),
            ),
        decreases defaults.len() - i,
    {
        let d = &defaults[i];
        let keep = !has_cidr(&rules, d.cidr.as_str()) && !has_id(&rules, d.id.as_str());
        let ghost before = regions_view(extra@);
        proof {
            assert(dv.take(i + 1).drop_last() =~= dv.take(i as int));
            reveal_with_fuel(Seq::filter, 1);
        }
        if keep {
            extra.push(region_copy(d));
            proof {
                assert(regions_view(extra@) =~= before.push(d@));
            }
        }
        i = i + 1;
    }
    proof {
        assert(dv.take(dv.len() as int) =~= dv);
    }
    let mut out = rules;
    let mut j: usize = 0;
    let ghost base = regions_view(out@);
    while j < extra.len()
        invariant
            j <= extra@.len(),
            regions_view(out@) == base + regions_view(extra@).take(j as int),
        decreases extra.len() - j,
    {
        let ghost before = regions_view(out@);
        out.push(region_copy(&extra[j]));
        proof {
            assert(regions_view(out@) =~= before.push(extra@[j as int]@));
            assert(regions_view(extra@).take(j + 1) =~= regions_view(extra@).take(j as int).push(
                extra@[j as int]@,
            ));
        }
        j = j + 1;
    }
    proof {
        assert(regions_view(extra@).take(extra@.len() as int) =~= regions_view(extra@));
    }
    out
}

/// The stored regions without any of the same network, then the new one.
pub open spec fn spec_upsert_region(rules: Seq<RegionView>, rule: RegionView) -> Seq<RegionView> {
    rules.filter(|r: RegionView| r.cidr != rule.cidr).push(rule)
}

/// Adds a region, replacing any region of the same network.
pub fn upsert_custom_region(rules: Vec<CustomIpRegion>, rule: CustomIpRegion) -> (r: Vec<CustomIpRegion>)
    ensures
        regions_view(r@) == spec_upsert_region(regions_view(rules@), rule@),
{
    let ghost rv = regions_view(rules@);
    let ghost cidr = rule.cidr@;
    let mut out: Vec<CustomIpRegion> = Vec::new();
    let mut i: usize = 0;
    proof {
        reveal_with_fuel(Seq::filter, 1);
        assert(rv.take(0) =~= Seq::<RegionView>::empty());
    }
    while i < rules.len()
        invariant
            i <= rules@.len(),
            rv == regions_view(rules@),
            cidr == rule.cidr@,
            regions_view(out@) == rv.take(i as int).filter(|r: RegionView| r.cidr != cidr),
        decreases rules.len() - i,
    {
        let ghost before = regions_view(out@);
        proof {
            assert(rv.take(i + 1).drop_last() =~= rv.take(i as int));
            reveal_with_fuel(Seq::filter, 1);
        }
        if !str_eq(rules[i].cidr.as_str(), rule.cidr.as_str()) {
            out.push(region_copy(&rules[i]));
            proof {
                assert(regions_view(out@) =~= before.push(rules@[i as int]@));
            }
        }
        i = i + 1;
    }
    proof {
        assert(rv.take(rv.len() as int) =~= rv);
    }
    let ghost before = regions_view(out@);
    let ghost rule_v = rule@;
    out.push(rule);
    proof {
        assert(regions_view(out@) =~= before.push(rule_v));
    }
    out
}

/// The first region with the id that is not deleted.
pub open spec fn active_region_index(rules: Seq<RegionView>, id: Seq<char>) -> Option<int> {
    if exists|i: int| 0 <= i < rules.len() && rules[i].id == id && !rules[i].deleted {
        Some(
            choose|i: int|
                0 <= i < rules.len() && rules[i].id == id && !rules[i].deleted && forall|j: int|
                    0 <= j < i ==> !(rules[j].id == id && !rules[j].deleted),
        )
    } else {
        None
    }
}

fn find_active_region(rules: &Vec<CustomIpRegion>, id: &str) -> (r: Option<usize>)
    ensures
        match r {
            Some(i) => i < rules@.len() && active_region_index(regions_view(rules@), id@) == Some(
                i as int,
            ),
            None => active_region_index(regions_view(rules@), id@) is None,
        },
{
    let ghost rv = regions_view(rules@);
    let mut i: usize = 0;
    while i < rules.len()
        invariant
            i <= rules@.len(),
            rv == regions_view(rules@),
            forall|j: int| 0 <= j < i ==> !(rv[j].id == id@ && !rv[j].deleted),
        decreases rules.len() - i,
    {
        if str_eq(rules[i].id.as_str(), id) && !rules[i].deleted {
            proof {
                let c = active_region_index(rv, id@)->0;
                assert(rv[i as int].id == id@ && !rv[i as int].deleted);
                if c < i {
                    assert(!(rv[c].id == id@ && !rv[c].deleted));
                }
                if c > i {
                    assert(!(rv[i as int].id == id@ && !rv[i as int].deleted));
                }
            }
            return Some(i);
        }
        i = i + 1;
    }
    proof {
        if exists|k: int| 0 <= k < rv.len() && rv[k].id == id@ && !rv[k].deleted {
            let k = choose|k: int| 0 <= k < rv.len() && rv[k].id == id@ && !rv[k].deleted;
            assert(!(rv[k].id == id@ && !rv[k].deleted));
        }
    }
    None
}

pub open spec fn region_not_found(id: Seq<char>) -> Seq<char> {
    "custom ip region not found: "@ + id
}

/// Deleting a region: a built-in one is kept, marked deleted and disabled; another is
/// removed; an unknown (or already deleted) id is refused.
pub open spec fn spec_delete_region(rules: Seq<RegionView>, id: Seq<char>) -> Result<Seq<RegionView>, Seq<char>> {
    match active_region_index(rules, id) {
        None => Err(region_not_found(id)),
        Some(i) => if crate::text::seq_starts_with(rules[i].id, "builtin-"@) {
            Ok(rules.update(i, RegionView { deleted: true, enabled: false, ..rules[i] }))
        } else {
            Ok(rules.remove(i))
        },
    }
}

pub fn delete_custom_region(rules: Vec<CustomIpRegion>, id: &str) -> (r: Result<Vec<CustomIpRegion>, String>)
    ensures
        match r {
            Ok(v) => spec_delete_region(regions_view(rules@), id@) == Ok::<Seq<RegionView>, Seq<char>>(
                regions_view(v@),
            ),
            Err(e) => spec_delete_region(regions_view(rules@), id@) == Err::<Seq<RegionView>, Seq<char>>(
                e@,
            ),
        },
{
    let index = match find_active_region(&rules, id) {
        Some(i) => i,
        None => {
            return Err(concat("custom ip region not found: ", id));
        },
    };
    let ghost rv = regions_view(rules@);
    let mut rules = rules;
    if crate::text::str_starts_with(rules[index].id.as_str(), "builtin-") {
        let mut updated = region_copy(&rules[index]);
        updated.deleted = true;
        updated.enabled = false;
        let ghost uv = updated@;
        rules.set(index, updated);
        proof {
            assert(regions_view(rules@) =~= rv.update(index as int, uv));
        }
        Ok(rules)
    } else {
        rules.remove(index);
        proof {
            assert(regions_view(rules@) =~= rv.remove(index as int));
        }
        Ok(rules)
    }
}

/// Devices by their fields.
pub struct DeviceView {
    pub id: Seq<char>,
    pub name: Seq<char>,
    pub host: Seq<char>,
    pub protocol: Seq<char>,
    pub port: u16,
    pub note: Seq<char>,
    pub enabled: bool,
    pub created_at: Seq<char>,
}

impl View for FirewallDevice {
    type V = DeviceView;

    open spec fn view(&self) -> DeviceView {
        DeviceView {
            id: self.id@,
            name: self.name@,
            host: self.host@,
            protocol: self.protocol@,
            port: self.port,
            note: self.note@,
            enabled: self.enabled,
            created_at: self.created_at@,
        }
    }
}

pub open spec fn devices_view(v: Seq<FirewallDevice>) -> Seq<DeviceView> {
    v.map_values(|d: FirewallDevice| d@)
}

fn device_copy(d: &FirewallDevice) -> (c: FirewallDevice)
    ensures
        c@ == d@,
{
    FirewallDevice {
        id: d.id.clone(),
        name: d.name.clone(),
        host: d.host.clone(),
        protocol: d.protocol.clone(),
        port: d.port,
        note: d.note.clone(),
        enabled: d.enabled,
        created_at: d.created_at.clone(),
    }
}

pub open spec fn device_not_found(id: Seq<char>) -> Seq<char> {
    "device not found: "@ + id
}

/// Deleting a device removes every device with the id; none is an error.
pub open spec fn spec_delete_device(devices: Seq<DeviceView>, id: Seq<char>) -> Result<Seq<DeviceView>, Seq<char>> {
    let kept = devices.filter(|d: DeviceView| d.id != id);
    if kept.len() == devices.len() {
        Err(device_not_found(id))
    } else {
        Ok(kept)
    }
}

pub fn delete_device(devices: Vec<FirewallDevice>, id: &str) -> (r: Result<Vec<FirewallDevice>, String>)
    ensures
        match r {
            Ok(v) => spec_delete_device(devices_view(devices@), id@) == Ok::<Seq<DeviceView>, Seq<char>>(
                devices_view(v@),
            ),
            Err(e) => spec_delete_device(devices_view(devices@), id@) == Err::<Seq<DeviceView>, Seq<char>>(
                e@,
            ),
        },
{
    let ghost dv = devices_view(devices@);
    let ghost idv = id@;
    let mut out: Vec<FirewallDevice> = Vec::new();
    let mut i: usize = 0;
    proof {
        reveal_with_fuel(Seq::filter, 1);
        assert(dv.take(0) =~= Seq::<DeviceView>::empty());
    }
    while i < devices.len()
        invariant
            i <= devices@.len(),
            dv == devices_view(devices@),
            idv == id@,
            devices_view(out@) == dv.take(i as int).filter(|d: DeviceView| d.id != idv),
        decreases devices.len() - i,
    {
        let ghost before = devices_view(out@);
        proof {
            assert(dv.take(i + 1).drop_last() =~= dv.take(i as int));
            reveal_with_fuel(Seq::filter, 1);
        }
        if !str_eq(devices[i].id.as_str(), id) {
            out.push(device_copy(&devices[i]));
            proof {
                assert(devices_view(out@) =~= before.push(devices@[i as int]@));
            }
        }
        i = i + 1;
    }
    proof {
        assert(dv.take(dv.len() as int) =~= dv);
    }
    if out.len() == devices.len() {
        return Err(concat("device not found: ", id));
    }
    Ok(out)
}

/// Updating a device: the first device with the id takes the new fields (its id and
/// creation time stay); an unknown id is an error.
pub open spec fn device_index(devices: Seq<DeviceView>, id: Seq<char>) -> Option<int> {
    if exists|i: int| 0 <= i < devices.len() && devices[i].id == id {
        Some(
            choose|i: int|
                0 <= i < devices.len() && devices[i].id == id && forall|j: int|
                    0 <= j < i ==> devices[j].id != id,
        )
    } else {
        None
    }
}

pub open spec fn spec_update_device(
    devices: Seq<DeviceView>,
    id: Seq<char>,
    fields: (Seq<char>, Seq<char>, Seq<char>, u16, Seq<char>),
    enabled: bool,
) -> Result<(Seq<DeviceView>, DeviceView), Seq<char>> {
    match device_index(devices, id) {
        None => Err(device_not_found(id)),
        Some(i) => {
            let d = DeviceView {
                name: fields.0,
                host: fields.1,
                protocol: fields.2,
                port: fields.3,
                note: fields.4,
                enabled,
                ..devices[i]
            };
            Ok((devices.update(i, d), d))
        },
    }
}

pub fn update_device(
    devices: Vec<FirewallDevice>,
    id: &str,
    fields: (String, String, String, u16, String),
    enabled: bool,
) -> (r: Result<(Vec<FirewallDevice>, FirewallDevice), String>)
    ensures
        match r {
            Ok((v, d)) => spec_update_device(
                devices_view(devices@),
                id@,
                (fields.0@, fields.1@, fields.2@, fields.3, fields.4@),
                enabled,
            ) == Ok::<(Seq<DeviceView>, DeviceView), Seq<char>>((devices_view(v@), d@)),
            Err(e) => spec_update_device(
                devices_view(devices@),
                id@,
                (fields.0@, fields.1@, fields.2@, fields.3, fields.4@),
                enabled,
            ) == Err::<(Seq<DeviceView>, DeviceView), Seq<char>>(e@),
        },
{
    let ghost dv = devices_view(devices@);
    let mut i: usize = 0;
    while i < devices.len()
        invariant
            i <= devices@.len(),
            dv == devices_view(devices@),
            forall|j: int| 0 <= j < i ==> dv[j].id != id@,
        decreases devices.len() - i,
    {
        if str_eq(devices[i].id.as_str(), id) {
            proof {
                let c = device_index(dv, id@)->0;
                assert(dv[i as int].id == id@);
                if c < i {
                    assert(dv[c].id != id@);
                }
                if c > i {
                    assert(dv[i as int].id != id@);
                }
            }
            let (name, host, protocol, port, note) = fields;
            let mut devices = devices;
            let mut d = device_copy(&devices[i]);
            d.name = name;
            d.host = host;
            d.protocol = protocol;
            d.port = port;
            d.note = note;
            d.enabled = enabled;
            let updated = device_copy(&d);
            let ghost nv = d@;
            devices.set(i, d);
            proof {
                assert(devices_view(devices@) =~= dv.update(i as int, nv));
            }
            return Ok((devices, updated));
        }
        i = i + 1;
    }
    proof {
        if exists|k: int| 0 <= k < dv.len() && dv[k].id == id@ {
            let k = choose|k: int| 0 <= k < dv.len() && dv[k].id == id@;
            assert(dv[k].id != id@);
        }
    }
    Err(concat("device not found: ", id))
}

/// The first region with the id, deleted or not.
pub open spec fn region_id_index(rules: Seq<RegionView>, id: Seq<char>) -> Option<int> {
    if exists|i: int| 0 <= i < rules.len() && rules[i].id == id {
        Some(
            choose|i: int|
                0 <= i < rules.len() && rules[i].id == id && forall|j: int|
                    0 <= j < i ==> rules[j].id != id,
        )
    } else {
        None
    }
}

/// Updating a region: refused for an unknown (or deleted) id; else other regions of the new
/// network are dropped and the first region with the id takes the new fields, is no longer
/// deleted, and keeps the creation time of the region found.
pub open spec fn spec_update_region(
    rules: Seq<RegionView>,
    id: Seq<char>,
    fields: (Seq<char>, Seq<char>, Seq<char>),
    enabled: bool,
) -> Result<(Seq<RegionView>, RegionView), Seq<char>> {
    match active_region_index(rules, id) {
        None => Err(region_not_found(id)),
        Some(i) => {
            let kept = rules.filter(|r: RegionView| r.id == id || r.cidr != fields.0);
            match region_id_index(kept, id) {
                None => Err(region_not_found(id)),
                Some(j) => {
                    let r = RegionView {
                        cidr: fields.0,
                        name: fields.1,
                        note: fields.2,
                        enabled,
                        deleted: false,
                        created_at: rules[i].created_at,
                        ..kept[j]
                    };
                    Ok((kept.update(j, r), r))
                },
            }
        },
    }
}

fn find_region_id(rules: &Vec<CustomIpRegion>, id: &str) -> (r: Option<usize>)
    ensures
        match r {
            Some(i) => i < rules@.len() && region_id_index(regions_view(rules@), id@) == Some(i as int),
            None => region_id_index(regions_view(rules@), id@) is None,
        },
{
    let ghost rv = regions_view(rules@);
    let mut i: usize = 0;
    while i < rules.len()
        invariant
            i <= rules@.len(),
            rv == regions_view(rules@),
            forall|j: int| 0 <= j < i ==> rv[j].id != id@,
        decreases rules.len() - i,
    {
        if str_eq(rules[i].id.as_str(), id) {
            proof {
                let c = region_id_index(rv, id@)->0;
                assert(rv[i as int].id == id@);
                if c < i {
                    assert(rv[c].id != id@);
                }
                if c > i {
                    assert(rv[i as int].id != id@);
                }
            }
            return Some(i);
        }
        i = i + 1;
    }
    proof {
        if exists|k: int| 0 <= k < rv.len() && rv[k].id == id@ {
            let k = choose|k: int| 0 <= k < rv.len() && rv[k].id == id@;
            assert(rv[k].id != id@);
        }
    }
    None
}

fn regions_kept_for(rules: &Vec<CustomIpRegion>, id: &str, cidr: &str) -> (r: Vec<CustomIpRegion>)
    ensures
        regions_view(r@) == regions_view(rules@).filter(|x: RegionView| x.id == id@ || x.cidr != cidr@),
{
    let ghost rv = regions_view(rules@);
    let mut kept: Vec<CustomIpRegion> = Vec::new();
    let mut i: usize = 0;
    proof {
        reveal_with_fuel(Seq::filter, 1);
        assert(rv.take(0) =~= Seq::<RegionView>::empty());
    }
    while i < rules.len()
        invariant
            i <= rules@.len(),
            rv == regions_view(rules@),
            regions_view(kept@) == rv.take(i as int).filter(|x: RegionView| x.id == id@ || x.cidr != cidr@),
        decreases rules.len() - i,
    {
        let ghost before = regions_view(kept@);
        proof {
            assert(rv.take(i + 1).drop_last() =~= rv.take(i as int));
            reveal_with_fuel(Seq::filter, 1);
        }
        if str_eq(rules[i].id.as_str(), id) || !str_eq(rules[i].cidr.as_str(), cidr) {
            kept.push(region_copy(&rules[i]));
            proof {
                assert(regions_view(kept@) =~= before.push(rules@[i as int]@));
            }
        }
        i = i + 1;
    }
    proof {
        assert(rv.take(rv.len() as int) =~= rv);
    }
    kept
}

pub fn update_custom_region(
    rules: Vec<CustomIpRegion>,
    id: &str,
    fields: (String, String, String),
    enabled: bool,
) -> (r: Result<(Vec<CustomIpRegion>, CustomIpRegion), String>)
    ensures
        match r {
            Ok((v, x)) => spec_update_region(
                regions_view(rules@),
                id@,
                (fields.0@, fields.1@, fields.2@),
                enabled,
            ) == Ok::<(Seq<RegionView>, RegionView), Seq<char>>((regions_view(v@), x@)),
            Err(e) => spec_update_region(
                regions_view(rules@),
                id@,
                (fields.0@, fields.1@, fields.2@),
                enabled,
            ) == Err::<(Seq<RegionView>, RegionView), Seq<char>>(e@),
        },
{
    let index = match find_active_region(&rules, id) {
        Some(i) => i,
        None => {
            return Err(concat("custom ip region not found: ", id));
        },
    };
    let created_at = rules[index].created_at.clone();
    let (cidr, name, note) = fields;
    let mut kept = regions_kept_for(&rules, id, cidr.as_str());
    let j = match find_region_id(&kept, id) {
        Some(j) => j,
        None => {
            return Err(concat("custom ip region not found: ", id));
        },
    };
    let ghost kv = regions_view(kept@);
    let mut r = region_copy(&kept[j]);
    r.cidr = cidr;
    r.name = name;
    r.note = note;
    r.enabled = enabled;
    r.deleted = false;
    r.created_at = created_at;
    let updated = region_copy(&r);
    let ghost nv = r@;
    kept.set(j, r);
    proof {
        assert(regions_view(kept@) =~= kv.update(j as int, nv));
    }
    Ok((kept, updated))
}

/// Whether a request may go on. With no token, or an empty one, every route is open; routes
/// outside `/api/` are always open; an `/api/` route needs the header
/// `Authorization: Bearer <token>`. `authorization` is the header as text, `None` when it is
/// missing or not visible ASCII.
pub open spec fn spec_request_authorized(
    api_token: Option<Seq<char>>,
    path: Seq<char>,
    authorization: Option<Seq<char>>,
) -> bool {
    match api_token {
        None => true,
        Some(t) => t.len() == 0 || !crate::text::seq_starts_with(path, "/api/"@)
            || authorization == Some("Bearer "@ + t),
    }
}

pub fn request_authorized(api_token: Option<&str>, path: &str, authorization: Option<&str>) -> (r: bool)
    ensures
        r == spec_request_authorized(
            match api_token {
                Some(t) => Some(t@),
                None => None,
            },
            path@,
            match authorization {
                Some(a) => Some(a@),
                None => None,
            },
        ),
{
    let token = match api_token {
        None => {
            return true;
        },
        Some(t) => t,
    };
    if token.is_empty() || !crate::text::str_starts_with(path, "/api/") {
        return true;
    }
    match authorization {
        None => false,
        Some(a) => {
            let expected = concat("Bearer ", token);
            str_eq(a, expected.as_str())
        },
    }
}

/// A path that is the directory itself or lies below it; both are canonical paths (absolute,
/// without `.`/`..` parts, repeated or trailing separators), where this is `Path::starts_with`.
pub open spec fn spec_path_within(dir: Seq<char>, path: Seq<char>) -> bool {
    path == dir || (crate::text::seq_ends_with(dir, "/"@) && crate::text::seq_starts_with(path, dir))
        || crate::text::seq_starts_with(path, dir + "/"@)
}

/// A frozen archive path outside the frozen directory.
#[derive(Debug)]
pub struct OutsideFrozenDir;

/// Accepts a canonical archive path only when it lies in the canonical frozen directory.
pub fn checked_frozen_path(frozen_dir: &str, input_path: &str) -> (r: Result<String, OutsideFrozenDir>)
    ensures
        spec_path_within(frozen_dir@, input_path@) ==> (r matches Ok(p) && p@ == input_path@),
        !spec_path_within(frozen_dir@, input_path@) ==> r is Err,
{
    let within = str_eq(input_path, frozen_dir) || (str_ends_with(frozen_dir, "/")
        && crate::text::str_starts_with(input_path, frozen_dir)) || {
        let below = concat(frozen_dir, "/");
        crate::text::str_starts_with(input_path, below.as_str())
    };
    if within {
        Ok(owned(input_path))
    } else {
        Err(OutsideFrozenDir)
    }
}

/// Whether a query filters nothing: every filter absent and failed events hidden, as in
/// `EventQuery::default()`.
pub open spec fn spec_is_unfiltered(q: EventQuery) -> bool {
    &&& q.day is None
    &&& q.date_from is None
    &&& q.date_to is None
    &&& q.device is None
    &&& q.device_id is None
    &&& q.src_ip is None
    &&& q.dst_ip is None
    &&& q.protocol is None
    &&& q.action is None
    &&& q.keyword is None
    &&& !q.include_failed
}

/// How a search reads the hot database.
#[derive(Debug, Clone, Copy, PartialEq, Eq)]
pub enum SearchPlan {
    /// The most recent events.
    Recent,
    /// The events the filters select.
    Filtered,
}

/// Search over the hot database at a path; the database is opened read-only by the caller.
#[derive(Debug, Clone)]
pub struct NativeSearchBackend {
    duckdb_path: String,
}

impl NativeSearchBackend {
    pub closed spec fn spec_duckdb_path(self) -> Seq<char> {
        self.duckdb_path@
    }

    pub fn new(duckdb_path: String) -> (r: Self)
        ensures
            r.spec_duckdb_path() == duckdb_path@,
    {
        NativeSearchBackend { duckdb_path }
    }

    pub fn duckdb_path(&self) -> (r: &str)
        ensures
            r@ == self.spec_duckdb_path(),
    {
        self.duckdb_path.as_str()
    }

    /// An unfiltered query reads the most recent events; any filter makes a filtered read.
    pub fn plan(&self, query: &EventQuery) -> (r: SearchPlan)
        ensures
            r == if spec_is_unfiltered(*query) {
                SearchPlan::Recent
            } else {
                SearchPlan::Filtered
            },
    {
        if query.day.is_none() && query.date_from.is_none() && query.date_to.is_none()
            && query.device.is_none() && query.device_id.is_none() && query.src_ip.is_none()
            && query.dst_ip.is_none() && query.protocol.is_none() && query.action.is_none()
            && query.keyword.is_none() && !query.include_failed {
            SearchPlan::Recent
        } else {
            SearchPlan::Filtered
        }
    }
}

/// The name of an archive the API writes: `<prefix>-<stamp>.<suffix>`, where the stamp is
/// the time and sequence number the governor stamps archives with.
pub fn archive_file_name(prefix: &str, suffix: &str, now: Timestamp, sequence: u64) -> (r: Option<String>)
    ensures
        r matches Some(n) ==> (crate::governor::spec_archive_stamp(now, sequence) matches Some(st)
            && n@ == prefix@ + "-"@ + st + "."@ + suffix@),
        r is None ==> crate::governor::spec_archive_stamp(now, sequence) is None,
{
    match crate::governor::archive_stamp(now, sequence) {
        None => None,
        Some(stamp) => {
            let a = concat(prefix, "-");
            let b = concat(a.as_str(), stamp.as_str());
            let c = concat(b.as_str(), ".");
            Some(concat(c.as_str(), suffix))
        },
    }
}

/// A custom region that is enabled, not deleted, and whose network holds the address.
#[verifier::opaque]
pub open spec fn region_applies(region: RegionView, ip: Seq<char>) -> bool {
    region.enabled && !region.deleted && spec_custom_region_matches(ip, region.cidr)
}

fn region_applies_exec(region: &CustomIpRegion, ip: &str) -> (r: bool)
    ensures
        r == region_applies(region@, ip@),
{
    proof {
        reveal(region_applies);
    }
    region.enabled && !region.deleted && custom_region_matches(ip, region.cidr.as_str())
}

/// The first custom region that applies to the address.
pub open spec fn first_region_match(regions: Seq<RegionView>, ip: Seq<char>) -> Option<int>
    decreases regions.len(),
{
    if regions.len() == 0 {
        None
    } else if region_applies(regions[0], ip) {
        Some(0)
    } else {
        match first_region_match(regions.drop_first(), ip) {
            Some(i) => Some(i + 1),
            None => None,
        }
    }
}

proof fn lemma_first_region_match_bound(regions: Seq<RegionView>, ip: Seq<char>)
    ensures
        first_region_match(regions, ip) matches Some(i) ==> 0 <= i < regions.len(),
    decreases regions.len(),
{
    if regions.len() > 0 {
        lemma_first_region_match_bound(regions.drop_first(), ip);
    }
}

fn find_region_match(regions: &Vec<CustomIpRegion>, ip: &str) -> (r: Option<usize>)
    ensures
        match r {
            Some(i) => first_region_match(regions_view(regions@), ip@) == Some(i as int) && i
                < regions@.len(),
            None => first_region_match(regions_view(regions@), ip@) is None,
        },
{
    let ghost rv = regions_view(regions@);
    let mut i: usize = 0;
    proof {
        assert(rv.skip(0) =~= rv);
    }
    while i < regions.len()
        invariant
            i <= regions@.len(),
            rv == regions_view(regions@),
            first_region_match(rv, ip@) == match first_region_match(rv.skip(i as int), ip@) {
                Some(k) => Some(k + i),
                None => None,
            },
        decreases regions.len() - i,
    {
        proof {
            assert(rv.skip(i as int).drop_first() =~= rv.skip(i + 1));
            assert(rv.skip(i as int)[0] == rv[i as int]);
        }
        if region_applies_exec(&regions[i], ip) {
            return Some(i);
        }
        i = i + 1;
    }
    proof {
        assert(rv.skip(i as int) =~= Seq::<RegionView>::empty());
    }
    None
}

/// What an IP region request comes to before any lookup.
pub enum IpRegionStepView {
    BadRequest(Seq<char>),
    Answer((Seq<char>, Option<Seq<char>>, Option<Seq<char>>, Option<Seq<char>>, Option<Seq<char>>, Option<Seq<char>>, Option<Seq<char>>)),
    Lookup(Seq<char>),
}

/// What an IP region request comes to: a bad request, an answer from a custom region, or a
/// lookup of an IPv4 address in the cache and the region database.
#[derive(Debug)]
pub enum IpRegionStep {
    BadRequest(String),
    Answer(IpRegionResponse),
    Lookup(String),
}

pub open spec fn ip_region_step_view(s: IpRegionStep) -> IpRegionStepView {
    match s {
        IpRegionStep::BadRequest(m) => IpRegionStepView::BadRequest(m@),
        IpRegionStep::Answer(r) => IpRegionStepView::Answer(region_response_view(r)),
        IpRegionStep::Lookup(ip) => IpRegionStepView::Lookup(ip@),
    }
}

/// The address (trimmed) is required and must be an IP address; the first matching custom
/// region answers with its name and network; otherwise an IPv4 address is looked up and any
/// other address is refused.
pub open spec fn spec_ip_region_step(ip_param: Seq<char>, regions: Seq<RegionView>) -> IpRegionStepView {
    let ip = trim_seq(ip_param);
    if ip.len() == 0 {
        IpRegionStepView::BadRequest("ip query parameter is required"@)
    } else if !crate::ip::spec_is_ip(ip) {
        IpRegionStepView::BadRequest("invalid ip: "@ + ip)
    } else {
        match first_region_match(regions, ip) {
            Some(i) => IpRegionStepView::Answer(
                (ip, Some(regions[i].name), None, None, None, None, Some(regions[i].cidr)),
            ),
            None => if crate::ip::spec_ipv4(ip) is Some {
                IpRegionStepView::Lookup(ip)
            } else {
                IpRegionStepView::BadRequest("invalid ip: "@ + ip)
            },
        }
    }
}

pub fn ip_region_step(ip_param: &str, regions: &Vec<CustomIpRegion>) -> (r: IpRegionStep)
    ensures
        ip_region_step_view(r) == spec_ip_region_step(ip_param@, regions_view(regions@)),
{
    let ip = trim(ip_param);
    if ip.as_str().is_empty() {
        return IpRegionStep::BadRequest(owned("ip query parameter is required"));
    }
    if !crate::ip::is_ip_addr(ip.as_str()) {
        return IpRegionStep::BadRequest(concat("invalid ip: ", ip.as_str()));
    }
    match find_region_match(regions, ip.as_str()) {
        Some(i) => {
            let rule = &regions[i];
            IpRegionStep::Answer(IpRegionResponse {
                ip: ip.clone(),
                region: Some(rule.name.clone()),
                country: None,
                province: None,
                city: None,
                isp: None,
                raw: Some(rule.cidr.clone()),
            })
        },
        None => {
            if crate::ip::parse_ipv4(ip.as_str()).is_some() {
                IpRegionStep::Lookup(ip)
            } else {
                IpRegionStep::BadRequest(concat("invalid ip: ", ip.as_str()))
            }
        },
    }
}

/// A cached lookup as an answer: its fields, and its source as the raw text.
pub fn response_from_cache(entry: crate::store::IpRegionCacheEntry) -> (r: IpRegionResponse)
    ensures
        r.ip == entry.ip,
        r.region == entry.region,
        r.country == entry.country,
        r.province == entry.province,
        r.city == entry.city,
        r.isp == entry.isp,
        r.raw == Some(entry.source),
{
    IpRegionResponse {
        ip: entry.ip,
        region: entry.region,
        country: entry.country,
        province: entry.province,
        city: entry.city,
        isp: entry.isp,
        raw: Some(entry.source),
    }
}

/// The cache entry of a looked-up answer, stamped in RFC 3339: the raw text is its source,
/// `ip2region` when there is none. `None` when chrono cannot represent the time.
pub fn cache_entry_for(response: &IpRegionResponse, now: Timestamp) -> (r: Option<crate::store::IpRegionCacheEntry>)
    ensures
        match r {
            Some(e) => crate::calendar::spec_rfc3339_text(now.secs, now.nanos) == Some(e.updated_at@)
                && e.ip@ == response.ip@ && ov(e.region) == ov(response.region) && ov(e.country)
                == ov(response.country) && ov(e.province) == ov(response.province) && ov(e.city)
                == ov(response.city) && ov(e.isp) == ov(response.isp) && e.source@ == match ov(response.raw) {
                Some(s) => s,
                None => "ip2region"@,
            },
            None => crate::calendar::spec_rfc3339_text(now.secs, now.nanos) is None,
        },
{
    let updated_at = match crate::calendar::rfc3339_text(now) {
        Some(t) => t,
        None => {
            return None;
        },
    };
    Some(crate::store::IpRegionCacheEntry {
        ip: response.ip.clone(),
        region: clone_opt(&response.region),
        country: clone_opt(&response.country),
        province: clone_opt(&response.province),
        city: clone_opt(&response.city),
        isp: clone_opt(&response.isp),
        source: match &response.raw {
            Some(s) => s.clone(),
            None => owned("ip2region"),
        },
        updated_at,
    })
}

/// What a region-name lookup for an event address comes to.
#[derive(Debug)]
pub enum RegionNameStep {
    /// The name is known without a lookup (possibly that there is none).
    Known(Option<String>),
    /// A public IPv4 address to look up, as given.
    Lookup(String),
}

/// A region name for an address: none when it is not an IP address; a matching custom
/// region's name; none for IPv6 and non-public IPv4 addresses; else a lookup of the address
/// as given.
pub fn region_name_step(ip: &str, regions: &Vec<CustomIpRegion>) -> (r: RegionNameStep)
    ensures
        first_region_match(regions_view(regions@), trim_seq(ip@)) matches Some(i) ==> 0 <= i
            < regions@.len(),
        ({
            let t = trim_seq(ip@);
            if !crate::ip::spec_is_ip(t) {
                r matches RegionNameStep::Known(n) && n is None
            } else {
                match first_region_match(regions_view(regions@), t) {
                    Some(i) => r matches RegionNameStep::Known(n) && ov(n) == Some(regions@[i].name@),
                    None => if crate::ip::spec_ipv4(t) is Some && spec_is_public_ipv4(t) {
                        r matches RegionNameStep::Lookup(a) && a@ == ip@
                    } else {
                        r matches RegionNameStep::Known(n) && n is None
                    },
                }
            }
        }),
{
    let t = trim(ip);
    proof {
        lemma_first_region_match_bound(regions_view(regions@), trim_seq(ip@));
    }
    if !crate::ip::is_ip_addr(t.as_str()) {
        return RegionNameStep::Known(None);
    }
    match find_region_match(regions, t.as_str()) {
        Some(i) => RegionNameStep::Known(Some(regions[i].name.clone())),
        None => {
            if crate::ip::parse_ipv4(t.as_str()).is_some() && is_public_ipv4(t.as_str()) {
                RegionNameStep::Lookup(owned(ip))
            } else {
                RegionNameStep::Known(None)
            }
        },
    }
}

/// The day after a calendar day.
pub open spec fn next_day(d: (int, int, int)) -> (int, int, int) {
    if d.2 < days_in_month(d.0, d.1) {
        (d.0, d.1, d.2 + 1)
    } else if d.1 < 12 {
        (d.0, d.1 + 1, 1)
    } else {
        (d.0 + 1, 1, 1)
    }
}

/// The day `k` days after `d`.
pub open spec fn day_after(d: (int, int, int), k: nat) -> (int, int, int)
    decreases k,
{
    if k == 0 {
        d
    } else {
        next_day(day_after(d, (k - 1) as nat))
    }
}

/// The number of days from `start` to `end`, looking no further than `limit` days ahead.
pub open spec fn steps_to(start: (int, int, int), end: (int, int, int), k: nat, limit: nat) -> Option<nat>
    decreases limit - k,
{
    if k >= limit {
        None
    } else if day_after(start, k) == end {
        Some(k)
    } else {
        steps_to(start, end, k + 1, limit)
    }
}

/// A day as `YYYY-MM-DD`.
pub open spec fn day_text(d: (int, int, int)) -> Seq<char> {
    crate::governor::padded_digits(d.0 as nat, 4) + "-"@ + crate::governor::padded_digits(d.1 as nat, 2)
        + "-"@ + crate::governor::padded_digits(d.2 as nat, 2)
}

pub open spec fn range_error_message() -> Seq<char> {
    "date_to must be greater than or equal to date_from"@
}

pub open spec fn range_too_long_message() -> Seq<char> {
    "date range must not exceed 366 days"@
}

/// The days a search spans, one by one, when it gives both ends of a date range: an error
/// when the range runs backwards or covers more than 366 days; no list without both ends.
pub open spec fn spec_query_date_days(date_from: Option<Seq<char>>, date_to: Option<Seq<char>>) -> Result<Option<Seq<Seq<char>>>, Seq<char>> {
    match (opt_day(date_from), opt_day(date_to)) {
        (Some(start), Some(end)) => if date_lt(end, start) {
            Err(range_error_message())
        } else {
            match steps_to(start, end, 0, 366) {
                Some(k) => Ok(Some(Seq::new(k + 1, |i: int| day_text(day_after(start, i as nat))))),
                None => Err(range_too_long_message()),
            }
        },
        _ => Ok(None),
    }
}

proof fn lemma_next_day_not_past(cur: (int, int, int), end: (int, int, int))
    requires
        valid_date(cur.0, cur.1, cur.2),
        valid_date(end.0, end.1, end.2),
        date_lt(cur, end),
    ensures
        !date_lt(end, next_day(cur)),
        valid_date(next_day(cur).0, next_day(cur).1, next_day(cur).2),
{
}

fn days_in_month_exec(y: u32, m: u32) -> (r: u32)
    requires
        1 <= m <= 12,
    ensures
        r == days_in_month(y as int, m as int),
{
    if m == 2 {
        if (y % 4 == 0 && y % 100 != 0) || y % 400 == 0 {
            29
        } else {
            28
        }
    } else if m == 4 || m == 6 || m == 9 || m == 11 {
        30
    } else {
        31
    }
}

fn day_text_exec(d: (u32, u32, u32)) -> (r: String)
    ensures
        r@ == day_text((d.0 as int, d.1 as int, d.2 as int)),
{
    let mut out = String::new();
    crate::governor::push_padded_digits(&mut out, d.0 as u64, 4);
    let a = concat(out.as_str(), "-");
    let mut out = a;
    crate::governor::push_padded_digits(&mut out, d.1 as u64, 2);
    let b = concat(out.as_str(), "-");
    let mut out = b;
    crate::governor::push_padded_digits(&mut out, d.2 as u64, 2);
    out
}

/// The days of a search's date range, as `YYYY-MM-DD`.
pub fn query_date_days(query: &SearchQuery) -> (r: Result<Option<Vec<String>>, String>)
    ensures
        match r {
            Ok(Some(days)) => spec_query_date_days(ov(query.date_from), ov(query.date_to)) == Ok::<
                Option<Seq<Seq<char>>>,
                Seq<char>,
            >(Some(sv(days@))),
            Ok(None) => spec_query_date_days(ov(query.date_from), ov(query.date_to)) == Ok::<
                Option<Seq<Seq<char>>>,
                Seq<char>,
            >(None),
            Err(e) => spec_query_date_days(ov(query.date_from), ov(query.date_to)) == Err::<
                Option<Seq<Seq<char>>>,
                Seq<char>,
            >(e@),
        },
{
    let (start, end) = match (parse_opt_day(&query.date_from), parse_opt_day(&query.date_to)) {
        (Some(s), Some(e)) => (s, e),
        _ => {
            return Ok(None);
        },
    };
    if date_less(end, start) {
        return Err(owned("date_to must be greater than or equal to date_from"));
    }
    let ghost s = (start.0 as int, start.1 as int, start.2 as int);
    let ghost e = (end.0 as int, end.1 as int, end.2 as int);
    let ghost f = |i: int| day_text(day_after(s, i as nat));
    let mut days: Vec<String> = Vec::new();
    let mut cur = start;
    let mut k: usize = 0;
    proof {
        assert(sv(days@) =~= Seq::new(0, f));
    }
    while k < 366
        invariant
            k <= 366,
            s == (start.0 as int, start.1 as int, start.2 as int),
            e == (end.0 as int, end.1 as int, end.2 as int),
            opt_day(ov(query.date_from)) == Some(s),
            opt_day(ov(query.date_to)) == Some(e),
            !date_lt(e, s),
            f == (|i: int| day_text(day_after(s, i as nat))),
            (cur.0 as int, cur.1 as int, cur.2 as int) == day_after(s, k as nat),
            valid_date(cur.0 as int, cur.1 as int, cur.2 as int),
            valid_date(e.0, e.1, e.2),
            !date_lt(e, (cur.0 as int, cur.1 as int, cur.2 as int)),
            steps_to(s, e, 0, 366) == steps_to(s, e, k as nat, 366),
            sv(days@) == Seq::new(k as nat, f),
        decreases 366 - k,
    {
        let text = day_text_exec(cur);
        let ghost before = sv(days@);
        days.push(text);
        proof {
            assert(sv(days@) =~= before.push(f(k as int)));
            assert(Seq::new((k + 1) as nat, f) =~= Seq::new(k as nat, f).push(f(k as int)));
        }
        if cur.0 == end.0 && cur.1 == end.1 && cur.2 == end.2 {
            proof {
                assert(steps_to(s, e, k as nat, 366) == Some(k as nat));
            }
            return Ok(Some(days));
        }
        proof {
            assert(date_lt((cur.0 as int, cur.1 as int, cur.2 as int), e));
            lemma_next_day_not_past((cur.0 as int, cur.1 as int, cur.2 as int), e);
            assert(steps_to(s, e, k as nat, 366) == steps_to(s, e, (k + 1) as nat, 366));
        }
        let dim = days_in_month_exec(cur.0, cur.1);
        cur = if cur.2 < dim {
            (cur.0, cur.1, cur.2 + 1)
        } else if cur.1 < 12 {
            (cur.0, cur.1 + 1, 1)
        } else {
            (cur.0 + 1, 1, 1)
        };
        k = k + 1;
    }
    Err(owned("date range must not exceed 366 days"))
}

/// Which stores a unified search reads.
#[derive(Debug, Clone, Copy, PartialEq, Eq)]
pub struct SearchScope {
    pub hot: bool,
    pub archive: bool,
}

/// How many rows a search still takes from the archives once `hot_rows` rows came from the
/// hot store: none when the scope leaves the archives out or the limit is already reached,
/// else what is left of `limit`.
pub fn archive_rows_wanted(scope: &SearchScope, hot_rows: usize, limit: usize) -> (r: Option<usize>)
    ensures
        r == if scope.archive && hot_rows < limit {
            Some((limit - hot_rows) as usize)
        } else {
            None::<usize>
        },
{
    if hot_rows < limit && scope.archive {
        Some(limit - hot_rows)
    } else {
        None
    }
}

/// The stores of a search scope (any case): `hot`, `archive` or `all`; any other scope is
/// refused.
pub fn search_scope(scope: &str) -> (r: Result<SearchScope, String>)
    ensures
        match r {
            Ok(s) => valid_scope(scope@) && s.hot == (ascii_lower_seq(scope@) != "archive"@) && s.archive
                == (ascii_lower_seq(scope@) != "hot"@),
            Err(e) => !valid_scope(scope@) && e@ == "scope must be hot, archive, or all"@,
        },
{
    let lower = to_ascii_lowercase(scope);
    let l = lower.as_str();
    proof {
        reveal_strlit("all");
        reveal_strlit("hot");
        reveal_strlit("archive");
        assert("all"@.len() != "archive"@.len());
        assert("hot"@.len() != "archive"@.len());
        assert("all"@[0] != "hot"@[0]);
    }
    if str_eq(l, "hot") {
        Ok(SearchScope { hot: true, archive: false })
    } else if str_eq(l, "archive") {
        Ok(SearchScope { hot: false, archive: true })
    } else if str_eq(l, "all") {
        Ok(SearchScope { hot: true, archive: true })
    } else {
        Err(owned("scope must be hot, archive, or all"))
    }
}

/// A search narrowed to one day of its date range.
pub fn day_search_query(query: &SearchQuery, day: String) -> (r: SearchQuery)
    ensures
        r.scope == query.scope,
        ov(r.day) == Some(day@),
        r.date_from is None,
        r.date_to is None,
        ov(r.device) == ov(query.device),
        ov(r.device_id) == ov(query.device_id),
        ov(r.src_ip) == ov(query.src_ip),
        ov(r.dst_ip) == ov(query.dst_ip),
        ov(r.protocol) == ov(query.protocol),
        ov(r.action) == ov(query.action),
        ov(r.keyword) == ov(query.keyword),
        r.include_failed == query.include_failed,
        r.limit == query.limit,
{
    SearchQuery {
        scope: query.scope.clone(),
        day: Some(day),
        date_from: None,
        date_to: None,
        device: clone_opt(&query.device),
        device_id: clone_opt(&query.device_id),
        src_ip: clone_opt(&query.src_ip),
        dst_ip: clone_opt(&query.dst_ip),
        protocol: clone_opt(&query.protocol),
        action: clone_opt(&query.action),
        keyword: clone_opt(&query.keyword),
        include_failed: query.include_failed,
        limit: query.limit,
    }
}


// ---------------------------------------------------------------- device bindings

/// The binding of a device: its id, protocol, host and port.
pub open spec fn binding_view(d: FirewallDevice) -> (Seq<char>, Seq<char>, Seq<char>, u16) {
    (d.id@, d.protocol@, d.host@, d.port)
}

/// The bindings of the enabled devices, in order.
pub open spec fn spec_enabled_bindings(ds: Seq<FirewallDevice>) -> Seq<(Seq<char>, Seq<char>, Seq<char>, u16)>
    decreases ds.len(),
{
    if ds.len() == 0 {
        Seq::empty()
    } else if ds.last().enabled {
        spec_enabled_bindings(ds.drop_last()).push(binding_view(ds.last()))
    } else {
        spec_enabled_bindings(ds.drop_last())
    }
}

/// The view of bindings: id, protocol, host and port of each.
pub open spec fn bindings_view(bs: Seq<crate::store::DeviceBinding>) -> Seq<(Seq<char>, Seq<char>, Seq<char>, u16)> {
    bs.map_values(|b: crate::store::DeviceBinding| (b.id@, b.protocol@, b.host@, b.port))
}

/// The bindings whose source addresses receive device ids: those of the enabled devices.
pub fn enabled_device_bindings(devices: &Vec<FirewallDevice>) -> (r: Vec<crate::store::DeviceBinding>)
    ensures
        bindings_view(r@) == spec_enabled_bindings(devices@),
{
    let mut out: Vec<crate::store::DeviceBinding> = Vec::new();
    let mut i: usize = 0;
    while i < devices.len()
        invariant
            i <= devices@.len(),
            bindings_view(out@) == spec_enabled_bindings(devices@.take(i as int)),
        decreases devices.len() - i,
    {
        proof {
            assert(devices@.take(i + 1).drop_last() =~= devices@.take(i as int));
        }
        let d = &devices[i];
        if d.enabled {
            out.push(crate::store::DeviceBinding {
                id: d.id.clone(),
                protocol: d.protocol.clone(),
                host: d.host.clone(),
                port: d.port,
            });
            proof {
                assert(bindings_view(out@) =~= spec_enabled_bindings(devices@.take(i as int)).push(
                    binding_view(devices@[i as int]),
                ));
            }
        }
        i = i + 1;
    }
    proof {
        assert(devices@.take(i as int) =~= devices@);
    }
    out
}


// ---------------------------------------------------------------- new records

/// The id of a record made at `now`: `<prefix>-<time>-<sequence>`, the time as
/// `%Y%m%d%H%M%S%.6f` in UTC.
pub open spec fn spec_record_id(prefix: Seq<char>, now: Timestamp, sequence: u64) -> Option<Seq<char>> {
    match crate::calendar::spec_utc_compact_text(now.secs, now.nanos) {
        Some(c) => Some(prefix + "-"@ + c + "-"@ + crate::text::decimal_chars(sequence as nat)),
        None => None,
    }
}

/// The message for a time the calendar cannot write.
pub open spec fn time_out_of_range_message() -> Seq<char> {
    "time out of range"@
}

fn record_id(prefix: &str, now: Timestamp, sequence: u64) -> (r: Option<String>)
    ensures
        ov(r) == spec_record_id(prefix@, now, sequence),
{
    match crate::calendar::utc_compact_text(now) {
        Some(c) => {
            let a = concat(prefix, "-");
            let b = concat(a.as_str(), c.as_str());
            let d = concat(b.as_str(), "-");
            let n = crate::text::u64_to_string(sequence);
            Some(concat(d.as_str(), n.as_str()))
        },
        None => None,
    }
}

/// A device made from its input at `now`: the input checked and normalised, the id
/// `dev-<time>-<sequence>`, created at `now` in RFC 3339. A time the calendar cannot write
/// gives "time out of range".
pub fn new_firewall_device(input: &FirewallDeviceInput, now: Timestamp, sequence: u64) -> (r: Result<FirewallDevice, String>)
    ensures
        match spec_normalize_device_input(input.name@, input.host@, input.protocol@, input.port, input.note@) {
            Err(e) => r matches Err(m) && m@ == e,
            Ok((n, h, p, port, t)) => match (
                spec_record_id("dev"@, now, sequence),
                crate::calendar::spec_rfc3339_text(now.secs, now.nanos),
            ) {
                (Some(id), Some(created)) => r matches Ok(d) && d.id@ == id && d.name@ == n && d.host@ == h
                    && d.protocol@ == p && d.port == port && d.note@ == t && d.enabled == input.enabled
                    && d.created_at@ == created,
                _ => r matches Err(m) && m@ == time_out_of_range_message(),
            },
        },
{
    let (name, host, protocol, port, note) = match normalize_device_input(input) {
        Ok(v) => v,
        Err(e) => {
            return Err(e);
        },
    };
    let id = record_id("dev", now, sequence);
    let created = crate::calendar::rfc3339_text(now);
    proof {
        reveal_strlit("time out of range");
    }
    match (id, created) {
        (Some(id), Some(created_at)) => Ok(
            FirewallDevice { id, name, host, protocol, port, note, enabled: input.enabled, created_at },
        ),
        _ => Err(owned("time out of range")),
    }
}

/// A custom region made from its input at `now`: the input checked and trimmed, the id
/// `ipreg-<time>-<sequence>`, not deleted, created at `now` in RFC 3339. A time the
/// calendar cannot write gives "time out of range".
pub fn new_custom_region(input: &CustomIpRegionInput, now: Timestamp, sequence: u64) -> (r: Result<CustomIpRegion, String>)
    ensures
        match spec_normalize_region_input(input.cidr@, input.name@, input.note@) {
            Err(e) => r matches Err(m) && m@ == e,
            Ok((c, n, t)) => match (
                spec_record_id("ipreg"@, now, sequence),
                crate::calendar::spec_rfc3339_text(now.secs, now.nanos),
            ) {
                (Some(id), Some(created)) => r matches Ok(g) && g.id@ == id && g.cidr@ == c && g.name@ == n
                    && g.note@ == t && g.enabled == input.enabled && !g.deleted && g.created_at@ == created,
                _ => r matches Err(m) && m@ == time_out_of_range_message(),
            },
        },
{
    let (cidr, name, note) = match normalize_custom_ip_region_input(input) {
        Ok(v) => v,
        Err(e) => {
            return Err(e);
        },
    };
    let id = record_id("ipreg", now, sequence);
    let created = crate::calendar::rfc3339_text(now);
    proof {
        reveal_strlit("time out of range");
    }
    match (id, created) {
        (Some(id), Some(created_at)) => Ok(
            CustomIpRegion { id, cidr, name, note, enabled: input.enabled, deleted: false, created_at },
        ),
        _ => Err(owned("time out of range")),
    }
}


// ---------------------------------------------------------------- export days

/// The days an export searches the archives for: each day of its date range, or else the
/// one day it names, or else none.
pub open spec fn spec_export_days(query: SearchQuery) -> Result<Seq<Seq<char>>, Seq<char>> {
    match spec_query_date_days(ov(query.date_from), ov(query.date_to)) {
        Ok(Some(days)) => Ok(days),
        Ok(None) => match ov(query.day) {
            Some(d) => Ok(seq![d]),
            None => Ok(Seq::empty()),
        },
        Err(e) => Err(e),
    }
}

pub fn export_days(query: &SearchQuery) -> (r: Result<Vec<String>, String>)
    ensures
        match r {
            Ok(days) => spec_export_days(*query) == Ok::<Seq<Seq<char>>, Seq<char>>(sv(days@)),
            Err(e) => spec_export_days(*query) == Err::<Seq<Seq<char>>, Seq<char>>(e@),
        },
{
    match query_date_days(query) {
        Ok(Some(days)) => Ok(days),
        Ok(None) => match &query.day {
            Some(d) => {
                let mut v: Vec<String> = Vec::new();
                v.push(d.clone());
                proof {
                    assert(sv(v@) =~= seq![d@]);
                }
                Ok(v)
            },
            None => {
                let v: Vec<String> = Vec::new();
                proof {
                    assert(sv(v@) =~= Seq::<Seq<char>>::empty());
                }
                Ok(v)
            },
        },
        Err(e) => Err(e),
    }
}

} // verus!
