//! Hybrid storage: the local hot database always takes writes and recent queries; an optional
//! remote store serves queries that reach further back. The stores are reached by the
//! caller; this module decides where a query goes.
use vstd::prelude::*;
use crate::calendar::{
    parse_date_midnight, parse_rfc3339, parse_utc, spec_parse_date_midnight, spec_parse_rfc3339,
    spec_parse_utc,
};
use crate::event::{ov, Timestamp};
use crate::store::EventQuery;
use crate::text::{owned, str_eq};

verus! {

/// The remote store and how much the local one keeps.
#[derive(Debug, Clone)]
pub struct HybridConfig {
    pub clickhouse_enabled: bool,
    pub clickhouse_url: String,
    pub clickhouse_database: String,
    /// The local database keeps the last `hot_data_hours` hours.
    pub hot_data_hours: i64,
    pub max_concurrent_writes: usize,
}

impl Default for HybridConfig {
    /// Remote off, pointed at `http://localhost:8123` and database `oxidelog`, one hour hot,
    /// sixteen concurrent remote writes.
    fn default() -> (r: Self)
        ensures
            !r.clickhouse_enabled,
            r.clickhouse_url@ == "http://localhost:8123"@,
            r.clickhouse_database@ == "oxidelog"@,
            r.hot_data_hours == 1,
            r.max_concurrent_writes == 16,
    {
        HybridConfig {
            clickhouse_enabled: false,
            clickhouse_url: owned("http://localhost:8123"),
            clickhouse_database: owned("oxidelog"),
            hot_data_hours: 1,
            max_concurrent_writes: 16,
        }
    }
}

/// Event counts of both stores; the remote ones are absent without a remote store or when it
/// did not answer.
#[derive(Debug, Clone)]
pub struct HybridStats {
    pub local_count: u64,
    pub remote_count: Option<u64>,
    pub remote_size_bytes: Option<u64>,
}

/// Whether each store answers.
#[derive(Debug, Clone)]
pub struct HybridHealth {
    pub local_ok: bool,
    pub remote_ok: bool,
    pub remote_enabled: bool,
}

/// The store a query goes to.
#[derive(Debug, Clone, Copy, PartialEq, Eq)]
pub enum QueryTarget {
    Local,
    Remote,
}

/// `a` is strictly earlier than `b`.
pub open spec fn before(a: Timestamp, b: Timestamp) -> bool {
    a.secs < b.secs || (a.secs == b.secs && a.nanos < b.nanos)
}

/// The oldest point the local database still holds: `hours` hours before `now`.
pub open spec fn spec_hot_threshold(now: Timestamp, hours: i64) -> Timestamp {
    Timestamp { secs: (now.secs - hours * 3600) as i64, nanos: now.nanos }
}

pub fn hot_threshold(now: Timestamp, hours: i64) -> (r: Timestamp)
    requires
        -8_000_000_000_000 <= now.secs <= 8_000_000_000_000,
        -8_000_000_000_000 <= now.secs - hours * 3600 <= 8_000_000_000_000,
    ensures
        r == spec_hot_threshold(now, hours),
{
    Timestamp { secs: now.secs - hours * 3600, nanos: now.nanos }
}

/// A query over a time range starting at `start_time` goes to the local database when the
/// range starts inside the hot window, else to the remote store when there is one.
pub open spec fn spec_route_query(start_time: Timestamp, threshold: Timestamp, remote_available: bool) -> QueryTarget {
    if !before(start_time, threshold) {
        QueryTarget::Local
    } else if remote_available {
        QueryTarget::Remote
    } else {
        QueryTarget::Local
    }
}

pub fn route_query(start_time: Timestamp, threshold: Timestamp, remote_available: bool) -> (r: QueryTarget)
    ensures
        r == spec_route_query(start_time, threshold, remote_available),
{
    let is_before = start_time.secs < threshold.secs || (start_time.secs == threshold.secs
        && start_time.nanos < threshold.nanos);
    if !is_before {
        QueryTarget::Local
    } else if remote_available {
        QueryTarget::Remote
    } else {
        QueryTarget::Local
    }
}

/// A date filter as written in a query: RFC 3339, else a `%Y-%m-%d` day at midnight UTC,
/// else `%Y-%m-%d %H:%M:%S` in UTC.
pub open spec fn spec_parse_any_date(text: Seq<char>) -> Option<(i64, u32)> {
    match spec_parse_rfc3339(text) {
        Some(t) => Some(t),
        None => match spec_parse_date_midnight(text, "%Y-%m-%d"@) {
            Some(t) => Some(t),
            None => spec_parse_utc(text, "%Y-%m-%d %H:%M:%S"@),
        },
    }
}

pub fn parse_any_date(text: &str) -> (r: Option<Timestamp>)
    ensures
        r matches Some(t) ==> spec_parse_any_date(text@) == Some((t.secs, t.nanos)),
        r is None ==> spec_parse_any_date(text@) is None,
{
    match parse_rfc3339(text) {
        Some(t) => Some(t),
        None => match parse_date_midnight(text, "%Y-%m-%d") {
            Some(t) => Some(t),
            None => parse_utc(text, "%Y-%m-%d %H:%M:%S"),
        },
    }
}

/// Where a filtered query goes: to the remote store only when it is switched on and the
/// query starts before the hot window (a `date_from` that parses to an earlier point, or,
/// without `date_from`, a `day` other than today); everything else is served locally.
pub open spec fn spec_query_target(
    date_from: Option<Seq<char>>,
    day: Option<Seq<char>>,
    today: Seq<char>,
    threshold: Timestamp,
    remote_available: bool,
    remote_enabled: bool,
) -> QueryTarget {
    let use_remote = match date_from {
        Some(text) => match spec_parse_any_date(text) {
            Some((s, n)) => before(Timestamp { secs: s, nanos: n }, threshold) && remote_available,
            None => false,
        },
        None => match day {
            Some(d) => d != today && remote_available,
            None => false,
        },
    };
    if use_remote && remote_enabled {
        QueryTarget::Remote
    } else {
        QueryTarget::Local
    }
}

/// Chooses the store for an event query; `today` is the current UTC day as `%Y-%m-%d`.
pub fn query_target(
    query: &EventQuery,
    today: &str,
    threshold: Timestamp,
    remote_available: bool,
    remote_enabled: bool,
) -> (r: QueryTarget)
    ensures
        r == spec_query_target(
            ov(query.date_from),
            ov(query.day),
            today@,
            threshold,
            remote_available,
            remote_enabled,
        ),
{
    let use_remote = match &query.date_from {
        Some(text) => match parse_any_date(text.as_str()) {
            Some(t) => (t.secs < threshold.secs || (t.secs == threshold.secs && t.nanos < threshold.nanos))
                && remote_available,
            None => false,
        },
        None => match &query.day {
            Some(d) => !str_eq(d.as_str(), today) && remote_available,
            None => false,
        },
    };
    if use_remote && remote_enabled {
        QueryTarget::Remote
    } else {
        QueryTarget::Local
    }
}

} // verus!
