//! Events as stored rows: the row of the remote column store, where absent values are empty
//! texts and zero ports, and the row read back from the local database or a Parquet archive,
//! where times are RFC 3339 texts. The rows themselves are read and written by the caller.
use vstd::prelude::*;
use crate::calendar::{parse_rfc3339, spec_parse_rfc3339};
use crate::event::{
    ov, parse_status_from_str, status_str, CanonicalEvent, EventView, ParseStatus,
    Timestamp,
};
use crate::text::owned;

verus! {

/// An event as the remote column store holds it.
#[derive(Debug, Clone)]
pub struct ClickHouseEvent {
    pub event_id: String,
    pub ingest_time: Timestamp,
    pub source_addr: String,
    pub device_id: String,
    pub event_time: Timestamp,
    pub vendor: String,
    pub product: String,
    pub src_ip: String,
    pub src_port: u16,
    pub dst_ip: String,
    pub dst_port: u16,
    pub protocol: String,
    pub action: String,
    pub severity: String,
    pub raw: String,
    pub parse_status: String,
    pub parse_error: String,
}

/// A text, empty when absent.
pub open spec fn or_empty(o: Option<Seq<char>>) -> Seq<char> {
    match o {
        Some(s) => s,
        None => Seq::empty(),
    }
}

/// A text, absent when empty.
pub open spec fn non_empty(s: Seq<char>) -> Option<Seq<char>> {
    if s.len() == 0 {
        None
    } else {
        Some(s)
    }
}

fn text_or_empty(o: &Option<String>) -> (r: String)
    ensures
        r@ == or_empty(ov(*o)),
{
    match o {
        Some(s) => s.clone(),
        None => String::new(),
    }
}

fn present(s: String) -> (r: Option<String>)
    ensures
        ov(r) == non_empty(s@),
{
    if s.as_str().is_empty() {
        None
    } else {
        Some(s)
    }
}

pub open spec fn clickhouse_view(r: ClickHouseEvent) -> (
    Seq<char>, Timestamp, Seq<char>, Seq<char>, Timestamp, Seq<char>, Seq<char>, Seq<char>, u16,
    Seq<char>, u16, Seq<char>, Seq<char>, Seq<char>, Seq<char>, Seq<char>, Seq<char>,
) {
    (
        r.event_id@, r.ingest_time, r.source_addr@, r.device_id@, r.event_time, r.vendor@, r.product@,
        r.src_ip@, r.src_port, r.dst_ip@, r.dst_port, r.protocol@, r.action@, r.severity@, r.raw@,
        r.parse_status@, r.parse_error@,
    )
}

/// The row of an event: absent texts become empty, absent ports zero, an absent event time
/// the arrival time, and the status its stored name.
pub open spec fn spec_clickhouse_row(e: EventView) -> (
    Seq<char>, Timestamp, Seq<char>, Seq<char>, Timestamp, Seq<char>, Seq<char>, Seq<char>, u16,
    Seq<char>, u16, Seq<char>, Seq<char>, Seq<char>, Seq<char>, Seq<char>, Seq<char>,
) {
    (
        e.event_id,
        e.ingest_time,
        e.source_addr,
        or_empty(e.device_id),
        match e.event_time {
            Some(t) => t,
            None => e.ingest_time,
        },
        or_empty(e.vendor),
        or_empty(e.product),
        or_empty(e.src_ip),
        match e.src_port {
            Some(p) => p,
            None => 0,
        },
        or_empty(e.dst_ip),
        match e.dst_port {
            Some(p) => p,
            None => 0,
        },
        or_empty(e.protocol),
        or_empty(e.action),
        or_empty(e.severity),
        e.raw,
        e.parse_status.spec_name(),
        or_empty(e.parse_error),
    )
}

pub fn clickhouse_row(event: &CanonicalEvent) -> (r: ClickHouseEvent)
    ensures
        clickhouse_view(r) == spec_clickhouse_row(event@),
{
    ClickHouseEvent {
        event_id: event.event_id.clone(),
        ingest_time: event.ingest_time,
        source_addr: event.source_addr.clone(),
        device_id: text_or_empty(&event.device_id),
        event_time: match event.event_time {
            Some(t) => t,
            None => event.ingest_time,
        },
        vendor: text_or_empty(&event.vendor),
        product: text_or_empty(&event.product),
        src_ip: text_or_empty(&event.src_ip),
        src_port: match event.src_port {
            Some(p) => p,
            None => 0,
        },
        dst_ip: text_or_empty(&event.dst_ip),
        dst_port: match event.dst_port {
            Some(p) => p,
            None => 0,
        },
        protocol: text_or_empty(&event.protocol),
        action: text_or_empty(&event.action),
        severity: text_or_empty(&event.severity),
        raw: event.raw.clone(),
        parse_status: owned(status_str(event.parse_status)),
        parse_error: text_or_empty(&event.parse_error),
    }
}

/// The event of a row: empty texts and zero ports become absent, the event time is kept,
/// and the status is read from its name.
pub open spec fn spec_event_from_clickhouse(r: ClickHouseEvent) -> EventView {
    EventView {
        event_id: r.event_id@,
        ingest_time: r.ingest_time,
        source_addr: r.source_addr@,
        device_id: non_empty(r.device_id@),
        event_time: Some(r.event_time),
        vendor: non_empty(r.vendor@),
        product: non_empty(r.product@),
        src_ip: non_empty(r.src_ip@),
        src_port: if r.src_port == 0 {
            None
        } else {
            Some(r.src_port)
        },
        dst_ip: non_empty(r.dst_ip@),
        dst_port: if r.dst_port == 0 {
            None
        } else {
            Some(r.dst_port)
        },
        protocol: non_empty(r.protocol@),
        action: non_empty(r.action@),
        severity: non_empty(r.severity@),
        raw: r.raw@,
        parse_status: ParseStatus::spec_from_name(r.parse_status@),
        parse_error: non_empty(r.parse_error@),
    }
}

pub fn event_from_clickhouse(row: ClickHouseEvent) -> (e: CanonicalEvent)
    ensures
        e@ == spec_event_from_clickhouse(row),
{
    let parse_status = parse_status_from_str(row.parse_status.as_str());
    CanonicalEvent {
        event_id: row.event_id,
        ingest_time: row.ingest_time,
        source_addr: row.source_addr,
        device_id: present(row.device_id),
        event_time: Some(row.event_time),
        vendor: present(row.vendor),
        product: present(row.product),
        src_ip: present(row.src_ip),
        src_port: if row.src_port == 0 {
            None
        } else {
            Some(row.src_port)
        },
        dst_ip: present(row.dst_ip),
        dst_port: if row.dst_port == 0 {
            None
        } else {
            Some(row.dst_port)
        },
        protocol: present(row.protocol),
        action: present(row.action),
        severity: present(row.severity),
        raw: row.raw,
        parse_status,
        parse_error: present(row.parse_error),
    }
}

/// An event row read back from the local database or a Parquet archive.
#[derive(Debug, Clone)]
pub struct StoredEventRow {
    pub event_id: String,
    pub ingest_time: String,
    pub source_addr: String,
    pub device_id: Option<String>,
    pub event_time: Option<String>,
    pub vendor: Option<String>,
    pub product: Option<String>,
    pub src_ip: Option<String>,
    pub src_port: Option<i64>,
    pub dst_ip: Option<String>,
    pub dst_port: Option<i64>,
    pub protocol: Option<String>,
    pub action: Option<String>,
    pub severity: Option<String>,
    pub raw: String,
    pub parse_status: String,
    pub parse_error: Option<String>,
}

/// A stored port that fits a port number.
pub open spec fn port_of_stored(p: Option<i64>) -> Option<u16> {
    match p {
        Some(v) => if 0 <= v <= 65535 {
            Some(v as u16)
        } else {
            None
        },
        None => None,
    }
}

pub open spec fn time_of(text: Seq<char>) -> Option<Timestamp> {
    match spec_parse_rfc3339(text) {
        Some((s, n)) => Some(Timestamp { secs: s, nanos: n }),
        None => None,
    }
}

/// The event of a stored row read at `now`: an arrival time that is not RFC 3339 becomes
/// `now`, an event time that is not is dropped, out-of-range ports are dropped, and the
/// status is read from its name.
pub open spec fn spec_event_from_stored(r: StoredEventRow, now: Timestamp) -> EventView {
    EventView {
        event_id: r.event_id@,
        ingest_time: match time_of(r.ingest_time@) {
            Some(t) => t,
            None => now,
        },
        source_addr: r.source_addr@,
        device_id: ov(r.device_id),
        event_time: match ov(r.event_time) {
            Some(t) => time_of(t),
            None => None,
        },
        vendor: ov(r.vendor),
        product: ov(r.product),
        src_ip: ov(r.src_ip),
        src_port: port_of_stored(r.src_port),
        dst_ip: ov(r.dst_ip),
        dst_port: port_of_stored(r.dst_port),
        protocol: ov(r.protocol),
        action: ov(r.action),
        severity: ov(r.severity),
        raw: r.raw@,
        parse_status: ParseStatus::spec_from_name(r.parse_status@),
        parse_error: ov(r.parse_error),
    }
}

fn stored_port(p: Option<i64>) -> (r: Option<u16>)
    ensures
        r == port_of_stored(p),
{
    match p {
        Some(v) => if 0 <= v && v <= 65535 {
            Some(v as u16)
        } else {
            None
        },
        None => None,
    }
}

pub fn event_from_stored_row(row: StoredEventRow, now: Timestamp) -> (e: CanonicalEvent)
    ensures
        e@ == spec_event_from_stored(row, now),
{
    let ingest_time = match parse_rfc3339(row.ingest_time.as_str()) {
        Some(t) => t,
        None => now,
    };
    let event_time = match &row.event_time {
        Some(t) => parse_rfc3339(t.as_str()),
        None => None,
    };
    let parse_status = parse_status_from_str(row.parse_status.as_str());
    CanonicalEvent {
        event_id: row.event_id,
        ingest_time,
        source_addr: row.source_addr,
        device_id: row.device_id,
        event_time,
        vendor: row.vendor,
        product: row.product,
        src_ip: row.src_ip,
        src_port: stored_port(row.src_port),
        dst_ip: row.dst_ip,
        dst_port: stored_port(row.dst_port),
        protocol: row.protocol,
        action: row.action,
        severity: row.severity,
        raw: row.raw,
        parse_status,
        parse_error: row.parse_error,
    }
}

} // verus!
