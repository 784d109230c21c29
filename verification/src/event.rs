//! Raw log lines, canonical events and the rules that classify them.
use vstd::prelude::*;
use sha2::{Digest, Sha256};
use crate::text::{owned, str_eq, string_from_chars};

verus! {

/// A point in time: whole seconds since the Unix epoch and the sub-second nanoseconds,
/// as `chrono::DateTime::timestamp` and `timestamp_subsec_nanos` report them.
#[derive(Debug, Clone, Copy, PartialEq, Eq, Structural, PartialOrd, Ord, Hash)]
pub struct Timestamp {
    pub secs: i64,
    pub nanos: u32,
}

impl Timestamp {
    /// The instant `secs` seconds and `nanos` nanoseconds after the epoch.
    pub fn from_unix(secs: i64, nanos: u32) -> (t: Timestamp)
        ensures
            t.secs == secs,
            t.nanos == nanos,
    {
        Timestamp { secs, nanos }
    }

    /// Nanoseconds since the epoch, when that number fits an `i64`
    /// (what `DateTime::timestamp_nanos_opt` returns).
    pub open spec fn spec_nanos(self) -> Option<int> {
        let n = self.secs * 1_000_000_000 + self.nanos;
        if i64::MIN <= n <= i64::MAX {
            Some(n)
        } else {
            None
        }
    }

    pub fn nanos_opt(&self) -> (r: Option<i64>)
        ensures
            r matches Some(n) ==> self.spec_nanos() == Some(n as int),
            r is None ==> self.spec_nanos() is None,
    {
        let n: i128 = (self.secs as i128) * 1_000_000_000 + (self.nanos as i128);
        if n >= (i64::MIN as i128) && n <= (i64::MAX as i128) {
            Some(n as i64)
        } else {
            None
        }
    }
}

/// The outcome of parsing one raw line.
#[derive(Debug, Clone, Copy, PartialEq, Eq, Structural, PartialOrd, Ord, Hash)]
pub enum ParseStatus {
    Parsed,
    Partial,
    Failed,
}

impl ParseStatus {
    pub open spec fn spec_name(self) -> Seq<char> {
        match self {
            ParseStatus::Parsed => "parsed"@,
            ParseStatus::Partial => "partial"@,
            ParseStatus::Failed => "failed"@,
        }
    }

    /// The lower-case name under which a status is serialised and stored.
    pub fn as_str(self) -> (r: &'static str)
        ensures
            r@ == self.spec_name(),
    {
        match self {
            ParseStatus::Parsed => "parsed",
            ParseStatus::Partial => "partial",
            ParseStatus::Failed => "failed",
        }
    }

    pub open spec fn spec_from_name(value: Seq<char>) -> ParseStatus {
        if value == "parsed"@ {
            ParseStatus::Parsed
        } else if value == "partial"@ {
            ParseStatus::Partial
        } else {
            ParseStatus::Failed
        }
    }
}

/// Reads a stored status name; anything unknown counts as failed.
pub fn parse_status_from_str(value: &str) -> (r: ParseStatus)
    ensures
        r == ParseStatus::spec_from_name(value@),
{
    if str_eq(value, "parsed") {
        ParseStatus::Parsed
    } else if str_eq(value, "partial") {
        ParseStatus::Partial
    } else {
        ParseStatus::Failed
    }
}

/// Stored name of a status.
pub fn status_str(status: ParseStatus) -> (r: &'static str)
    ensures
        r@ == status.spec_name(),
{
    status.as_str()
}

/// A line as it arrived, with the time it arrived and where from.
#[derive(Debug, Clone, PartialEq, Eq)]
pub struct RawLog {
    pub ingest_time: Timestamp,
    pub source_addr: String,
    pub raw: String,
}

impl RawLog {
    /// A raw log received at `ingest_time` (the caller reads the clock).
    pub fn new(source_addr: &str, raw: &str, ingest_time: Timestamp) -> (r: RawLog)
        ensures
            r.source_addr@ == source_addr@,
            r.raw@ == raw@,
            r.ingest_time == ingest_time,
    {
        RawLog { ingest_time, source_addr: owned(source_addr), raw: owned(raw) }
    }

    pub fn duplicate(&self) -> (r: RawLog)
        ensures
            r == *self,
    {
        RawLog {
            ingest_time: self.ingest_time,
            source_addr: self.source_addr.clone(),
            raw: self.raw.clone(),
        }
    }
}

/// The normalised form every parser produces.
#[derive(Debug, Clone, PartialEq, Eq)]
pub struct CanonicalEvent {
    pub event_id: String,
    pub ingest_time: Timestamp,
    pub source_addr: String,
    pub device_id: Option<String>,
    pub event_time: Option<Timestamp>,
    pub vendor: Option<String>,
    pub product: Option<String>,
    pub src_ip: Option<String>,
    pub src_port: Option<u16>,
    pub dst_ip: Option<String>,
    pub dst_port: Option<u16>,
    pub protocol: Option<String>,
    pub action: Option<String>,
    pub severity: Option<String>,
    pub raw: String,
    pub parse_status: ParseStatus,
    pub parse_error: Option<String>,
}

/// Mathematical view of an optional text field.
pub open spec fn ov(o: Option<String>) -> Option<Seq<char>> {
    match o {
        Some(s) => Some(s@),
        None => None,
    }
}

/// The abstract content of a canonical event: every text field by its characters.
pub struct EventView {
    pub event_id: Seq<char>,
    pub ingest_time: Timestamp,
    pub source_addr: Seq<char>,
    pub device_id: Option<Seq<char>>,
    pub event_time: Option<Timestamp>,
    pub vendor: Option<Seq<char>>,
    pub product: Option<Seq<char>>,
    pub src_ip: Option<Seq<char>>,
    pub src_port: Option<u16>,
    pub dst_ip: Option<Seq<char>>,
    pub dst_port: Option<u16>,
    pub protocol: Option<Seq<char>>,
    pub action: Option<Seq<char>>,
    pub severity: Option<Seq<char>>,
    pub raw: Seq<char>,
    pub parse_status: ParseStatus,
    pub parse_error: Option<Seq<char>>,
}

impl View for CanonicalEvent {
    type V = EventView;

    open spec fn view(&self) -> EventView {
        EventView {
            event_id: self.event_id@,
            ingest_time: self.ingest_time,
            source_addr: self.source_addr@,
            device_id: ov(self.device_id),
            event_time: self.event_time,
            vendor: ov(self.vendor),
            product: ov(self.product),
            src_ip: ov(self.src_ip),
            src_port: self.src_port,
            dst_ip: ov(self.dst_ip),
            dst_port: self.dst_port,
            protocol: ov(self.protocol),
            action: ov(self.action),
            severity: ov(self.severity),
            raw: self.raw@,
            parse_status: self.parse_status,
            parse_error: ov(self.parse_error),
        }
    }
}

pub fn clone_opt(o: &Option<String>) -> (r: Option<String>)
    ensures
        ov(r) == ov(*o),
{
    match o {
        Some(s) => Some(s.clone()),
        None => None,
    }
}

/// A text field that is present and not empty.
pub open spec fn has_text(o: Option<Seq<char>>) -> bool {
    o matches Some(s) && s.len() > 0
}

pub fn opt_has_text(o: &Option<String>) -> (r: bool)
    ensures
        r == has_text(ov(*o)),
{
    match o {
        Some(s) => !s.as_str().is_empty(),
        None => false,
    }
}

/// The minimum searchable tuple: both endpoints and an action or protocol.
pub open spec fn tuple_complete(e: EventView) -> bool {
    has_text(e.src_ip) && has_text(e.dst_ip) && (has_text(e.action) || has_text(e.protocol))
}

pub open spec fn tuple_touched(e: EventView) -> bool {
    has_text(e.src_ip) || has_text(e.dst_ip) || has_text(e.action) || has_text(e.protocol)
}

pub open spec fn partial_message() -> Seq<char> {
    "partial parse: minimum searchable tuple incomplete"@
}

pub open spec fn no_fields_message() -> Seq<char> {
    "failed parse: no useful canonical fields"@
}

/// The status and error an event gets from the fields it holds.
pub open spec fn classified(e: EventView) -> EventView {
    if tuple_complete(e) {
        EventView { parse_status: ParseStatus::Parsed, parse_error: None, ..e }
    } else if tuple_touched(e) {
        EventView { parse_status: ParseStatus::Partial, parse_error: Some(partial_message()), ..e }
    } else {
        EventView {
            parse_status: ParseStatus::Failed,
            parse_error: if e.parse_error is None {
                Some(no_fields_message())
            } else {
                e.parse_error
            },
            ..e
        }
    }
}

/// Lower-case hexadecimal digit for a value below 16.
pub open spec fn hex_digit(n: nat) -> char {
    if n < 10 {
        (('0' as u32) + n) as char
    } else {
        (('a' as u32) + n - 10) as char
    }
}

/// Lower-case hexadecimal text of a byte string, two digits per byte (as `{:x}` prints a digest).
pub open spec fn hex_lower(b: Seq<u8>) -> Seq<char>
    decreases b.len(),
{
    if b.len() == 0 {
        Seq::empty()
    } else {
        hex_lower(b.drop_last()) + seq![hex_digit((b.last() / 16) as nat), hex_digit((b.last() % 16) as nat)]
    }
}

/// Decimal digits of a natural number, as ASCII bytes.
pub open spec fn decimal_bytes(n: nat) -> Seq<u8>
    decreases n,
{
    if n < 10 {
        seq![(48 + n) as u8]
    } else {
        decimal_bytes(n / 10).push((48 + n % 10) as u8)
    }
}

/// Decimal text of an integer as `i64::to_string` writes it, as ASCII bytes.
pub open spec fn signed_decimal_bytes(n: int) -> Seq<u8> {
    if n < 0 {
        seq![45u8] + decimal_bytes((-n) as nat)
    } else {
        decimal_bytes(n as nat)
    }
}

/// SHA-256 digest of a byte string.
pub uninterp spec fn spec_sha256(data: Seq<u8>) -> Seq<u8>;

/// The identifier an event gets from its raw text, arrival time and source.
pub open spec fn spec_event_id(raw: Seq<char>, ingest_time: Timestamp, source_addr: Seq<char>) -> Seq<char> {
    let n = match ingest_time.spec_nanos() {
        Some(n) => n,
        None => 0,
    };
    hex_lower(
        spec_sha256(
            vstd::utf8::encode_utf8(raw) + signed_decimal_bytes(n) + vstd::utf8::encode_utf8(
                source_addr,
            ),
        ),
    )
}

/// Computes SHA-256 with `sha2::Sha256`; the result is `spec_sha256` of the input.
#[verifier::external_body]
pub(crate) fn sha256_digest(data: &[u8]) -> (r: Vec<u8>)
    ensures
        r@ == spec_sha256(data@),
{
    let mut hasher = Sha256::new();
    hasher.update(data);
    hasher.finalize().to_vec()
}

pub(crate) fn push_bytes(out: &mut Vec<u8>, bytes: &[u8])
    ensures
        final(out)@ == old(out)@ + bytes@,
{
    let mut i: usize = 0;
    while i < bytes.len()
        invariant
            out@ == old(out)@ + bytes@.take(i as int),
            i <= bytes@.len(),
        decreases bytes.len() - i,
    {
        out.push(bytes[i]);
        i = i + 1;
        assert(bytes@.take(i as int) =~= bytes@.take(i - 1).push(bytes@[i - 1]));
    }
    assert(bytes@.take(bytes@.len() as int) =~= bytes@);
}

fn decimal_u64(n: u64) -> (r: Vec<u8>)
    ensures
        r@ == decimal_bytes(n as nat),
    decreases n,
{
    if n < 10 {
        let mut v: Vec<u8> = Vec::new();
        v.push((48 + n) as u8);
        assert(v@ =~= decimal_bytes(n as nat));
        v
    } else {
        let mut v = decimal_u64(n / 10);
        v.push((48 + n % 10) as u8);
        v
    }
}

fn decimal_i64(n: i64) -> (r: Vec<u8>)
    ensures
        r@ == signed_decimal_bytes(n as int),
{
    if n < 0 {
        let mag: u64 = if n == i64::MIN {
            9_223_372_036_854_775_808u64
        } else {
            (-n) as u64
        };
        let mut v: Vec<u8> = Vec::new();
        v.push(45u8);
        let d = decimal_u64(mag);
        push_bytes(&mut v, d.as_slice());
        assert(v@ =~= seq![45u8] + decimal_bytes((-n) as nat));
        v
    } else {
        decimal_u64(n as u64)
    }
}

fn hex_char(n: u8) -> (c: char)
    requires
        n < 16,
    ensures
        c == hex_digit(n as nat),
{
    if n < 10 {
        (48u8 + n) as char
    } else {
        (97u8 + n - 10) as char
    }
}

/// Lower-case hexadecimal text of `bytes`.
pub fn hex_string(bytes: &[u8]) -> (r: String)
    ensures
        r@ == hex_lower(bytes@),
{
    let mut out: Vec<char> = Vec::new();
    let mut i: usize = 0;
    while i < bytes.len()
        invariant
            i <= bytes@.len(),
            out@ == hex_lower(bytes@.take(i as int)),
        decreases bytes.len() - i,
    {
        let b = bytes[i];
        out.push(hex_char(b / 16));
        out.push(hex_char(b % 16));
        i = i + 1;
        assert(bytes@.take(i as int).drop_last() =~= bytes@.take(i - 1));
        assert(out@ =~= hex_lower(bytes@.take(i as int)));
    }
    assert(bytes@.take(bytes@.len() as int) =~= bytes@);
    string_from_chars(out.as_slice())
}

/// A stable identifier for an event: the SHA-256 of its raw text, its arrival time in
/// nanoseconds (0 when out of range) and its source, in lower-case hex.
pub fn make_event_id(raw: &str, ingest_time: Timestamp, source_addr: &str) -> (r: String)
    ensures
        r@ == spec_event_id(raw@, ingest_time, source_addr@),
{
    let mut data: Vec<u8> = Vec::new();
    push_bytes(&mut data, raw.as_bytes());
    let n = match ingest_time.nanos_opt() {
        Some(n) => n,
        None => 0,
    };
    let digits = decimal_i64(n);
    push_bytes(&mut data, digits.as_slice());
    push_bytes(&mut data, source_addr.as_bytes());
    let digest = sha256_digest(data.as_slice());
    hex_string(digest.as_slice())
}

impl CanonicalEvent {
    /// A failed event that keeps the raw line, its source and arrival time, and the reason.
    pub fn failed(raw: RawLog, reason: &str) -> (e: CanonicalEvent)
        ensures
            e@ == failed_view(raw.ingest_time, raw.source_addr@, raw.raw@, reason@),
    {
        let event_id = make_event_id(raw.raw.as_str(), raw.ingest_time, raw.source_addr.as_str());
        CanonicalEvent {
            event_id,
            ingest_time: raw.ingest_time,
            source_addr: raw.source_addr,
            device_id: None,
            event_time: None,
            vendor: None,
            product: None,
            src_ip: None,
            src_port: None,
            dst_ip: None,
            dst_port: None,
            protocol: None,
            action: None,
            severity: None,
            raw: raw.raw,
            parse_status: ParseStatus::Failed,
            parse_error: Some(owned(reason)),
        }
    }

    /// Sets the status (and error) from the fields the event holds:
    /// parsed when the minimum searchable tuple is complete, partial when some of it
    /// is there, failed otherwise (an earlier error is kept then).
    pub fn classify_firewall_tuple(&mut self)
        ensures
            final(self)@ == classified(old(self)@),
    {
        let has_src = opt_has_text(&self.src_ip);
        let has_dst = opt_has_text(&self.dst_ip);
        let has_action_or_protocol = opt_has_text(&self.action) || opt_has_text(&self.protocol);
        if has_src && has_dst && has_action_or_protocol {
            self.parse_status = ParseStatus::Parsed;
            self.parse_error = None;
        } else if has_src || has_dst || has_action_or_protocol {
            self.parse_status = ParseStatus::Partial;
            self.parse_error = Some(owned("partial parse: minimum searchable tuple incomplete"));
        } else {
            self.parse_status = ParseStatus::Failed;
            if self.parse_error.is_none() {
                self.parse_error = Some(owned("failed parse: no useful canonical fields"));
            }
        }
    }

    /// A field-by-field copy.
    pub fn duplicate(&self) -> (r: CanonicalEvent)
        ensures
            r@ == self@,
    {
        CanonicalEvent {
            event_id: self.event_id.clone(),
            ingest_time: self.ingest_time,
            source_addr: self.source_addr.clone(),
            device_id: clone_opt(&self.device_id),
            event_time: self.event_time,
            vendor: clone_opt(&self.vendor),
            product: clone_opt(&self.product),
            src_ip: clone_opt(&self.src_ip),
            src_port: self.src_port,
            dst_ip: clone_opt(&self.dst_ip),
            dst_port: self.dst_port,
            protocol: clone_opt(&self.protocol),
            action: clone_opt(&self.action),
            severity: clone_opt(&self.severity),
            raw: self.raw.clone(),
            parse_status: self.parse_status,
            parse_error: clone_opt(&self.parse_error),
        }
    }
}

/// The failed event for a raw line and a reason.
pub open spec fn failed_view(
    ingest_time: Timestamp,
    source_addr: Seq<char>,
    raw: Seq<char>,
    reason: Seq<char>,
) -> EventView {
    EventView {
        event_id: spec_event_id(raw, ingest_time, source_addr),
        ingest_time,
        source_addr,
        device_id: None,
        event_time: None,
        vendor: None,
        product: None,
        src_ip: None,
        src_port: None,
        dst_ip: None,
        dst_port: None,
        protocol: None,
        action: None,
        severity: None,
        raw,
        parse_status: ParseStatus::Failed,
        parse_error: Some(reason),
    }
}

} // verus!
