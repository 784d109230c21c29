//! Cold search over frozen raw archives: which archives and archive members a day filter
//! keeps, and what each archived line contributes. The caller opens and decompresses the
//! archives and hands over their lines, decoded as UTF-8 with replacement characters.
use vstd::prelude::*;
use crate::api::{dashed_day, is_day_digits, matches_cold_query, spec_matches_cold_query, ColdSearchQuery};
use crate::engine::{engine_outcome, ParserEngine};
use crate::event::{CanonicalEvent, EventView, ParseStatus, RawLog, Timestamp};
use crate::text::{concat, owned, seq_contains, seq_ends_with, seq_starts_with, str_contains, str_ends_with, str_starts_with};

verus! {

/// The result of a cold search.
#[derive(Debug)]
pub struct ColdSearchResponse {
    pub files: usize,
    pub scanned_lines: u64,
    pub matched: usize,
    pub limited: bool,
    pub events: Vec<CanonicalEvent>,
}

/// A line without its trailing line feeds and carriage returns.
pub open spec fn trim_line_end(s: Seq<char>) -> Seq<char>
    decreases s.len(),
{
    if s.len() > 0 && (s.last() == '\n' || s.last() == '\r') {
        trim_line_end(s.drop_last())
    } else {
        s
    }
}

pub(crate) fn line_without_end(line: &str) -> (r: String)
    ensures
        r@ == trim_line_end(line@),
{
    let chars = crate::text::chars_of(line);
    let mut n = chars.len();
    proof {
        assert(chars@.take(n as int) =~= chars@);
    }
    while n > 0 && (chars[n - 1] == '\n' || chars[n - 1] == '\r')
        invariant
            n <= chars@.len(),
            chars@ == line@,
            trim_line_end(line@) == trim_line_end(chars@.take(n as int)),
        decreases n,
    {
        proof {
            assert(chars@.take(n as int).drop_last() =~= chars@.take(n - 1));
        }
        n = n - 1;
    }
    crate::text::chars_range_string(chars.as_slice(), 0, n)
}

/// The events a cold search has kept and the lines it has read.
#[derive(Debug)]
pub struct ColdScan {
    pub scanned_lines: u64,
    pub events: Vec<CanonicalEvent>,
}

pub open spec fn event_views(v: Seq<CanonicalEvent>) -> Seq<EventView> {
    v.map_values(|e: CanonicalEvent| e@)
}

/// Whether a line passes the keyword filter: with a keyword, the line must contain it.
pub open spec fn keyword_passes(q: ColdSearchQuery, line: Seq<char>) -> bool {
    match q.keyword {
        Some(k) => seq_contains(line, k@),
        None => true,
    }
}

/// Whether the event of a line is kept: failed events only when wanted, and the event must
/// match every filter of the query.
pub open spec fn event_kept(q: ColdSearchQuery, e: EventView) -> bool {
    (q.include_failed || e.parse_status != ParseStatus::Failed) && spec_matches_cold_query(e, q)
}

impl ColdScan {
    pub fn new() -> (r: Self)
        ensures
            r.scanned_lines == 0,
            r.events@.len() == 0,
    {
        ColdScan { scanned_lines: 0, events: Vec::new() }
    }

    /// Reads one archived line of `source_addr` at time `now`: an empty line (once its line
    /// end is removed) is skipped; any other is counted, then, when it passes the keyword
    /// filter, parsed, and its event kept when it matches the query. Tells whether the limit
    /// of kept events is reached.
    pub fn offer_line(
        &mut self,
        parser: &ParserEngine,
        query: &ColdSearchQuery,
        line: &str,
        source_addr: &str,
        now: Timestamp,
        limit: usize,
    ) -> (r: bool)
        requires
            old(self).scanned_lines < u64::MAX,
        ensures
            ({
                let t = trim_line_end(line@);
                let e = engine_outcome(
                    parser.adapters(),
                    parser.rule_list(),
                    parser.route_groups(),
                    parser.route_pins(),
                    parser.adaptive_rules(),
                    t,
                    now,
                    source_addr@,
                ).event;
                if t.len() == 0 {
                    &&& final(self).scanned_lines == old(self).scanned_lines
                    &&& event_views(final(self).events@) == event_views(old(self).events@)
                    &&& !r
                } else {
                    &&& final(self).scanned_lines == old(self).scanned_lines + 1
                    &&& if keyword_passes(*query, t) && event_kept(*query, e) {
                        &&& event_views(final(self).events@) == event_views(old(self).events@).push(e)
                        &&& r == (final(self).events@.len() >= limit)
                    } else {
                        &&& event_views(final(self).events@) == event_views(old(self).events@)
                        &&& !r
                    }
                }
            }),
    {
        let t = line_without_end(line);
        if t.as_str().is_empty() {
            return false;
        }
        self.scanned_lines = self.scanned_lines + 1;
        match &query.keyword {
            Some(k) => {
                if !str_contains(t.as_str(), k.as_str()) {
                    return false;
                }
            },
            None => {},
        }
        let event = parser.parse(RawLog { ingest_time: now, source_addr: owned(source_addr), raw: t });
        if !query.include_failed && event.parse_status == ParseStatus::Failed {
            return false;
        }
        if !matches_cold_query(&event, query) {
            return false;
        }
        let ghost before = event_views(self.events@);
        let ghost ev = event@;
        self.events.push(event);
        proof {
            assert(event_views(self.events@) =~= before.push(ev));
        }
        self.events.len() >= limit
    }

    /// The response once `files` archives were searched; `limited` when the search stopped at
    /// the limit.
    pub fn finish(self, files: usize, limited: bool) -> (r: ColdSearchResponse)
        ensures
            r.files == files,
            r.scanned_lines == self.scanned_lines,
            r.matched == self.events@.len(),
            r.limited == limited,
            r.events@ == self.events@,
    {
        let matched = self.events.len();
        ColdSearchResponse { files, scanned_lines: self.scanned_lines, matched, limited, events: self.events }
    }
}

/// The source an archived line is attributed to: `frozen://` and its archive or member path.
pub fn cold_source_addr(path: &str) -> (r: String)
    ensures
        r@ == "frozen://"@ + path@,
{
    concat("frozen://", path)
}

/// A tar member that is gzip-compressed.
pub fn is_gzip_member(entry_path: &str) -> (r: bool)
    ensures
        r == seq_ends_with(entry_path@, ".gz"@),
{
    str_ends_with(entry_path, ".gz")
}

/// Whether a packed import archive's own name carries the day (in its eight-digit form);
/// when it does, all its members are searched.
pub fn import_archive_name_matches(file_name: Option<&str>, day: Option<&str>) -> (r: bool)
    ensures
        r == match file_name {
            Some(n) => match day {
                Some(d) => seq_contains(n@, d@),
                None => true,
            },
            None => false,
        },
{
    match file_name {
        Some(n) => match day {
            Some(d) => str_contains(n, d),
            None => true,
        },
        None => false,
    }
}

/// Whether a Parquet file takes part in a cold search for a day: it must be a `.parquet`
/// file whose name carries the day in either spelling.
pub fn cold_parquet_file_matches(file_name: &str, day: Option<&str>) -> (r: bool)
    requires
        day matches Some(v) ==> is_day_digits(v@),
    ensures
        r == (seq_ends_with(file_name@, ".parquet"@) && match day {
            Some(v) => seq_contains(file_name@, v@) || seq_contains(file_name@, dashed_day(v@)),
            None => true,
        }),
{
    if !str_ends_with(file_name, ".parquet") {
        return false;
    }
    match day {
        None => true,
        Some(v) => crate::api::cold_entry_day_matches(file_name, Some(v)),
    }
}

/// A packed import of raw files: `raw-import-*.tar.zst`.
pub fn is_raw_import_archive(file_name: &str) -> (r: bool)
    ensures
        r == (seq_starts_with(file_name@, "raw-import-"@) && seq_ends_with(file_name@, ".tar.zst"@)),
{
    str_starts_with(file_name, "raw-import-") && str_ends_with(file_name, ".tar.zst")
}


/// Whether an indexed frozen archive takes part in an export for a device filter: with no
/// filter (or an empty one) every archive does, else one whose source or path holds the
/// filter text.
pub fn indexed_archive_matches_device(source_addr: &str, archive_path: &str, device: Option<&str>) -> (r: bool)
    ensures
        r == match device {
            Some(d) => d@.len() == 0 || seq_contains(source_addr@, d@) || seq_contains(archive_path@, d@),
            None => true,
        },
{
    match device {
        Some(d) => d.is_empty() || str_contains(source_addr, d) || str_contains(archive_path, d),
        None => true,
    }
}

} // verus!
