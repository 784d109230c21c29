//! Bulk import of historical log files: which files are imported and in what order, how
//! their lines are batched, and what each line becomes; and re-parsing stored events while
//! keeping their ids. The caller walks the directories, reads and decompresses the files,
//! and writes the database.
use vstd::prelude::*;
use rayon::iter::{IntoParallelRefIterator, ParallelIterator};
use crate::archive::{file_name_of, sort_by_path};
use crate::cold_search::trim_line_end;
use crate::engine::{engine_outcome, ParserEngine};
use crate::event::{CanonicalEvent, EventView, RawLog, Timestamp};
use crate::text::{concat, owned, seq_ends_with, str_eq, str_ends_with};

verus! {

/// A file worth importing: not the `read me.txt` note, not empty, and not a gzip file of at
/// most 20 bytes (an empty archive).
pub open spec fn spec_importable(path: Seq<char>, len: u64) -> bool {
    let name = file_name_of(path);
    name != "read me.txt"@ && len > 0 && !(seq_ends_with(name, ".gz"@) && len <= 20)
}

/// The files to import, in path order.
pub open spec fn spec_import_files(files: Seq<(Seq<char>, u64)>) -> Seq<Seq<char>> {
    sort_by_path(files).filter(|f: (Seq<char>, u64)| spec_importable(f.0, f.1)).map_values(
        |f: (Seq<char>, u64)| f.0,
    )
}

proof fn lemma_filter_push_file(s: Seq<(Seq<char>, u64)>, x: (Seq<char>, u64), p: spec_fn((Seq<char>, u64)) -> bool)
    ensures
        s.push(x).filter(p) == if p(x) {
            s.filter(p).push(x)
        } else {
            s.filter(p)
        },
{
    reveal_with_fuel(Seq::filter, 1);
    assert(s.push(x).drop_last() =~= s);
}

/// The files found (every regular file under the input, with its length) that are imported,
/// sorted by path.
pub fn import_files(files: Vec<(String, u64)>) -> (r: Vec<String>)
    ensures
        r@.map_values(|s: String| s@) == spec_import_files(crate::archive::entry_views(files@)),
{
    let sorted = crate::archive::sort_entries_by_path(files);
    let ghost sv = crate::archive::entry_views(sorted@);
    let ghost pred = |f: (Seq<char>, u64)| spec_importable(f.0, f.1);
    let mut out: Vec<String> = Vec::new();
    let mut i: usize = 0;
    proof {
        reveal_with_fuel(Seq::filter, 1);
        assert(sv.take(0) =~= Seq::<(Seq<char>, u64)>::empty());
        assert(out@.map_values(|s: String| s@) =~= Seq::<(Seq<char>, u64)>::empty().map_values(
            |f: (Seq<char>, u64)| f.0,
        ));
    }
    while i < sorted.len()
        invariant
            i <= sorted@.len(),
            sv == crate::archive::entry_views(sorted@),
            pred == (|f: (Seq<char>, u64)| spec_importable(f.0, f.1)),
            out@.map_values(|s: String| s@) == sv.take(i as int).filter(pred).map_values(
                |f: (Seq<char>, u64)| f.0,
            ),
        decreases sorted.len() - i,
    {
        let (path, len) = (&sorted[i].0, sorted[i].1);
        proof {
            assert(sv[i as int] == (path@, len));
            assert(sv.take(i + 1) =~= sv.take(i as int).push(sv[i as int]));
            lemma_filter_push_file(sv.take(i as int), sv[i as int], pred);
        }
        if importable(path.as_str(), len) {
            let ghost before = out@.map_values(|s: String| s@);
            out.push(path.clone());
            proof {
                assert(out@.map_values(|s: String| s@) =~= before.push(path@));
                let f = sv.take(i as int).filter(pred);
                assert(f.push(sv[i as int]).map_values(|g: (Seq<char>, u64)| g.0) =~= f.map_values(
                    |g: (Seq<char>, u64)| g.0,
                ).push(path@));
            }
        }
        i = i + 1;
    }
    proof {
        assert(sv.take(sorted@.len() as int) =~= sv);
    }
    out
}

pub fn importable(path: &str, len: u64) -> (r: bool)
    ensures
        r == spec_importable(path@, len),
{
    let name = crate::archive::file_name_str(path);
    !str_eq(name.as_str(), "read me.txt") && len > 0 && !(str_ends_with(name.as_str(), ".gz") && len
        <= 20)
}

/// The source imported lines are attributed to: `file://` and the file's path.
pub fn import_source_addr(path: &str) -> (r: String)
    ensures
        r@ == "file://"@ + path@,
{
    concat("file://", path)
}

/// The lines of one file gathered for the next write.
#[derive(Debug)]
pub struct ImportBatch {
    lines: Vec<String>,
    batch_size: usize,
}

impl ImportBatch {
    pub closed spec fn spec_lines(self) -> Seq<Seq<char>> {
        self.lines@.map_values(|s: String| s@)
    }

    pub closed spec fn spec_batch_size(self) -> usize {
        self.batch_size
    }

    pub fn new(batch_size: usize) -> (r: Self)
        ensures
            r.spec_lines().len() == 0,
            r.spec_batch_size() == batch_size,
    {
        ImportBatch { lines: Vec::new(), batch_size }
    }

    /// A line read from the file: without its line end it joins the batch unless empty.
    /// Tells whether the batch is due to be written.
    pub fn push_line(&mut self, line: &str) -> (r: bool)
        ensures
            final(self).spec_batch_size() == old(self).spec_batch_size(),
            final(self).spec_lines() == if trim_line_end(line@).len() == 0 {
                old(self).spec_lines()
            } else {
                old(self).spec_lines().push(trim_line_end(line@))
            },
            r == (final(self).spec_lines().len() >= old(self).spec_batch_size()),
    {
        let t = crate::cold_search::line_without_end(line);
        if !t.as_str().is_empty() {
            let ghost before = self.spec_lines();
            let ghost tv = t@;
            self.lines.push(t);
            proof {
                assert(self.spec_lines() =~= before.push(tv));
            }
        }
        self.lines.len() >= self.batch_size
    }

    /// Hands the gathered lines over and starts an empty batch.
    pub fn take(&mut self) -> (r: Vec<String>)
        ensures
            r@.map_values(|s: String| s@) == old(self).spec_lines(),
            final(self).spec_lines().len() == 0,
            final(self).spec_batch_size() == old(self).spec_batch_size(),
    {
        let mut out: Vec<String> = Vec::new();
        std::mem::swap(&mut out, &mut self.lines);
        out
    }
}

/// The event the engine makes of one imported line.
pub open spec fn spec_import_event(engine: ParserEngine, source_addr: Seq<char>, now: Timestamp, line: Seq<char>) -> EventView {
    engine_outcome(
        engine.adapters(),
        engine.rule_list(),
        engine.route_groups(),
        engine.route_pins(),
        engine.adaptive_rules(),
        line,
        now,
        source_addr,
    ).event
}

/// Parses one imported line.
pub fn parse_import_line(engine: &ParserEngine, source_addr: &str, now: Timestamp, line: &String) -> (e: CanonicalEvent)
    ensures
        e@ == spec_import_event(*engine, source_addr@, now, line@),
{
    engine.parse(RawLog { ingest_time: now, source_addr: owned(source_addr), raw: line.clone() })
}

/// `rayon`'s `par_iter().map(..).collect()`: the lines parsed on the thread pool, collected in
/// their order.
#[verifier::external_body]
fn parse_import_lines_in_parallel(engine: &ParserEngine, source_addr: &str, now: Timestamp, lines: &Vec<String>) -> (r: Vec<CanonicalEvent>)
    ensures
        r@.len() == lines@.len(),
        forall|i: int|
            0 <= i < lines@.len() ==> (#[trigger] r@[i])@ == spec_import_event(*engine, source_addr@, now, lines@[i]@),
{
    lines.par_iter().map(|line| parse_import_line(engine, source_addr, now, line)).collect()
}

/// The events of a batch of lines from one file, read at `now`, in order.
pub fn parse_import_lines(engine: &ParserEngine, source_addr: &str, now: Timestamp, lines: &Vec<String>) -> (r: Vec<CanonicalEvent>)
    ensures
        r@.len() == lines@.len(),
        forall|i: int|
            0 <= i < lines@.len() ==> (#[trigger] r@[i])@ == spec_import_event(*engine, source_addr@, now, lines@[i]@),
{
    if lines.len() == 0 {
        return Vec::new();
    }
    parse_import_lines_in_parallel(engine, source_addr, now, lines)
}

/// A stored event parsed again from its raw text, arrival time and source, keeping its id.
pub fn reparse_event(engine: &ParserEngine, event: CanonicalEvent) -> (r: CanonicalEvent)
    ensures
        r@ == (EventView {
            event_id: event.event_id@,
            ..spec_import_event(*engine, event.source_addr@, event.ingest_time, event.raw@)
        }),
{
    let original_event_id = event.event_id;
    let mut reparsed = engine.parse(RawLog {
        ingest_time: event.ingest_time,
        source_addr: event.source_addr,
        raw: event.raw,
    });
    reparsed.event_id = original_event_id;
    reparsed
}

} // verus!
