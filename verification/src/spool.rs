//! The write-ahead spool: raw lines get consecutive offsets in a segment, a checkpoint says
//! which offsets are committed, and segments are named by their state.
use vstd::prelude::*;
use crate::event::{RawLog, Timestamp};
use crate::control::text_lt;
use crate::text::{concat, owned, str_ends_with};

verus! {

/// One spooled line with its offset in the segment.
#[derive(Debug, Clone, PartialEq, Eq)]
pub struct SpoolRecord {
    pub offset: u64,
    pub ingest_time: Timestamp,
    pub source_addr: String,
    pub raw: String,
}

/// The highest offset already stored.
#[derive(Debug, Clone, Copy, PartialEq, Eq)]
pub struct SpoolCheckpoint {
    pub committed_offset: u64,
}

impl Default for SpoolCheckpoint {
    fn default() -> (r: Self)
        ensures
            r.committed_offset == 0,
    {
        SpoolCheckpoint { committed_offset: 0 }
    }
}

/// The file names of a segment while it is written and once it is sealed.
pub fn segment_file_names(name: &str) -> (r: (String, String))
    ensures
        r.0@ == name@ + ".open"@,
        r.1@ == name@ + ".sealed"@,
{
    (concat(name, ".open"), concat(name, ".sealed"))
}

/// The offsets of a segment being written; the file itself is written by the caller.
pub struct SegmentWriter {
    open_path: String,
    sealed_path: String,
    next_offset: u64,
}

impl SegmentWriter {
    /// The offset the next record gets.
    pub closed spec fn next(self) -> u64 {
        self.next_offset
    }

    /// A new segment: the first record gets offset 1.
    pub fn new(open_path: String, sealed_path: String) -> (r: Self)
        ensures
            r.next() == 1,
            r.spec_open_path() == open_path@,
            r.spec_sealed_path() == sealed_path@,
    {
        SegmentWriter { open_path, sealed_path, next_offset: 1 }
    }

    pub closed spec fn spec_open_path(self) -> Seq<char> {
        self.open_path@
    }

    pub closed spec fn spec_sealed_path(self) -> Seq<char> {
        self.sealed_path@
    }

    /// The offset the next record gets.
    pub fn next_offset(&self) -> (r: u64)
        ensures
            r == self.next(),
    {
        self.next_offset
    }

    pub fn open_path(&self) -> (r: &str)
        ensures
            r@ == self.spec_open_path(),
    {
        self.open_path.as_str()
    }

    pub fn sealed_path(&self) -> (r: &str)
        ensures
            r@ == self.spec_sealed_path(),
    {
        self.sealed_path.as_str()
    }

    /// The record of a line: the next offset, and the line's time, source and text.
    pub fn append(&mut self, raw: RawLog) -> (r: SpoolRecord)
        requires
            old(self).next() < u64::MAX,
        ensures
            r.offset == old(self).next(),
            final(self).next() == old(self).next() + 1,
            r.ingest_time == raw.ingest_time,
            r.source_addr@ == raw.source_addr@,
            r.raw@ == raw.raw@,
            final(self).spec_open_path() == old(self).spec_open_path(),
            final(self).spec_sealed_path() == old(self).spec_sealed_path(),
    {
        let record = SpoolRecord {
            offset: self.next_offset,
            ingest_time: raw.ingest_time,
            source_addr: raw.source_addr,
            raw: raw.raw,
        };
        self.next_offset = self.next_offset + 1;
        record
    }
}

/// A sealed segment to read back; the lines are read and decoded by the caller, and
/// `records_after` keeps the ones past a checkpoint.
#[derive(Debug, Clone)]
pub struct SegmentReader {
    path: String,
}

impl SegmentReader {
    pub closed spec fn spec_path(self) -> Seq<char> {
        self.path@
    }

    pub fn open(path: &str) -> (r: Self)
        ensures
            r.spec_path() == path@,
    {
        SegmentReader { path: owned(path) }
    }

    pub fn path(&self) -> (r: &str)
        ensures
            r@ == self.spec_path(),
    {
        self.path.as_str()
    }
}

/// The records after a checkpoint, in order.
pub open spec fn spec_records_after(records: Seq<SpoolRecord>, checkpoint: SpoolCheckpoint) -> Seq<SpoolRecord> {
    records.filter(|r: SpoolRecord| r.offset > checkpoint.committed_offset)
}

proof fn lemma_filter_push(s: Seq<SpoolRecord>, x: SpoolRecord, c: u64)
    ensures
        s.push(x).filter(|r: SpoolRecord| r.offset > c) == if x.offset > c {
            s.filter(|r: SpoolRecord| r.offset > c).push(x)
        } else {
            s.filter(|r: SpoolRecord| r.offset > c)
        },
{
    reveal_with_fuel(Seq::filter, 1);
    assert(s.push(x).drop_last() =~= s);
}

/// Keeps the records whose offset is past the checkpoint.
pub fn records_after(records: Vec<SpoolRecord>, checkpoint: SpoolCheckpoint) -> (r: Vec<SpoolRecord>)
    ensures
        r@ == spec_records_after(records@, checkpoint),
{
    let ghost input = records@;
    let mut out: Vec<SpoolRecord> = Vec::new();
    let mut rest = records;
    proof {
        reveal_with_fuel(Seq::filter, 1);
        assert(input.take(0) =~= Seq::<SpoolRecord>::empty());
    }
    let mut reversed: Vec<SpoolRecord> = Vec::new();
    while rest.len() > 0
        invariant
            rest@ == input.take(rest@.len() as int),
            rest@.len() <= input.len(),
            reversed@.len() + rest@.len() == input.len(),
            forall|k: int| 0 <= k < reversed@.len() ==> reversed@[k] == input[input.len() - 1 - k],
        decreases rest.len(),
    {
        let ghost k = rest@.len();
        let r = rest.pop().unwrap();
        proof {
            assert(rest@ =~= input.take(k - 1));
        }
        reversed.push(r);
    }
    while reversed.len() > 0
        invariant
            reversed@.len() <= input.len(),
            forall|k: int| 0 <= k < reversed@.len() ==> reversed@[k] == input[input.len() - 1 - k],
            out@ == spec_records_after(input.take(input.len() - reversed@.len()), checkpoint),
        decreases reversed.len(),
    {
        let ghost m = reversed@.len();
        let r = reversed.pop().unwrap();
        let ghost idx = input.len() - m;
        proof {
            assert(r == input[idx]);
            assert(input.take(idx + 1) =~= input.take(idx).push(r));
            lemma_filter_push(input.take(idx), r, checkpoint.committed_offset);
        }
        if r.offset > checkpoint.committed_offset {
            out.push(r);
        }
    }
    proof {
        assert(input.take(input.len() as int) =~= input);
    }
    out
}

/// A segment found in the spool directory.
#[derive(Debug, Clone)]
pub struct ReplaySegment {
    pub path: String,
    pub name: String,
}

/// Counts of a replay pass.
#[derive(Debug)]
pub struct ReplayStats {
    pub segments_found: usize,
    pub records_replayed: usize,
    pub segments_deleted: usize,
}

impl Default for ReplayStats {
    fn default() -> (r: Self)
        ensures
            r.segments_found == 0,
            r.records_replayed == 0,
            r.segments_deleted == 0,
    {
        ReplayStats { segments_found: 0, records_replayed: 0, segments_deleted: 0 }
    }
}

/// A sealed or still open segment, which may hold records not yet stored.
pub open spec fn spec_is_uncommitted_name(name: Seq<char>) -> bool {
    crate::text::seq_ends_with(name, ".sealed"@) || crate::text::seq_ends_with(name, ".open"@)
}

pub fn is_uncommitted_segment_name(name: &str) -> (r: bool)
    ensures
        r == spec_is_uncommitted_name(name@),
{
    str_ends_with(name, ".sealed") || str_ends_with(name, ".open")
}

/// A segment whose records are all stored.
pub fn is_committed_segment_name(name: &str) -> (r: bool)
    ensures
        r == crate::text::seq_ends_with(name@, ".committed"@),
{
    str_ends_with(name, ".committed")
}

/// Where a segment goes among segments already in name order: before the first one whose
/// name is not smaller.
pub open spec fn name_position(sorted: Seq<ReplaySegment>, name: Seq<char>) -> int {
    if exists|i: int| 0 <= i < sorted.len() && !text_lt(sorted[i].name@, name) {
        choose|i: int|
            0 <= i < sorted.len() && !text_lt(sorted[i].name@, name) && forall|j: int|
                0 <= j < i ==> text_lt(sorted[j].name@, name)
    } else {
        sorted.len() as int
    }
}

/// Segments in ascending name order; equal names keep their order.
pub open spec fn sort_by_name(s: Seq<ReplaySegment>) -> Seq<ReplaySegment>
    decreases s.len(),
{
    if s.len() == 0 {
        s
    } else {
        let rest = sort_by_name(s.drop_first());
        rest.insert(name_position(rest, s[0].name@), s[0])
    }
}

fn insert_by_name(sorted: &mut Vec<ReplaySegment>, seg: ReplaySegment)
    ensures
        final(sorted)@ == old(sorted)@.insert(name_position(old(sorted)@, seg.name@), seg),
{
    let mut i: usize = 0;
    while i < sorted.len() && crate::control::text_less(sorted[i].name.as_str(), seg.name.as_str())
        invariant
            i <= sorted@.len(),
            sorted@ == old(sorted)@,
            forall|j: int| 0 <= j < i ==> text_lt(sorted@[j].name@, seg.name@),
        decreases sorted.len() - i,
    {
        i = i + 1;
    }
    proof {
        let s = old(sorted)@;
        if exists|k: int| 0 <= k < s.len() && !text_lt(s[k].name@, seg.name@) {
            let c = name_position(s, seg.name@);
            assert(i < s.len());
            if c < i {
                assert(text_lt(s[c].name@, seg.name@));
            }
            if c > i {
                assert(!text_lt(s[i as int].name@, seg.name@));
            }
        } else {
            if i < s.len() {
                assert(!text_lt(s[i as int].name@, seg.name@));
            }
        }
    }
    sorted.insert(i, seg);
}

/// The segments that may hold unstored records, in name order.
pub open spec fn spec_uncommitted_segments(entries: Seq<ReplaySegment>) -> Seq<ReplaySegment> {
    sort_by_name(entries.filter(|s: ReplaySegment| spec_is_uncommitted_name(s.name@)))
}


/// Picks the sealed and open segments among the files of a spool directory and orders them
/// by name.
pub fn uncommitted_segments(entries: Vec<ReplaySegment>) -> (r: Vec<ReplaySegment>)
    ensures
        r@ == spec_uncommitted_segments(entries@),
{
    let ghost input = entries@;
    let mut rest = entries;
    let mut picked: Vec<ReplaySegment> = Vec::new();
    proof {
        reveal_with_fuel(Seq::filter, 1);
    }
    while rest.len() > 0
        invariant
            rest@ == input.take(rest@.len() as int),
            rest@.len() <= input.len(),
            picked@ == sort_by_name(
                input.skip(rest@.len() as int).filter(|s: ReplaySegment| spec_is_uncommitted_name(s.name@)),
            ),
        decreases rest.len(),
    {
        let ghost k = rest@.len() as int;
        let seg = rest.pop().unwrap();
        proof {
            assert(rest@ =~= input.take(k - 1));
            assert(seg == input[k - 1]);
            let tail = input.skip(k);
            let tail2 = input.skip(k - 1);
            assert(tail2 =~= seq![seg] + tail);
            reveal_with_fuel(Seq::filter, 1);
            lemma_filter_prepend(tail, seg);
        }
        if is_uncommitted_segment_name(seg.name.as_str()) {
            insert_by_name(&mut picked, seg);
        }
    }
    proof {
        assert(input.skip(0) =~= input);
    }
    picked
}

proof fn lemma_filter_prepend(tail: Seq<ReplaySegment>, x: ReplaySegment)
    ensures
        (seq![x] + tail).filter(|r: ReplaySegment| spec_is_uncommitted_name(r.name@)) == if spec_is_uncommitted_name(x.name@) {
            seq![x] + tail.filter(|r: ReplaySegment| spec_is_uncommitted_name(r.name@))
        } else {
            tail.filter(|r: ReplaySegment| spec_is_uncommitted_name(r.name@))
        },
        spec_is_uncommitted_name(x.name@) ==> sort_by_name(seq![x] + tail.filter(|r: ReplaySegment| spec_is_uncommitted_name(r.name@)))
            == sort_by_name(tail.filter(|r: ReplaySegment| spec_is_uncommitted_name(r.name@))).insert(
            name_position(sort_by_name(tail.filter(|r: ReplaySegment| spec_is_uncommitted_name(r.name@))), x.name@),
            x,
        ),
{
    let f = |r: ReplaySegment| spec_is_uncommitted_name(r.name@);
    Seq::filter_distributes_over_add(seq![x], tail, f);
    reveal_with_fuel(Seq::filter, 2);
    assert(seq![x].drop_last() =~= Seq::<ReplaySegment>::empty());
    if f(x) {
        assert(seq![x].filter(f) =~= seq![x]);
        let t = seq![x] + tail.filter(f);
        assert(t.drop_first() =~= tail.filter(f));
        assert(t[0] == x);
    } else {
        assert(seq![x].filter(f) =~= Seq::<ReplaySegment>::empty());
        assert(Seq::<ReplaySegment>::empty() + tail.filter(f) =~= tail.filter(f));
    }
}

} // verus!
