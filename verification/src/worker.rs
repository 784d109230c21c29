//! The ingest worker: raw lines are spooled, gathered into batches and parsed batch by batch;
//! at start-up the segments left in the spool are parsed again. The worker's channel, clock,
//! files and database are the caller's; this module decides when a batch is flushed and what
//! a batch or a spooled segment parses to.
use vstd::prelude::*;
use rayon::iter::{IntoParallelRefIterator, ParallelIterator};
use crate::config::PipelineConfig;
use crate::event::{CanonicalEvent, RawLog};
use crate::paths::{spec_with_extension, with_extension};
use crate::sangfor::{LogAdapter, SangforAdapter};
use crate::spool::{ReplaySegment, SpoolRecord};

verus! {

/// What the worker's channel gave it.
#[derive(Debug)]
pub enum WorkerEvent {
    /// A line arrived.
    Received(RawLog),
    /// Nothing arrived within the flush interval.
    Timeout,
    /// Every sender is gone.
    Disconnected,
}

/// What the worker does next.
#[derive(Debug, Clone, Copy, PartialEq, Eq)]
pub enum WorkerAction {
    /// Wait for the next line.
    Continue,
    /// Parse and store the batch, then go on.
    Flush,
    /// Parse and store the batch, then stop.
    FlushAndStop,
}

/// The lines gathered since the last flush.
#[derive(Debug)]
pub struct WorkerBatch {
    batch: Vec<RawLog>,
    batch_size: usize,
}

impl WorkerBatch {
    pub closed spec fn lines(self) -> Seq<RawLog> {
        self.batch@
    }

    pub closed spec fn size(self) -> usize {
        self.batch_size
    }

    /// An empty batch flushed once it holds `batch_size` lines (at least one).
    pub fn new(batch_size: usize) -> (r: Self)
        ensures
            r.lines().len() == 0,
            r.size() == if batch_size >= 1 {
                batch_size
            } else {
                1
            },
    {
        WorkerBatch {
            batch: Vec::new(),
            batch_size: if batch_size >= 1 {
                batch_size
            } else {
                1
            },
        }
    }

    /// A line joins the batch, which is flushed once full; a timeout flushes what there is;
    /// a closed channel flushes and stops.
    pub fn step(&mut self, event: WorkerEvent) -> (r: WorkerAction)
        ensures
            final(self).size() == old(self).size(),
            match event {
                WorkerEvent::Received(raw) => final(self).lines() == old(self).lines().push(raw) && r
                    == if final(self).lines().len() >= old(self).size() {
                    WorkerAction::Flush
                } else {
                    WorkerAction::Continue
                },
                WorkerEvent::Timeout => final(self).lines() == old(self).lines() && r == WorkerAction::Flush,
                WorkerEvent::Disconnected => final(self).lines() == old(self).lines() && r
                    == WorkerAction::FlushAndStop,
            },
    {
        match event {
            WorkerEvent::Received(raw) => {
                self.batch.push(raw);
                if self.batch.len() >= self.batch_size {
                    WorkerAction::Flush
                } else {
                    WorkerAction::Continue
                }
            },
            WorkerEvent::Timeout => WorkerAction::Flush,
            WorkerEvent::Disconnected => WorkerAction::FlushAndStop,
        }
    }

    /// Hands the gathered lines over and starts an empty batch.
    pub fn take(&mut self) -> (r: Vec<RawLog>)
        ensures
            r@ == old(self).lines(),
            final(self).lines().len() == 0,
            final(self).size() == old(self).size(),
    {
        let mut out: Vec<RawLog> = Vec::new();
        std::mem::swap(&mut out, &mut self.batch);
        out
    }
}

/// The batch size and flush interval the worker uses: at least one line and at least
/// 100 ms.
pub fn worker_settings(config: &PipelineConfig) -> (r: (usize, u64))
    ensures
        r.0 == if config.batch_size >= 1 {
            config.batch_size
        } else {
            1
        },
        r.1 == if config.flush_interval_ms >= 100 {
            config.flush_interval_ms
        } else {
            100
        },
{
    (
        if config.batch_size >= 1 {
            config.batch_size
        } else {
            1
        },
        if config.flush_interval_ms >= 100 {
            config.flush_interval_ms
        } else {
            100
        },
    )
}

/// The event the Sangfor adapter makes of a line.
pub fn parse_line(adapter: &SangforAdapter, raw: &RawLog) -> (e: CanonicalEvent)
    ensures
        e@ == adapter.spec_parse(raw.raw@, raw.ingest_time, raw.source_addr@),
{
    adapter.parse(raw.duplicate())
}

/// Every line of the batch parsed, in order.
pub open spec fn batch_parsed(adapter: SangforAdapter, lines: Seq<RawLog>, events: Seq<CanonicalEvent>) -> bool {
    &&& events.len() == lines.len()
    &&& forall|i: int|
        0 <= i < lines.len() ==> (#[trigger] events[i])@ == adapter.spec_parse(
            lines[i].raw@,
            lines[i].ingest_time,
            lines[i].source_addr@,
        )
}

/// `rayon`'s `par_iter().map(..).collect()`: the lines parsed on the thread pool, collected in
/// their order.
#[verifier::external_body]
fn parse_lines_in_parallel(adapter: &SangforAdapter, lines: &Vec<RawLog>) -> (r: Vec<CanonicalEvent>)
    ensures
        batch_parsed(*adapter, lines@, r@),
{
    lines.par_iter().map(|raw| parse_line(adapter, raw)).collect()
}

/// Parses a batch of lines with the Sangfor adapter, spread over threads.
pub fn parse_batch(adapter: &SangforAdapter, lines: &Vec<RawLog>) -> (r: Vec<CanonicalEvent>)
    ensures
        batch_parsed(*adapter, lines@, r@),
{
    if lines.len() == 0 {
        return Vec::new();
    }
    parse_lines_in_parallel(adapter, lines)
}

/// The events an adapter makes of spooled records, in order.
pub fn events_from_records<A: LogAdapter>(adapter: &A, records: &Vec<SpoolRecord>) -> (r: Vec<CanonicalEvent>)
    ensures
        r@.len() == records@.len(),
        forall|i: int|
            0 <= i < records@.len() ==> (#[trigger] r@[i])@ == adapter.spec_parse(
                records@[i].raw@,
                records@[i].ingest_time,
                records@[i].source_addr@,
            ),
{
    let mut out: Vec<CanonicalEvent> = Vec::new();
    let mut i: usize = 0;
    while i < records.len()
        invariant
            i <= records@.len(),
            out@.len() == i,
            forall|j: int|
                0 <= j < i ==> (#[trigger] out@[j])@ == adapter.spec_parse(
                    records@[j].raw@,
                    records@[j].ingest_time,
                    records@[j].source_addr@,
                ),
        decreases records.len() - i,
    {
        let record = &records[i];
        let raw = RawLog {
            ingest_time: record.ingest_time,
            source_addr: record.source_addr.clone(),
            raw: record.raw.clone(),
        };
        out.push(adapter.parse(raw));
        i = i + 1;
    }
    out
}

/// Where a replayed segment is moved once its records are stored: the same path with the
/// extension `committed`.
pub fn committed_segment_path(segment: &ReplaySegment) -> (r: String)
    ensures
        r@ == spec_with_extension(segment.path@, "committed"@),
{
    proof {
        reveal_strlit("committed");
    }
    with_extension(segment.path.as_str(), "committed")
}

} // verus!
