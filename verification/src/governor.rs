//! Storage governance: when the archive and lifecycle phases run, the names of the files
//! they write, and the report of a cycle. The phases themselves (reading the hot database,
//! writing files, sleeping between ticks) are done by the caller.
use vstd::prelude::*;
use crate::calendar::{spec_utc_stamp_text, utc_stamp_text};
use crate::config::{ArchiveConfig, LifecycleConfig};
use crate::event::Timestamp;
use crate::paths::{join_path, spec_join, spec_with_file_name, with_file_name};
use crate::text::concat;

verus! {

/// Both phases the governor runs.
#[derive(Debug, Clone)]
pub struct GovernorConfig {
    pub archive: ArchiveConfig,
    pub lifecycle: LifecycleConfig,
}

/// The shortest interval between two runs of a phase, in seconds.
pub const MIN_PHASE_INTERVAL_SECONDS: u64 = 60;

pub open spec fn max_u64(a: u64, b: u64) -> u64 {
    if a >= b {
        a
    } else {
        b
    }
}

pub open spec fn min_u64(a: u64, b: u64) -> u64 {
    if a <= b {
        a
    } else {
        b
    }
}

/// The tick counters of the two phases. Each tick both counters advance; an enabled phase
/// runs once its counter reaches its threshold, and its counter then starts again.
#[derive(Debug, Clone, Copy)]
pub struct GovernorSchedule {
    pub tick_seconds: u64,
    pub archive_enabled: bool,
    pub lifecycle_enabled: bool,
    pub archive_threshold: u64,
    pub lifecycle_threshold: u64,
    pub archive_ticks: u64,
    pub lifecycle_ticks: u64,
}

/// The phases one tick runs.
#[derive(Debug, Clone, Copy, PartialEq, Eq)]
pub struct GovernorTick {
    pub run_archive: bool,
    pub run_lifecycle: bool,
}

/// The schedule a configuration starts with: the tick is the shorter of the two intervals,
/// each raised to at least a minute, and a phase runs every `interval / tick` ticks, at least
/// every tick.
pub open spec fn spec_schedule(config: GovernorConfig) -> GovernorSchedule {
    let archive_interval = max_u64(config.archive.interval_seconds, 60);
    let lifecycle_interval = max_u64(config.lifecycle.interval_seconds, 60);
    let tick = min_u64(archive_interval, lifecycle_interval);
    GovernorSchedule {
        tick_seconds: tick,
        archive_enabled: config.archive.enabled,
        lifecycle_enabled: config.lifecycle.enabled,
        archive_threshold: max_u64((config.archive.interval_seconds / tick) as u64, 1),
        lifecycle_threshold: max_u64((config.lifecycle.interval_seconds / tick) as u64, 1),
        archive_ticks: 0,
        lifecycle_ticks: 0,
    }
}

/// One tick: both counters advance, and a phase that is enabled and has reached its
/// threshold runs and starts counting again.
pub open spec fn spec_tick(s: GovernorSchedule) -> (GovernorSchedule, GovernorTick) {
    let a = s.archive_ticks + 1;
    let l = s.lifecycle_ticks + 1;
    let run_archive = s.archive_enabled && a >= s.archive_threshold;
    let run_lifecycle = s.lifecycle_enabled && l >= s.lifecycle_threshold;
    (
        GovernorSchedule {
            archive_ticks: if run_archive {
                0
            } else {
                a as u64
            },
            lifecycle_ticks: if run_lifecycle {
                0
            } else {
                l as u64
            },
            ..s
        },
        GovernorTick { run_archive, run_lifecycle },
    )
}

impl GovernorSchedule {
    pub fn new(config: &GovernorConfig) -> (r: GovernorSchedule)
        ensures
            r == spec_schedule(*config),
            r.tick_seconds >= MIN_PHASE_INTERVAL_SECONDS,
    {
        let archive_interval = if config.archive.interval_seconds >= 60 {
            config.archive.interval_seconds
        } else {
            60
        };
        let lifecycle_interval = if config.lifecycle.interval_seconds >= 60 {
            config.lifecycle.interval_seconds
        } else {
            60
        };
        let tick = if archive_interval <= lifecycle_interval {
            archive_interval
        } else {
            lifecycle_interval
        };
        let a = config.archive.interval_seconds / tick;
        let l = config.lifecycle.interval_seconds / tick;
        GovernorSchedule {
            tick_seconds: tick,
            archive_enabled: config.archive.enabled,
            lifecycle_enabled: config.lifecycle.enabled,
            archive_threshold: if a >= 1 {
                a
            } else {
                1
            },
            lifecycle_threshold: if l >= 1 {
                l
            } else {
                1
            },
            archive_ticks: 0,
            lifecycle_ticks: 0,
        }
    }

    /// Whether an archive cycle runs at start-up, before the first tick.
    pub fn runs_initial_archive(&self) -> (r: bool)
        ensures
            r == self.archive_enabled,
    {
        self.archive_enabled
    }

    /// Advances the schedule by one tick and says which phases run now.
    pub fn tick(&mut self) -> (r: GovernorTick)
        requires
            old(self).archive_ticks < u64::MAX,
            old(self).lifecycle_ticks < u64::MAX,
        ensures
            (*final(self), r) == spec_tick(*old(self)),
    {
        let a = self.archive_ticks + 1;
        let l = self.lifecycle_ticks + 1;
        let run_archive = self.archive_enabled && a >= self.archive_threshold;
        let run_lifecycle = self.lifecycle_enabled && l >= self.lifecycle_threshold;
        self.archive_ticks = if run_archive {
            0
        } else {
            a
        };
        self.lifecycle_ticks = if run_lifecycle {
            0
        } else {
            l
        };
        GovernorTick { run_archive, run_lifecycle }
    }
}

/// What an archive phase wrote and removed.
#[derive(Debug, Clone, Copy)]
pub struct ArchivePhaseReport {
    pub events_archived: usize,
    pub parquet_removed: usize,
    pub frozen_removed: usize,
}

/// How the archive phase of a cycle went.
#[derive(Debug, Clone, Copy)]
pub enum ArchiveOutcome {
    NotRun,
    Failed,
    Completed(ArchivePhaseReport),
}

/// How the lifecycle phase of a cycle went: the rows compacted when it completed.
#[derive(Debug, Clone, Copy)]
pub enum LifecycleOutcome {
    NotRun,
    Failed,
    Completed(usize),
}

/// The report of one governance cycle.
#[derive(Debug, Clone)]
pub struct GovernorCycleReport {
    pub archive_completed: bool,
    pub archive_events: usize,
    pub archive_parquet_removed: usize,
    pub archive_frozen_removed: usize,
    pub lifecycle_completed: bool,
    pub lifecycle_compacted_rows: usize,
}

impl GovernorCycleReport {
    /// A cycle's report: the counts of each phase that completed, zero for one that did not
    /// run or failed.
    pub fn from_outcomes(archive: ArchiveOutcome, lifecycle: LifecycleOutcome) -> (r: Self)
        ensures
            r.archive_completed == (archive is Completed),
            archive matches ArchiveOutcome::Completed(a) ==> r.archive_events == a.events_archived
                && r.archive_parquet_removed == a.parquet_removed && r.archive_frozen_removed
                == a.frozen_removed,
            !(archive is Completed) ==> r.archive_events == 0 && r.archive_parquet_removed == 0
                && r.archive_frozen_removed == 0,
            r.lifecycle_completed == (lifecycle is Completed),
            lifecycle matches LifecycleOutcome::Completed(n) ==> r.lifecycle_compacted_rows == n,
            !(lifecycle is Completed) ==> r.lifecycle_compacted_rows == 0,
    {
        let mut report = GovernorCycleReport {
            archive_completed: false,
            archive_events: 0,
            archive_parquet_removed: 0,
            archive_frozen_removed: 0,
            lifecycle_completed: false,
            lifecycle_compacted_rows: 0,
        };
        match archive {
            ArchiveOutcome::Completed(a) => {
                report.archive_completed = true;
                report.archive_events = a.events_archived;
                report.archive_parquet_removed = a.parquet_removed;
                report.archive_frozen_removed = a.frozen_removed;
            },
            _ => {},
        }
        match lifecycle {
            LifecycleOutcome::Completed(n) => {
                report.lifecycle_completed = true;
                report.lifecycle_compacted_rows = n;
            },
            _ => {},
        }
        report
    }
}

// ---------------------------------------------------------------- file names

pub open spec fn digit_char(d: nat) -> char {
    ((d % 10) + 48) as char
}

/// The last `width` decimal digits of `n`, zero-padded.
pub open spec fn padded_digits(n: nat, width: nat) -> Seq<char>
    decreases width,
{
    if width == 0 {
        Seq::empty()
    } else {
        padded_digits(n / 10, (width - 1) as nat).push(digit_char(n))
    }
}

pub(crate) fn push_padded_digits(out: &mut String, n: u64, width: u32)
    requires
        width <= 20,
    ensures
        final(out)@ == old(out)@ + padded_digits(n as nat, width as nat),
    decreases width,
{
    if width > 0 {
        push_padded_digits(out, n / 10, width - 1);
        let d: u8 = (n % 10) as u8;
        let c: char = (d + 48) as char;
        let ghost before = out@;
        let s = crate::text::string_from_chars(&[c]);
        let joined = concat(out.as_str(), s.as_str());
        *out = joined;
        assert(out@ =~= before.push(c));
        assert(c == digit_char(n as nat));
    }
}

/// The stamp of an archive: the UTC time as `%Y%m%d-%H%M%S%.6f`, a `-` and the last six
/// digits of a sequence number. `None` when chrono cannot represent the time.
pub open spec fn spec_archive_stamp(now: Timestamp, sequence: u64) -> Option<Seq<char>> {
    match spec_utc_stamp_text(now.secs, now.nanos) {
        Some(t) => Some(t + "-"@ + padded_digits((sequence % 1_000_000) as nat, 6)),
        None => None,
    }
}

pub fn archive_stamp(now: Timestamp, sequence: u64) -> (r: Option<String>)
    ensures
        r matches Some(s) ==> spec_archive_stamp(now, sequence) == Some(s@),
        r is None ==> spec_archive_stamp(now, sequence) is None,
{
    match utc_stamp_text(now) {
        None => None,
        Some(t) => {
            let mut out = concat(t.as_str(), "-");
            push_padded_digits(&mut out, sequence % 1_000_000, 6);
            Some(out)
        },
    }
}

/// Where an archive phase writes and what it records.
#[derive(Debug, Clone)]
pub struct ArchivePhasePlan {
    pub parquet_path: String,
    pub frozen_path: String,
    pub frozen_index_path: String,
    pub frozen_uri: String,
    pub day_start: String,
    pub day_end: String,
    pub batch_limit: usize,
    pub parquet_retention_seconds: u64,
    pub frozen_retention_seconds: u64,
}

pub open spec fn retention_seconds(days: u64) -> int {
    max_u64(days, 1) * 86_400
}

/// Whether both retentions of `config`, in seconds, fit in a `u64`.
pub fn archive_retention_fits(config: &ArchiveConfig) -> (r: bool)
    ensures
        r == (retention_seconds(config.parquet_retention_days) <= u64::MAX
            && retention_seconds(config.frozen_retention_days) <= u64::MAX),
{
    let p: u64 = if config.parquet_retention_days >= 1 { config.parquet_retention_days } else { 1 };
    let f: u64 = if config.frozen_retention_days >= 1 { config.frozen_retention_days } else { 1 };
    p <= u64::MAX / 86_400 && f <= u64::MAX / 86_400
}

/// The files of an archive phase stamped `stamp` on `day`: `events-<stamp>.parquet` in the
/// Parquet directory, `frozen-<stamp>.raw.zst` in the frozen directory and indexed by that
/// name, the day's first and last second, at least one event per batch, and retentions of at
/// least one day.
pub fn plan_archive_phase(
    parquet_dir: &str,
    frozen_dir: &str,
    stamp: &str,
    day: &str,
    config: &ArchiveConfig,
) -> (r: ArchivePhasePlan)
    requires
        retention_seconds(config.parquet_retention_days) <= u64::MAX,
        retention_seconds(config.frozen_retention_days) <= u64::MAX,
    ensures
        r.parquet_path@ == spec_join(parquet_dir@, "events-"@ + stamp@ + ".parquet"@),
        r.frozen_index_path@ == "frozen-"@ + stamp@ + ".raw.zst"@,
        r.frozen_path@ == spec_join(frozen_dir@, r.frozen_index_path@),
        r.frozen_uri@ == "frozen://"@ + r.frozen_index_path@,
        r.day_start@ == day@ + "T00:00:00Z"@,
        r.day_end@ == day@ + "T23:59:59Z"@,
        r.batch_limit == if config.batch_limit >= 1 {
            config.batch_limit
        } else {
            1
        },
        r.parquet_retention_seconds == retention_seconds(config.parquet_retention_days),
        r.frozen_retention_seconds == retention_seconds(config.frozen_retention_days),
{
    let p1 = concat("events-", stamp);
    let parquet_name = concat(p1.as_str(), ".parquet");
    let f1 = concat("frozen-", stamp);
    let frozen_name = concat(f1.as_str(), ".raw.zst");
    let parquet_days = if config.parquet_retention_days >= 1 {
        config.parquet_retention_days
    } else {
        1
    };
    let frozen_days = if config.frozen_retention_days >= 1 {
        config.frozen_retention_days
    } else {
        1
    };
    ArchivePhasePlan {
        parquet_path: join_path(parquet_dir, parquet_name.as_str()),
        frozen_path: join_path(frozen_dir, frozen_name.as_str()),
        frozen_uri: concat("frozen://", frozen_name.as_str()),
        frozen_index_path: frozen_name,
        day_start: concat(day, "T00:00:00Z"),
        day_end: concat(day, "T23:59:59Z"),
        batch_limit: if config.batch_limit >= 1 {
            config.batch_limit
        } else {
            1
        },
        parquet_retention_seconds: parquet_days * 86_400,
        frozen_retention_seconds: frozen_days * 86_400,
    }
}

/// Where a lifecycle phase stamped `stamp` writes the compacted database: beside the hot
/// database, named `oxidelog-hot-<stamp>.duckdb`.
pub fn lifecycle_output_path(duckdb_path: &str, stamp: &str) -> (r: String)
    ensures
        r@ == spec_with_file_name(duckdb_path@, "oxidelog-hot-"@ + stamp@ + ".duckdb"@),
{
    let n1 = concat("oxidelog-hot-", stamp);
    let name = concat(n1.as_str(), ".duckdb");
    with_file_name(duckdb_path, name.as_str())
}

/// What a lifecycle compaction did.
#[derive(Debug, Clone, PartialEq, Eq)]
pub struct LifecycleReport {
    pub hot_limit: usize,
    pub compacted_rows: usize,
    pub pruned_raw_rows: usize,
    pub output_path: String,
}

/// The number of rows a compaction keeps hot: the configured limit, at least one.
pub fn lifecycle_hot_limit(hot_limit: usize) -> (r: usize)
    ensures
        r == if hot_limit >= 1 {
            hot_limit
        } else {
            1
        },
{
    if hot_limit >= 1 {
        hot_limit
    } else {
        1
    }
}

impl LifecycleReport {
    /// The report of a compaction into `output_path` that kept `compacted_rows` rows under a
    /// configured limit of `hot_limit`; the active database is not pruned.
    pub fn new(hot_limit: usize, compacted_rows: usize, output_path: String) -> (r: Self)
        ensures
            r.hot_limit == if hot_limit >= 1 {
                hot_limit
            } else {
                1
            },
            r.compacted_rows == compacted_rows,
            r.pruned_raw_rows == 0,
            r.output_path == output_path,
    {
        LifecycleReport {
            hot_limit: lifecycle_hot_limit(hot_limit),
            compacted_rows,
            pruned_raw_rows: 0,
            output_path,
        }
    }
}

} // verus!
