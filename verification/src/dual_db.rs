//! Read/write separation over two databases: the worker writes one, the API reads the
//! other, and a periodic sync copies new events across. The databases are opened, read and
//! written by the caller; this module decides paths, sync progress and metrics.
use vstd::prelude::*;
use crate::metrics::{wrap_add, DualDbMetrics};
use crate::paths::{join_path, path_parent, spec_join, spec_path_parent, spec_with_extension, with_extension};
use crate::text::owned;
use crate::control::{lemma_text_lt_transitive, text_less, text_lt};
use crate::event::{CanonicalEvent, EventView};
use crate::hybrid::before;

verus! {

/// Whether the two databases are used, and how often they are synced.
#[derive(Debug, Clone, Copy)]
pub struct DualDbConfig {
    pub enabled: bool,
    pub sync_interval_seconds: u64,
}

impl Default for DualDbConfig {
    /// Off, syncing every five minutes when switched on.
    fn default() -> (r: Self)
        ensures
            !r.enabled,
            r.sync_interval_seconds == 300,
    {
        DualDbConfig { enabled: false, sync_interval_seconds: 300 }
    }
}

/// What a sync copied, and the newest event id the query database has from it.
#[derive(Debug, Clone)]
pub struct SyncReport {
    pub rows_synced: u64,
    pub last_event_id: String,
}

impl Default for SyncReport {
    fn default() -> (r: Self)
        ensures
            r.rows_synced == 0,
            r.last_event_id@.len() == 0,
    {
        SyncReport { rows_synced: 0, last_event_id: String::new() }
    }
}

/// Where a sync starts reading the write database.
#[derive(Debug, Clone, PartialEq, Eq)]
pub enum SyncStart {
    /// The manager is switched off: nothing to sync.
    Disabled,
    /// No sync yet: the newest event of the query database says where to start.
    FindLastInQuery,
    /// Events after this id.
    After(String),
}

/// Which events of the write database a sync copies.
#[derive(Debug, Clone, PartialEq, Eq)]
pub enum SyncSource {
    /// Every event (the query database is empty).
    All,
    /// Events after this id.
    After(String),
}

pub const WRITE_DB_FILE_NAME: &'static str = "oxidelog-write.duckdb";

pub const QUERY_DB_FILE_NAME: &'static str = "oxidelog-query.duckdb";

/// Sync order of events: by ingest time, then by id (the order in which the write database
/// hands out new events).
pub open spec fn sync_before(a: EventView, b: EventView) -> bool {
    before(a.ingest_time, b.ingest_time) || (a.ingest_time == b.ingest_time && text_lt(
        a.event_id,
        b.event_id,
    ))
}

/// `events[i]` is a newest event in sync order: no event of `events` comes after it.
pub open spec fn is_newest(events: Seq<EventView>, i: int) -> bool {
    &&& 0 <= i < events.len()
    &&& forall|j: int| 0 <= j < events.len() ==> !sync_before(events[i], #[trigger] events[j])
}

/// The views of a list of events.
pub open spec fn event_views(events: Seq<CanonicalEvent>) -> Seq<EventView> {
    events.map_values(|e: CanonicalEvent| e@)
}

proof fn lemma_sync_before_transitive(a: EventView, b: EventView, c: EventView)
    requires
        sync_before(a, b),
        sync_before(b, c),
    ensures
        sync_before(a, c),
{
    if a.ingest_time == b.ingest_time && b.ingest_time == c.ingest_time {
        lemma_text_lt_transitive(a.event_id, b.event_id, c.event_id);
    }
}

/// The id of the newest of the events a sync copied, in sync order: the id the next sync
/// starts after. `None` when nothing was copied.
pub fn newest_copied_id(events: &Vec<CanonicalEvent>) -> (r: Option<String>)
    ensures
        r is None <==> events.len() == 0,
        r matches Some(id) ==> exists|i: int|
            is_newest(event_views(events@), i) && #[trigger] event_views(events@)[i].event_id == id@,
{
    if events.len() == 0 {
        return None;
    }
    let ghost views = event_views(events@);
    let mut best: usize = 0;
    let mut k: usize = 1;
    proof {
        crate::control::lemma_text_lt_irreflexive(views[0].event_id);
    }
    while k < events.len()
        invariant
            views == event_views(events@),
            views.len() == events.len(),
            0 <= best < k <= events.len(),
            forall|j: int| 0 <= j < k ==> !sync_before(views[best as int], #[trigger] views[j]),
        decreases events.len() - k,
    {
        let b = &events[best];
        let e = &events[k];
        assert(views[best as int] == b@);
        assert(views[k as int] == e@);
        let later = b.ingest_time.secs < e.ingest_time.secs || (b.ingest_time.secs == e.ingest_time.secs
            && (b.ingest_time.nanos < e.ingest_time.nanos || (b.ingest_time.nanos == e.ingest_time.nanos
            && text_less(b.event_id.as_str(), e.event_id.as_str()))));
        proof {
            assert(b.ingest_time.nanos == e.ingest_time.nanos && b.ingest_time.secs == e.ingest_time.secs
                ==> b.ingest_time == e.ingest_time);
            assert(later == sync_before(b@, e@));
        }
        if later {
            proof {
                assert forall|j: int| 0 <= j < k + 1 implies !sync_before(views[k as int], #[trigger] views[j]) by {
                    if j < k && sync_before(views[k as int], views[j]) {
                        lemma_sync_before_transitive(views[best as int], views[k as int], views[j]);
                    }
                    if j == k {
                        crate::control::lemma_text_lt_irreflexive(views[j].event_id);
                    }
                }
            }
            best = k;
        }
        k = k + 1;
    }
    proof {
        assert(is_newest(views, best as int));
        assert(views[best as int] == events@[best as int]@);
    }
    Some(events[best].event_id.clone())
}

/// Where a single database is kept once it has been split into the two: its path with the
/// extension `duckdb.backup`.
pub fn legacy_backup_path(legacy_path: &str) -> (r: String)
    ensures
        r@ == spec_with_extension(legacy_path@, "duckdb.backup"@),
{
    proof {
        reveal_strlit("duckdb.backup");
    }
    with_extension(legacy_path, "duckdb.backup")
}

/// A single database is split into the two only when it exists and neither of the two does.
pub fn needs_migration(legacy_exists: bool, write_exists: bool, query_exists: bool) -> (r: bool)
    ensures
        r == (legacy_exists && !write_exists && !query_exists),
{
    legacy_exists && !write_exists && !query_exists
}

/// The paths of the two databases and the progress of syncing them.
#[derive(Debug)]
pub struct DualDbManager {
    write_path: String,
    query_path: String,
    config: DualDbConfig,
    metrics: DualDbMetrics,
    last_sync_id: String,
}

impl DualDbManager {
    pub closed spec fn spec_write_path(self) -> Seq<char> {
        self.write_path@
    }

    pub closed spec fn spec_query_path(self) -> Seq<char> {
        self.query_path@
    }

    pub closed spec fn spec_config(self) -> DualDbConfig {
        self.config
    }

    pub closed spec fn spec_metrics(self) -> DualDbMetrics {
        self.metrics
    }

    /// The newest event id known to be in the query database; empty before the first sync.
    pub closed spec fn spec_last_sync_id(self) -> Seq<char> {
        self.last_sync_id@
    }

    /// A manager for the database at `base_path`: the two databases sit beside it. Fails when
    /// the path has no parent directory.
    pub fn new(base_path: &str, config: DualDbConfig) -> (r: Result<Self, String>)
        ensures
            spec_path_parent(base_path@) is None ==> (r matches Err(e)
                && e@ == "duckdb path must have parent directory"@),
            spec_path_parent(base_path@) matches Some(parent) ==> (r matches Ok(m) && {
                &&& m.spec_write_path() == spec_join(parent, WRITE_DB_FILE_NAME@)
                &&& m.spec_query_path() == spec_join(parent, QUERY_DB_FILE_NAME@)
                &&& m.spec_config() == config
                &&& m.spec_last_sync_id().len() == 0
                &&& m.spec_metrics()@ == (0u64, 0u64, 0u64, 0u64)
            }),
    {
        let parent = match path_parent(base_path) {
            Some(p) => p,
            None => {
                return Err(owned("duckdb path must have parent directory"));
            },
        };
        let write_path = join_path(parent.as_str(), WRITE_DB_FILE_NAME);
        let query_path = join_path(parent.as_str(), QUERY_DB_FILE_NAME);
        Ok(DualDbManager {
            write_path,
            query_path,
            config,
            metrics: DualDbMetrics::default(),
            last_sync_id: String::new(),
        })
    }

    /// The database the worker writes.
    pub fn write_path(&self) -> (r: &str)
        ensures
            r@ == self.spec_write_path(),
    {
        self.write_path.as_str()
    }

    /// The database the API reads: the query database when switched on, else the write
    /// database.
    pub fn query_path(&self) -> (r: &str)
        ensures
            r@ == if self.spec_config().enabled {
                self.spec_query_path()
            } else {
                self.spec_write_path()
            },
    {
        if self.config.enabled {
            self.query_path.as_str()
        } else {
            self.write_path.as_str()
        }
    }

    pub fn metrics(&self) -> (r: &DualDbMetrics)
        ensures
            *r == self.spec_metrics(),
    {
        &self.metrics
    }

    /// What a sync reports when the manager is switched off: no rows and no event id, with
    /// the counters untouched; `None` when it is switched on and a sync must run.
    pub fn disabled_report(&self) -> (r: Option<SyncReport>)
        ensures
            !self.spec_config().enabled ==> (r matches Some(rep) && rep.rows_synced == 0
                && rep.last_event_id@.len() == 0),
            self.spec_config().enabled ==> r is None,
    {
        if self.config.enabled {
            None
        } else {
            Some(SyncReport::default())
        }
    }

    /// How a sync begins: nothing when switched off, from the query database's newest event
    /// before the first sync, else after the last synced id.
    pub fn begin_sync(&self) -> (r: SyncStart)
        ensures
            !self.spec_config().enabled ==> r == SyncStart::Disabled,
            self.spec_config().enabled && self.spec_last_sync_id().len() == 0 ==> r
                == SyncStart::FindLastInQuery,
            (self.spec_config().enabled && self.spec_last_sync_id().len() > 0) ==> (r matches SyncStart::After(id)
                && id@ == self.spec_last_sync_id()),
    {
        if !self.config.enabled {
            SyncStart::Disabled
        } else if self.last_sync_id.as_str().is_empty() {
            SyncStart::FindLastInQuery
        } else {
            SyncStart::After(self.last_sync_id.clone())
        }
    }

    /// The first sync learns the query database's newest event: events after it are copied,
    /// and it becomes the last synced id; an empty query database gets every event.
    pub fn resume_from(&mut self, newest_in_query: Option<String>) -> (r: SyncSource)
        ensures
            newest_in_query matches Some(id) ==> (r matches SyncSource::After(a) && a@ == id@
                && final(self).spec_last_sync_id() == id@),
            newest_in_query is None ==> (r == SyncSource::All && final(self).spec_last_sync_id()
                == old(self).spec_last_sync_id()),
            final(self).spec_write_path() == old(self).spec_write_path(),
            final(self).spec_query_path() == old(self).spec_query_path(),
            final(self).spec_config() == old(self).spec_config(),
            final(self).spec_metrics() == old(self).spec_metrics(),
    {
        match newest_in_query {
            Some(id) => {
                self.last_sync_id = id.clone();
                SyncSource::After(id)
            },
            None => SyncSource::All,
        }
    }

    /// A sync that read its events and wrote `rows_written` of them: with no new event the
    /// report repeats the id the sync started after; else the newest copied id becomes the
    /// last synced id. The sync is counted with its duration and rows.
    pub fn complete_sync(
        &mut self,
        started_after: String,
        newest_copied: Option<String>,
        rows_written: u64,
        duration_ms: u64,
    ) -> (r: SyncReport)
        ensures
            newest_copied is None ==> (r.rows_synced == 0 && r.last_event_id == started_after
                && final(self).spec_last_sync_id() == old(self).spec_last_sync_id()),
            newest_copied matches Some(id) ==> (r.rows_synced == rows_written && r.last_event_id@
                == id@ && final(self).spec_last_sync_id() == id@),
            final(self).spec_metrics()@ == (
                wrap_add(old(self).spec_metrics()@.0, 1),
                old(self).spec_metrics()@.1,
                duration_ms,
                r.rows_synced,
            ),
            final(self).spec_write_path() == old(self).spec_write_path(),
            final(self).spec_query_path() == old(self).spec_query_path(),
            final(self).spec_config() == old(self).spec_config(),
    {
        match newest_copied {
            None => {
                self.metrics.record_sync(duration_ms, 0);
                SyncReport { rows_synced: 0, last_event_id: started_after }
            },
            Some(id) => {
                self.last_sync_id = id.clone();
                self.metrics.record_sync(duration_ms, rows_written);
                SyncReport { rows_synced: rows_written, last_event_id: id }
            },
        }
    }

    /// A sync that failed is counted as an error; the progress stays.
    pub fn fail_sync(&mut self)
        ensures
            final(self).spec_metrics()@ == (
                old(self).spec_metrics()@.0,
                wrap_add(old(self).spec_metrics()@.1, 1),
                old(self).spec_metrics()@.2,
                old(self).spec_metrics()@.3,
            ),
            final(self).spec_last_sync_id() == old(self).spec_last_sync_id(),
            final(self).spec_write_path() == old(self).spec_write_path(),
            final(self).spec_query_path() == old(self).spec_query_path(),
            final(self).spec_config() == old(self).spec_config(),
    {
        self.metrics.record_error();
    }
}

} // verus!
