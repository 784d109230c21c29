//! The daemon's configuration sections with their defaults, and the report of a spool
//! replay at start-up.
use vstd::prelude::*;

verus! {

/// Listening addresses.
#[derive(Debug, Clone)]
pub struct ServerConfig {
    pub api_addr: String,
    pub tcp_addr: String,
    pub udp_addr: String,
}

/// Where data lives.
#[derive(Debug, Clone)]
pub struct DataConfig {
    pub root: String,
    pub duckdb_path: String,
    pub spool_dir: String,
    pub export_dir: String,
    pub parquet_dir: String,
    pub frozen_dir: String,
}

/// Queue and batching of the ingest pipeline.
#[derive(Debug, Clone)]
pub struct PipelineConfig {
    pub ingress_queue: usize,
    pub batch_size: usize,
    pub flush_interval_ms: u64,
}

/// API access; no token means no authentication.
#[derive(Debug, Clone)]
pub struct AuthConfig {
    pub api_token: Option<String>,
}

impl Default for AuthConfig {
    fn default() -> (r: Self)
        ensures
            r.api_token is None,
    {
        AuthConfig { api_token: None }
    }
}

impl AuthConfig {
    /// A non-empty token from the environment replaces the configured one.
    pub fn apply_env_token(&mut self, token: Option<String>)
        ensures
            match token {
                Some(t) => if t@.len() > 0 {
                    final(self).api_token == Some(t)
                } else {
                    final(self).api_token == old(self).api_token
                },
                None => final(self).api_token == old(self).api_token,
            },
    {
        match token {
            Some(t) => {
                if !t.as_str().is_empty() {
                    self.api_token = Some(t);
                }
            },
            None => {},
        }
    }
}

/// Periodic archiving of hot events to Parquet and frozen raw files.
#[derive(Debug, Clone)]
pub struct ArchiveConfig {
    pub enabled: bool,
    pub interval_seconds: u64,
    pub batch_limit: usize,
    pub parquet_retention_days: u64,
    pub frozen_retention_days: u64,
}

/// Periodic compaction of the hot database.
#[derive(Debug, Clone)]
pub struct LifecycleConfig {
    pub enabled: bool,
    pub hot_limit: usize,
    pub interval_seconds: u64,
    pub drop_parsed_raw: bool,
}

/// Archive once a day.
pub fn default_archive_interval_seconds() -> (r: u64)
    ensures
        r == 86_400,
{
    86_400
}

pub fn default_archive_limit() -> (r: usize)
    ensures
        r == 100_000,
{
    100_000
}

pub fn default_parquet_retention_days() -> (r: u64)
    ensures
        r == 180,
{
    180
}

pub fn default_frozen_retention_days() -> (r: u64)
    ensures
        r == 365,
{
    365
}

pub fn default_lifecycle_enabled() -> (r: bool)
    ensures
        r,
{
    true
}

pub fn default_hot_limit() -> (r: usize)
    ensures
        r == 100_000,
{
    100_000
}

pub fn default_lifecycle_interval_seconds() -> (r: u64)
    ensures
        r == 86_400,
{
    86_400
}

pub fn default_drop_parsed_raw() -> (r: bool)
    ensures
        r,
{
    true
}

impl Default for ArchiveConfig {
    /// Archiving off, daily, 100 000 events per batch, Parquet kept 180 days and frozen
    /// files 365 days.
    fn default() -> (r: Self)
        ensures
            !r.enabled,
            r.interval_seconds == 86_400,
            r.batch_limit == 100_000,
            r.parquet_retention_days == 180,
            r.frozen_retention_days == 365,
    {
        ArchiveConfig {
            enabled: false,
            interval_seconds: default_archive_interval_seconds(),
            batch_limit: default_archive_limit(),
            parquet_retention_days: default_parquet_retention_days(),
            frozen_retention_days: default_frozen_retention_days(),
        }
    }
}

impl Default for LifecycleConfig {
    /// Compaction on, daily, keeping 100 000 hot events and dropping the raw text of parsed
    /// ones.
    fn default() -> (r: Self)
        ensures
            r.enabled,
            r.hot_limit == 100_000,
            r.interval_seconds == 86_400,
            r.drop_parsed_raw,
    {
        LifecycleConfig {
            enabled: default_lifecycle_enabled(),
            hot_limit: default_hot_limit(),
            interval_seconds: default_lifecycle_interval_seconds(),
            drop_parsed_raw: default_drop_parsed_raw(),
        }
    }
}

/// What replaying the spool at start-up did.
#[derive(Debug)]
pub struct ReplayReport {
    pub segments_found: usize,
    pub segments_replayed: usize,
    pub records_replayed: usize,
    pub events_stored: usize,
    pub segments_committed: usize,
    pub segments_failed: usize,
}

impl Default for ReplayReport {
    fn default() -> (r: Self)
        ensures
            r.segments_found == 0,
            r.segments_replayed == 0,
            r.records_replayed == 0,
            r.events_stored == 0,
            r.segments_committed == 0,
            r.segments_failed == 0,
    {
        ReplayReport {
            segments_found: 0,
            segments_replayed: 0,
            records_replayed: 0,
            events_stored: 0,
            segments_committed: 0,
            segments_failed: 0,
        }
    }
}

impl ReplayReport {
    /// A report for the segments found, none handled yet.
    pub fn found(segments_found: usize) -> (r: Self)
        ensures
            r.segments_found == segments_found,
            r.segments_replayed == 0,
            r.records_replayed == 0,
            r.events_stored == 0,
            r.segments_committed == 0,
            r.segments_failed == 0,
    {
        ReplayReport { segments_found, ..Self::default() }
    }

    /// A segment was replayed and committed.
    pub fn record_replayed(&mut self, records_replayed: usize, events_stored: usize)
        requires
            old(self).segments_replayed < usize::MAX,
            old(self).segments_committed < usize::MAX,
            old(self).records_replayed + records_replayed <= usize::MAX,
            old(self).events_stored + events_stored <= usize::MAX,
        ensures
            final(self).segments_replayed == old(self).segments_replayed + 1,
            final(self).segments_committed == old(self).segments_committed + 1,
            final(self).records_replayed == old(self).records_replayed + records_replayed,
            final(self).events_stored == old(self).events_stored + events_stored,
            final(self).segments_found == old(self).segments_found,
            final(self).segments_failed == old(self).segments_failed,
    {
        self.segments_replayed = self.segments_replayed + 1;
        self.records_replayed = self.records_replayed + records_replayed;
        self.events_stored = self.events_stored + events_stored;
        self.segments_committed = self.segments_committed + 1;
    }

    /// A segment failed to replay.
    pub fn record_failed(&mut self)
        requires
            old(self).segments_failed < usize::MAX,
        ensures
            final(self).segments_failed == old(self).segments_failed + 1,
            final(self).segments_found == old(self).segments_found,
            final(self).segments_replayed == old(self).segments_replayed,
            final(self).records_replayed == old(self).records_replayed,
            final(self).events_stored == old(self).events_stored,
            final(self).segments_committed == old(self).segments_committed,
    {
        self.segments_failed = self.segments_failed + 1;
    }
}

} // verus!
