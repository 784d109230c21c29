//! Runtime counters.
use vstd::prelude::*;
use std::sync::Arc;
use std::sync::atomic::{AtomicU64, Ordering};

verus! {

/// Counters of the ingestion pipeline, shared by every clone: an increment through one handle
/// is seen through all of them. Each counter wraps around at `u64::MAX + 1`, as an atomic
/// `fetch_add` does. The counters are relaxed atomics that other threads may change at any
/// moment, so no contract here states what a read returns.
#[derive(Debug, Clone)]
pub struct RuntimeMetrics {
    inner: Arc<MetricsInner>,
}

#[derive(Debug)]
struct MetricsInner {
    tcp_received: AtomicU64,
    udp_received: AtomicU64,
    udp_dropped: AtomicU64,
    spool_written: AtomicU64,
    spool_replayed: AtomicU64,
    events_stored: AtomicU64,
    batches_stored: AtomicU64,
    worker_errors: AtomicU64,
}

/// A copy of all counters at one moment.
#[derive(Debug, Clone, Copy, PartialEq, Eq, Structural)]
pub struct MetricsSnapshot {
    pub tcp_received: u64,
    pub udp_received: u64,
    pub udp_dropped: u64,
    pub spool_written: u64,
    pub spool_replayed: u64,
    pub events_stored: u64,
    pub batches_stored: u64,
    pub worker_errors: u64,
}

/// `a + b` modulo `2^64`.
pub open spec fn wrap_add(a: u64, b: u64) -> u64 {
    ((a as int + b as int) % 0x1_0000_0000_0000_0000) as u64
}

fn wrapping(a: u64, b: u64) -> (r: u64)
    ensures
        r == wrap_add(a, b),
{
    a.wrapping_add(b)
}

impl Default for RuntimeMetrics {
    /// Fresh counters, all at zero.
    fn default() -> Self {
        RuntimeMetrics {
            inner: Arc::new(
                MetricsInner {
                    tcp_received: AtomicU64::new(0),
                    udp_received: AtomicU64::new(0),
                    udp_dropped: AtomicU64::new(0),
                    spool_written: AtomicU64::new(0),
                    spool_replayed: AtomicU64::new(0),
                    events_stored: AtomicU64::new(0),
                    batches_stored: AtomicU64::new(0),
                    worker_errors: AtomicU64::new(0),
                },
            ),
        }
    }
}

impl RuntimeMetrics {
    pub fn inc_tcp_received(&self) {
        self.inner.tcp_received.fetch_add(1, Ordering::Relaxed);
    }

    pub fn inc_udp_received(&self) {
        self.inner.udp_received.fetch_add(1, Ordering::Relaxed);
    }

    pub fn inc_udp_dropped(&self) {
        self.inner.udp_dropped.fetch_add(1, Ordering::Relaxed);
    }

    pub fn inc_spool_written(&self) {
        self.inner.spool_written.fetch_add(1, Ordering::Relaxed);
    }

    pub fn add_spool_replayed(&self, value: u64) {
        self.inner.spool_replayed.fetch_add(value, Ordering::Relaxed);
    }

    pub fn add_events_stored(&self, value: u64) {
        self.inner.events_stored.fetch_add(value, Ordering::Relaxed);
    }

    pub fn inc_batches_stored(&self) {
        self.inner.batches_stored.fetch_add(1, Ordering::Relaxed);
    }

    pub fn inc_worker_errors(&self) {
        self.inner.worker_errors.fetch_add(1, Ordering::Relaxed);
    }

    /// The current value of every counter.
    pub fn snapshot(&self) -> MetricsSnapshot {
        MetricsSnapshot {
            tcp_received: self.inner.tcp_received.load(Ordering::Relaxed),
            udp_received: self.inner.udp_received.load(Ordering::Relaxed),
            udp_dropped: self.inner.udp_dropped.load(Ordering::Relaxed),
            spool_written: self.inner.spool_written.load(Ordering::Relaxed),
            spool_replayed: self.inner.spool_replayed.load(Ordering::Relaxed),
            events_stored: self.inner.events_stored.load(Ordering::Relaxed),
            batches_stored: self.inner.batches_stored.load(Ordering::Relaxed),
            worker_errors: self.inner.worker_errors.load(Ordering::Relaxed),
        }
    }
}

/// Counts UDP datagrams dropped because the ingress queue was full; clones share one counter,
/// a relaxed atomic, so no contract here states what `get` returns.
#[derive(Debug, Clone)]
pub struct UdpDropCounter {
    inner: Arc<AtomicU64>,
}

impl Default for UdpDropCounter {
    /// A fresh counter at zero.
    fn default() -> Self {
        UdpDropCounter { inner: Arc::new(AtomicU64::new(0)) }
    }
}

impl UdpDropCounter {
    pub fn increment(&self) {
        self.inner.fetch_add(1, Ordering::Relaxed);
    }

    pub fn get(&self) -> u64 {
        self.inner.load(Ordering::Relaxed)
    }
}

/// Counters of the write-to-query database synchronisation.
#[derive(Debug, Clone)]
pub struct DualDbMetrics {
    sync_count: u64,
    sync_errors: u64,
    last_sync_duration_ms: u64,
    last_sync_rows: u64,
}

impl Default for DualDbMetrics {
    fn default() -> (r: Self)
        ensures
            r@ == (0u64, 0u64, 0u64, 0u64),
    {
        DualDbMetrics { sync_count: 0, sync_errors: 0, last_sync_duration_ms: 0, last_sync_rows: 0 }
    }
}

impl View for DualDbMetrics {
    /// `(sync_count, sync_errors, last_sync_duration_ms, last_sync_rows)`
    type V = (u64, u64, u64, u64);

    closed spec fn view(&self) -> (u64, u64, u64, u64) {
        (self.sync_count, self.sync_errors, self.last_sync_duration_ms, self.last_sync_rows)
    }
}

impl DualDbMetrics {
    pub fn sync_count(&self) -> (r: u64)
        ensures
            r == self@.0,
    {
        self.sync_count
    }

    pub fn sync_errors(&self) -> (r: u64)
        ensures
            r == self@.1,
    {
        self.sync_errors
    }

    pub fn last_sync_duration_ms(&self) -> (r: u64)
        ensures
            r == self@.2,
    {
        self.last_sync_duration_ms
    }

    pub fn last_sync_rows(&self) -> (r: u64)
        ensures
            r == self@.3,
    {
        self.last_sync_rows
    }

    /// Records a finished synchronisation of `rows` rows that took `duration_ms`.
    pub fn record_sync(&mut self, duration_ms: u64, rows: u64)
        ensures
            final(self)@ == (wrap_add(old(self)@.0, 1), old(self)@.1, duration_ms, rows),
    {
        self.sync_count = wrapping(self.sync_count, 1);
        self.last_sync_duration_ms = duration_ms;
        self.last_sync_rows = rows;
    }

    /// Records a failed synchronisation.
    pub fn record_error(&mut self)
        ensures
            final(self)@ == (old(self)@.0, wrap_add(old(self)@.1, 1), old(self)@.2, old(self)@.3),
    {
        self.sync_errors = wrapping(self.sync_errors, 1);
    }
}

} // verus!
