//! Per-worker parser metrics, batched by scope, parser and status before they are flushed,
//! and the control state of a source scope.
use vstd::prelude::*;
use crate::event::{ParseStatus, Timestamp};
use crate::text::{owned, str_eq};

verus! {

/// How many distinct (scope, parser, status) counts a batch holds by default.
pub const DEFAULT_MAX_PROFILE_DELTAS: usize = 4096;

/// A count of lines of one scope that one parser gave one status.
#[derive(Debug, Clone, PartialEq, Eq)]
pub struct ParserProfileDelta {
    pub scope_key: String,
    pub parser_id: String,
    pub status: ParseStatus,
    pub count: u64,
}

pub struct DeltaView {
    pub scope_key: Seq<char>,
    pub parser_id: Seq<char>,
    pub status: ParseStatus,
    pub count: u64,
}

impl View for ParserProfileDelta {
    type V = DeltaView;

    open spec fn view(&self) -> DeltaView {
        DeltaView {
            scope_key: self.scope_key@,
            parser_id: self.parser_id@,
            status: self.status,
            count: self.count,
        }
    }
}

/// What a flush hands on: the counts, how many records were dropped, and the scopes that
/// lost records (in ascending order).
#[derive(Debug, Clone, PartialEq, Eq)]
pub struct MetricsFlushEvent {
    pub profile_deltas: Vec<ParserProfileDelta>,
    pub dropped_batches: u64,
    pub scope_gaps: Vec<String>,
}

impl Default for MetricsFlushEvent {
    fn default() -> (r: Self)
        ensures
            r.profile_deltas@.len() == 0,
            r.dropped_batches == 0,
            r.scope_gaps@.len() == 0,
    {
        MetricsFlushEvent { profile_deltas: Vec::new(), dropped_batches: 0, scope_gaps: Vec::new() }
    }
}

/// The control state of one source scope.
#[derive(Debug, Clone, PartialEq, Eq)]
pub struct ParserScopeState {
    pub scope_key: String,
    pub source_high_entropy: bool,
    pub adaptive_learning_enabled: bool,
    pub unknown_source_bucket: bool,
    pub metrics_gap: bool,
    pub metrics_gap_since: Option<Timestamp>,
    pub malformed_flood_until: Option<Timestamp>,
    pub adaptive_quarantine_until: Option<Timestamp>,
    pub quarantine_backoff: u32,
    pub last_state_change: Timestamp,
    pub last_seen: Timestamp,
}

impl ParserScopeState {
    /// A known scope, learning enabled, nothing flagged.
    pub fn new(scope_key: &str, now: Timestamp) -> (r: Self)
        ensures
            r.scope_key@ == scope_key@,
            !r.source_high_entropy,
            r.adaptive_learning_enabled,
            !r.unknown_source_bucket,
            !r.metrics_gap,
            r.metrics_gap_since is None,
            r.malformed_flood_until is None,
            r.adaptive_quarantine_until is None,
            r.quarantine_backoff == 0,
            r.last_state_change == now,
            r.last_seen == now,
    {
        ParserScopeState {
            scope_key: owned(scope_key),
            source_high_entropy: false,
            adaptive_learning_enabled: true,
            unknown_source_bucket: false,
            metrics_gap: false,
            metrics_gap_since: None,
            malformed_flood_until: None,
            adaptive_quarantine_until: None,
            quarantine_backoff: 0,
            last_state_change: now,
            last_seen: now,
        }
    }

    /// The bucket of sources that could not be identified: learning disabled.
    pub fn unknown_bucket(scope_key: &str, now: Timestamp) -> (r: Self)
        ensures
            r.scope_key@ == scope_key@,
            !r.source_high_entropy,
            !r.adaptive_learning_enabled,
            r.unknown_source_bucket,
            !r.metrics_gap,
            r.metrics_gap_since is None,
            r.malformed_flood_until is None,
            r.adaptive_quarantine_until is None,
            r.quarantine_backoff == 0,
            r.last_state_change == now,
            r.last_seen == now,
    {
        let mut state = Self::new(scope_key, now);
        state.unknown_source_bucket = true;
        state.adaptive_learning_enabled = false;
        state
    }

    /// Flags lost metrics; the time of the first gap is kept.
    pub fn mark_metrics_gap(&mut self, now: Timestamp)
        ensures
            final(self).metrics_gap,
            final(self).metrics_gap_since == (if old(self).metrics_gap_since is None {
                Some(now)
            } else {
                old(self).metrics_gap_since
            }),
            final(self).last_state_change == now,
            final(self).last_seen == now,
            final(self).scope_key == old(self).scope_key,
            final(self).source_high_entropy == old(self).source_high_entropy,
            final(self).adaptive_learning_enabled == old(self).adaptive_learning_enabled,
            final(self).unknown_source_bucket == old(self).unknown_source_bucket,
            final(self).malformed_flood_until == old(self).malformed_flood_until,
            final(self).adaptive_quarantine_until == old(self).adaptive_quarantine_until,
            final(self).quarantine_backoff == old(self).quarantine_backoff,
    {
        self.metrics_gap = true;
        if self.metrics_gap_since.is_none() {
            self.metrics_gap_since = Some(now);
        }
        self.last_state_change = now;
        self.last_seen = now;
    }
}

/// Lexicographic order of texts by code point (the order of `String`).
pub open spec fn text_lt(a: Seq<char>, b: Seq<char>) -> bool
    decreases a.len(),
{
    if a.len() == 0 {
        b.len() > 0
    } else if b.len() == 0 {
        false
    } else if a[0] < b[0] {
        true
    } else if a[0] > b[0] {
        false
    } else {
        text_lt(a.drop_first(), b.drop_first())
    }
}

pub proof fn lemma_text_lt_irreflexive(a: Seq<char>)
    ensures
        !text_lt(a, a),
    decreases a.len(),
{
    if a.len() > 0 {
        lemma_text_lt_irreflexive(a.drop_first());
    }
}

pub proof fn lemma_text_lt_total(a: Seq<char>, b: Seq<char>)
    ensures
        text_lt(a, b) || text_lt(b, a) || a == b,
    decreases a.len(),
{
    if a.len() > 0 && b.len() > 0 && a[0] == b[0] {
        lemma_text_lt_total(a.drop_first(), b.drop_first());
        if a.drop_first() == b.drop_first() {
            assert(a =~= seq![a[0]] + a.drop_first());
            assert(b =~= seq![b[0]] + b.drop_first());
        }
    } else if a.len() > 0 && b.len() > 0 {
        assert(a[0] != b[0]);
    } else if a.len() == 0 && b.len() == 0 {
        assert(a =~= b);
    }
}

pub proof fn lemma_text_lt_transitive(a: Seq<char>, b: Seq<char>, c: Seq<char>)
    requires
        text_lt(a, b),
        text_lt(b, c),
    ensures
        text_lt(a, c),
    decreases a.len(),
{
    if a.len() > 0 && b.len() > 0 && c.len() > 0 {
        if a[0] == b[0] && b[0] == c[0] {
            lemma_text_lt_transitive(a.drop_first(), b.drop_first(), c.drop_first());
        }
    }
}

pub proof fn lemma_text_lt_asymmetric(a: Seq<char>, b: Seq<char>)
    requires
        text_lt(a, b),
    ensures
        !text_lt(b, a),
{
    if text_lt(b, a) {
        lemma_text_lt_transitive(a, b, a);
        lemma_text_lt_irreflexive(a);
    }
}

/// Strictly ascending texts.
pub open spec fn strictly_sorted(s: Seq<Seq<char>>) -> bool {
    forall|i: int, j: int| 0 <= i < j < s.len() ==> text_lt(s[i], s[j])
}

pub fn text_less(a: &str, b: &str) -> (r: bool)
    ensures
        r == text_lt(a@, b@),
{
    let va = crate::text::chars_of(a);
    let vb = crate::text::chars_of(b);
    let mut i: usize = 0;
    assert(a@.skip(0) =~= a@);
    assert(b@.skip(0) =~= b@);
    while i < va.len() && i < vb.len() && va[i] == vb[i]
        invariant
            i <= va@.len(),
            i <= vb@.len(),
            va@ == a@,
            vb@ == b@,
            text_lt(a@, b@) == text_lt(a@.skip(i as int), b@.skip(i as int)),
        decreases va.len() - i,
    {
        proof {
            assert(a@.skip(i as int).drop_first() =~= a@.skip(i + 1));
            assert(b@.skip(i as int).drop_first() =~= b@.skip(i + 1));
        }
        i = i + 1;
    }
    proof {
        if i < va.len() {
            assert(a@.skip(i as int)[0] == va@[i as int]);
        }
        if i < vb.len() {
            assert(b@.skip(i as int)[0] == vb@[i as int]);
        }
    }
    if i == va.len() {
        i < vb.len()
    } else if i == vb.len() {
        false
    } else {
        va[i] < vb[i]
    }
}

/// Inserts a text into a list kept in strictly ascending order; a text already there is not
/// repeated. A list that was strictly ascending stays so; the texts held grow by the item
/// either way.
pub fn insert_sorted_text(v: &mut Vec<String>, item_text: &str)
    ensures
        strictly_sorted(texts(old(v)@)) ==> strictly_sorted(texts(final(v)@)),
        texts(final(v)@).to_set() == texts(old(v)@).to_set().insert(item_text@),
{
    let ghost g = texts(v@);
    let mut j: usize = 0;
    while j < v.len() && text_less(v[j].as_str(), item_text)
        invariant
            j <= v@.len(),
            g == texts(v@),
            forall|k: int| 0 <= k < j ==> text_lt(#[trigger] g[k], item_text@),
        decreases v.len() - j,
    {
        j = j + 1;
    }
    if j < v.len() && str_eq(v[j].as_str(), item_text) {
        proof {
            assert(g.to_set().insert(item_text@) =~= g.to_set()) by {
                assert(g[j as int] == item_text@);
                assert(g.contains(item_text@));
            }
        }
        return;
    }
    proof {
        if strictly_sorted(g) {
            if j < g.len() {
                lemma_text_lt_total(g[j as int], item_text@);
            }
            assert forall|k: int| j <= k < g.len() implies text_lt(item_text@, #[trigger] g[k]) by {
                if k > j {
                    lemma_text_lt_transitive(item_text@, g[j as int], g[k]);
                }
            }
        }
    }
    let ghost item = item_text@;
    v.insert(j, owned(item_text));
    proof {
        let g2 = texts(v@);
        assert(g2 =~= g.insert(j as int, item));
        assert forall|a: int, b: int| strictly_sorted(g) && 0 <= a < b < g2.len() implies text_lt(g2[a], g2[b]) by {
            if b < j {
            } else if a < j && b == j {
            } else if a < j && b > j {
                assert(g2[b] == g[b - 1]);
                lemma_text_lt_transitive(g2[a], item, g2[b]);
            } else if a == j {
                assert(g2[b] == g[b - 1]);
            } else {
                assert(g2[a] == g[a - 1]);
                assert(g2[b] == g[b - 1]);
            }
        }
        assert(g2.to_set() =~= g.to_set().insert(item)) by {
            assert forall|x: Seq<char>| g2.to_set().contains(x) implies g.to_set().insert(
                item,
            ).contains(x) by {
                let k = choose|k: int| 0 <= k < g2.len() && g2[k] == x;
                if k < j {
                    assert(g[k] == x);
                } else if k > j {
                    assert(g[k - 1] == x);
                }
            }
            assert forall|x: Seq<char>| g.to_set().insert(item).contains(x) implies g2.to_set().contains(
                x,
            ) by {
                if x == item {
                    assert(g2[j as int] == x);
                } else {
                    let k = choose|k: int| 0 <= k < g.len() && g[k] == x;
                    if k < j {
                        assert(g2[k] == x);
                    } else {
                        assert(g2[k + 1] == x);
                    }
                }
            }
        }
    }
}

/// Parser metrics of one worker, batched until the next flush.
#[derive(Debug, Clone)]
pub struct LocalParserMetricsBatch {
    profile_deltas: Vec<ParserProfileDelta>,
    max_entries: usize,
    pub dropped_batches: u64,
    /// Scopes that lost records since the last flush, in ascending order without repeats.
    pub scope_gaps: Vec<String>,
}

/// The texts of a list of strings.
pub open spec fn texts(v: Seq<String>) -> Seq<Seq<char>> {
    v.map_values(|s: String| s@)
}

/// Whether two counts are for the same scope, parser and status.
pub open spec fn same_key(d: DeltaView, scope_key: Seq<char>, parser_id: Seq<char>, status: ParseStatus) -> bool {
    d.scope_key == scope_key && d.parser_id == parser_id && d.status == status
}

/// No two counts share a scope, parser and status.
pub open spec fn keys_unique(ds: Seq<DeltaView>) -> bool {
    forall|i: int, j: int|
        0 <= i < j < ds.len() ==> !same_key(ds[i], ds[j].scope_key, ds[j].parser_id, ds[j].status)
}

pub open spec fn deltas_view(v: Seq<ParserProfileDelta>) -> Seq<DeltaView> {
    v.map_values(|d: ParserProfileDelta| d@)
}

/// The position of the count for a key, if there is one.
pub open spec fn delta_index(ds: Seq<DeltaView>, scope_key: Seq<char>, parser_id: Seq<char>, status: ParseStatus) -> Option<int> {
    if exists|i: int| 0 <= i < ds.len() && same_key(ds[i], scope_key, parser_id, status) {
        Some(choose|i: int| 0 <= i < ds.len() && same_key(ds[i], scope_key, parser_id, status))
    } else {
        None
    }
}

pub open spec fn sat_inc(n: u64) -> u64 {
    if n == u64::MAX {
        n
    } else {
        (n + 1) as u64
    }
}

impl LocalParserMetricsBatch {
    /// The counts held, in the order their keys first came.
    pub closed spec fn deltas(self) -> Seq<DeltaView> {
        deltas_view(self.profile_deltas@)
    }

    /// How many distinct keys the batch holds.
    pub closed spec fn capacity(self) -> nat {
        self.max_entries as nat
    }

    /// Records dropped since the last flush.
    pub closed spec fn dropped(self) -> u64 {
        self.dropped_batches
    }

    /// The gap scopes in order.
    pub closed spec fn gaps(self) -> Seq<Seq<char>> {
        texts(self.scope_gaps@)
    }

    /// The gap scopes as a set.
    pub open spec fn gap_set(self) -> Set<Seq<char>> {
        self.gaps().to_set()
    }

    /// Each key counted once.
    pub open spec fn wf(self) -> bool {
        keys_unique(self.deltas())
    }

    /// An empty batch holding at most `max_entries` distinct keys.
    pub fn with_max_entries(max_entries: usize) -> (r: Self)
        ensures
            r.wf(),
            r.deltas().len() == 0,
            r.capacity() == max_entries,
            r.dropped() == 0,
            r.gaps().len() == 0,
    {
        let r = LocalParserMetricsBatch {
            profile_deltas: Vec::new(),
            max_entries,
            dropped_batches: 0,
            scope_gaps: Vec::new(),
        };
        proof {
            assert(r.deltas() =~= Seq::<DeltaView>::empty());
        }
        r
    }

    fn find_delta(&self, scope_key: &str, parser_id: &str, status: ParseStatus) -> (r: Option<usize>)
        ensures
            match r {
                Some(i) => i < self.deltas().len() && same_key(
                    self.deltas()[i as int],
                    scope_key@,
                    parser_id@,
                    status,
                ),
                None => delta_index(self.deltas(), scope_key@, parser_id@, status) is None,
            },
    {
        let mut i: usize = 0;
        while i < self.profile_deltas.len()
            invariant
                i <= self.profile_deltas@.len(),
                forall|j: int|
                    0 <= j < i ==> !same_key(self.deltas()[j], scope_key@, parser_id@, status),
            decreases self.profile_deltas.len() - i,
        {
            let d = &self.profile_deltas[i];
            assert(self.deltas()[i as int] == d@);
            if str_eq(d.scope_key.as_str(), scope_key) && str_eq(d.parser_id.as_str(), parser_id)
                && d.status == status {
                return Some(i);
            }
            i = i + 1;
        }
        None
    }

    fn insert_gap(&mut self, scope_key: &str)
        ensures
            strictly_sorted(old(self).gaps()) ==> strictly_sorted(final(self).gaps()),
            final(self).gap_set() == old(self).gap_set().insert(scope_key@),
            final(self).profile_deltas == old(self).profile_deltas,
            final(self).max_entries == old(self).max_entries,
            final(self).dropped() == old(self).dropped(),
    {
        insert_sorted_text(&mut self.scope_gaps, scope_key);
    }

    /// Counts a line: the count of its (scope, parser, status) grows by one; a new key is
    /// added while there is room, else the line is dropped and its scope marked as a gap.
    pub fn record(&mut self, scope_key: &str, parser_id: &str, status: ParseStatus)
        requires
            old(self).wf(),
        ensures
            final(self).wf(),
            final(self).capacity() == old(self).capacity(),
            strictly_sorted(old(self).gaps()) ==> strictly_sorted(final(self).gaps()),
            match delta_index(old(self).deltas(), scope_key@, parser_id@, status) {
                Some(i) => {
                    &&& final(self).deltas() == old(self).deltas().update(
                        i,
                        DeltaView { count: sat_inc(old(self).deltas()[i].count), ..old(self).deltas()[i] },
                    )
                    &&& final(self).dropped() == old(self).dropped()
                    &&& final(self).gaps() == old(self).gaps()
                },
                None => if old(self).deltas().len() >= old(self).capacity() {
                    &&& final(self).deltas() == old(self).deltas()
                    &&& final(self).dropped() == sat_inc(old(self).dropped())
                    &&& final(self).gap_set() == old(self).gap_set().insert(scope_key@)
                } else {
                    &&& final(self).deltas() == old(self).deltas().push(
                        DeltaView { scope_key: scope_key@, parser_id: parser_id@, status, count: 1 },
                    )
                    &&& final(self).dropped() == old(self).dropped()
                    &&& final(self).gaps() == old(self).gaps()
                },
            },
    {
        let ghost before = self.deltas();
        match self.find_delta(scope_key, parser_id, status) {
            Some(i) => {
                proof {
                    let c = choose|k: int| 0 <= k < before.len() && same_key(before[k], scope_key@, parser_id@, status);
                    if c != i {
                        if c < i {
                            assert(!same_key(before[c], before[i as int].scope_key, before[i as int].parser_id, before[i as int].status));
                        } else {
                            assert(!same_key(before[i as int], before[c].scope_key, before[c].parser_id, before[c].status));
                        }
                    }
                }
                let count = self.profile_deltas[i].count;
                let old_delta = &self.profile_deltas[i];
                let updated = ParserProfileDelta {
                    scope_key: old_delta.scope_key.clone(),
                    parser_id: old_delta.parser_id.clone(),
                    status: old_delta.status,
                    count: count.saturating_add(1),
                };
                self.profile_deltas.set(i, updated);
                proof {
                    assert(self.deltas() =~= before.update(
                        i as int,
                        DeltaView { count: sat_inc(before[i as int].count), ..before[i as int] },
                    ));
                    let after = self.deltas();
                    assert forall|a: int, b: int| 0 <= a < b < after.len() implies !same_key(
                        after[a],
                        after[b].scope_key,
                        after[b].parser_id,
                        after[b].status,
                    ) by {
                        assert(!same_key(before[a], before[b].scope_key, before[b].parser_id, before[b].status));
                    }
                }
            },
            None => {
                if self.profile_deltas.len() >= self.max_entries {
                    self.dropped_batches = self.dropped_batches.saturating_add(1);
                    self.insert_gap(scope_key);
                } else {
                    let d = ParserProfileDelta {
                        scope_key: owned(scope_key),
                        parser_id: owned(parser_id),
                        status,
                        count: 1,
                    };
                    self.profile_deltas.push(d);
                    proof {
                        let after = self.deltas();
                        assert(after =~= before.push(d@));
                        assert forall|a: int, b: int| 0 <= a < b < after.len() implies !same_key(
                            after[a],
                            after[b].scope_key,
                            after[b].parser_id,
                            after[b].status,
                        ) by {
                            if b == before.len() {
                                assert(!same_key(before[a], scope_key@, parser_id@, status));
                            } else {
                                assert(!same_key(before[a], before[b].scope_key, before[b].parser_id, before[b].status));
                            }
                        }
                    }
                }
            },
        }
    }

    /// Hands over everything recorded and leaves the batch empty.
    pub fn flush(&mut self) -> (r: MetricsFlushEvent)
        requires
            old(self).wf(),
        ensures
            final(self).wf(),
            deltas_view(r.profile_deltas@) == old(self).deltas(),
            r.dropped_batches == old(self).dropped(),
            texts(r.scope_gaps@) == old(self).gaps(),
            final(self).deltas().len() == 0,
            final(self).dropped() == 0,
            final(self).gaps().len() == 0,
            final(self).capacity() == old(self).capacity(),
    {
        let mut profile_deltas: Vec<ParserProfileDelta> = Vec::new();
        std::mem::swap(&mut profile_deltas, &mut self.profile_deltas);
        let dropped_batches = self.dropped_batches;
        self.dropped_batches = 0;
        let mut scope_gaps: Vec<String> = Vec::new();
        std::mem::swap(&mut scope_gaps, &mut self.scope_gaps);
        proof {
            assert(self.deltas() =~= Seq::<DeltaView>::empty());
        }
        MetricsFlushEvent { profile_deltas, dropped_batches, scope_gaps }
    }

    /// Nothing recorded since the last flush.
    pub fn is_empty(&self) -> (r: bool)
        ensures
            r == (self.deltas().len() == 0 && self.dropped() == 0 && self.gaps().len() == 0),
    {
        self.profile_deltas.len() == 0 && self.dropped_batches == 0 && self.scope_gaps.len() == 0
    }
}

impl Default for LocalParserMetricsBatch {
    fn default() -> (r: Self)
        ensures
            r.wf(),
            r.deltas().len() == 0,
            r.capacity() == DEFAULT_MAX_PROFILE_DELTAS,
            r.dropped() == 0,
            r.gaps().len() == 0,
    {
        Self::with_max_entries(DEFAULT_MAX_PROFILE_DELTAS)
    }
}

} // verus!
