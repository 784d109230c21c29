//! Hourly metrics rolled up from per-minute points: points of the same hour are added
//! together, the hours are listed in ascending order, and only the latest hours are kept.
use vstd::prelude::*;
use crate::control::{text_less, text_lt};
use crate::store::{HourMetricPoint, MinuteMetricPoint};
use crate::calendar::{
    parse_utc, rfc3339_text, spec_parse_utc, spec_rfc3339_text, spec_utc_minute_key_text,
    utc_minute_key_text,
};
use crate::control::{insert_sorted_text, strictly_sorted, texts};
use crate::event::{CanonicalEvent, EventView, Timestamp};
use crate::text::{concat, str_eq, substring};

verus! {

/// An hour's row: its key and its counts (total, parsed, partial, failed, raw bytes).
pub type HourRow = (Seq<char>, int, int, int, int, int);

/// The hour a minute bucket falls in: its first 13 characters (`YYYY-MM-DDTHH`) and
/// `:00:00Z`.
pub open spec fn hour_of(minute: Seq<char>) -> Seq<char> {
    (if minute.len() <= 13 {
        minute
    } else {
        minute.take(13)
    }) + ":00:00Z"@
}

/// Count `k` of a point: 0 total, 1 parsed, 2 partial, 3 failed, 4 raw bytes.
pub open spec fn point_count(p: MinuteMetricPoint, k: int) -> int {
    if k == 0 {
        p.total as int
    } else if k == 1 {
        p.parsed as int
    } else if k == 2 {
        p.partial as int
    } else if k == 3 {
        p.failed as int
    } else {
        p.raw_bytes as int
    }
}

pub open spec fn row_count(r: HourRow, k: int) -> int {
    if k == 0 {
        r.1
    } else if k == 1 {
        r.2
    } else if k == 2 {
        r.3
    } else if k == 3 {
        r.4
    } else {
        r.5
    }
}

/// The first row with the key.
pub open spec fn key_index(rows: Seq<HourRow>, key: Seq<char>) -> Option<int>
    decreases rows.len(),
{
    if rows.len() == 0 {
        None
    } else if rows[0].0 == key {
        Some(0)
    } else {
        match key_index(rows.drop_first(), key) {
            Some(i) => Some(i + 1),
            None => None,
        }
    }
}

/// Where a new key goes among rows in key order: before the first row whose key is not
/// smaller.
pub open spec fn key_position(rows: Seq<HourRow>, key: Seq<char>) -> int
    decreases rows.len(),
{
    if rows.len() == 0 {
        0
    } else if !text_lt(rows[0].0, key) {
        0
    } else {
        1 + key_position(rows.drop_first(), key)
    }
}

/// A point added to its hour's row, or a new row for the hour in key order.
pub open spec fn add_point(rows: Seq<HourRow>, p: MinuteMetricPoint) -> Seq<HourRow> {
    let key = hour_of(p.bucket_minute@);
    match key_index(rows, key) {
        Some(i) => rows.update(
            i,
            (
                key,
                rows[i].1 + p.total,
                rows[i].2 + p.parsed,
                rows[i].3 + p.partial,
                rows[i].4 + p.failed,
                rows[i].5 + p.raw_bytes,
            ),
        ),
        None => rows.insert(
            key_position(rows, key),
            (key, p.total as int, p.parsed as int, p.partial as int, p.failed as int, p.raw_bytes as int),
        ),
    }
}

/// The hourly rows of a list of minute points.
pub open spec fn hour_rollup(points: Seq<MinuteMetricPoint>) -> Seq<HourRow>
    decreases points.len(),
{
    if points.len() == 0 {
        Seq::empty()
    } else {
        add_point(hour_rollup(points.drop_last()), points.last())
    }
}

/// The latest `limit` hours of the rollup.
pub open spec fn spec_hour_metrics(points: Seq<MinuteMetricPoint>, limit: nat) -> Seq<HourRow> {
    let rows = hour_rollup(points);
    if rows.len() > limit {
        rows.skip(rows.len() - limit)
    } else {
        rows
    }
}

/// The sum of count `k` over the points.
pub open spec fn count_sum(points: Seq<MinuteMetricPoint>, k: int) -> int
    decreases points.len(),
{
    if points.len() == 0 {
        0
    } else {
        count_sum(points.drop_last(), k) + point_count(points.last(), k)
    }
}

pub open spec fn hour_row_view(r: HourMetricPoint) -> HourRow {
    (r.bucket_hour@, r.total as int, r.parsed as int, r.partial as int, r.failed as int, r.raw_bytes as int)
}

pub open spec fn hour_rows_view(v: Seq<HourMetricPoint>) -> Seq<HourRow> {
    v.map_values(|r: HourMetricPoint| hour_row_view(r))
}

proof fn lemma_count_sum_prefix(points: Seq<MinuteMetricPoint>, i: int, k: int)
    requires
        0 <= i <= points.len(),
    ensures
        0 <= count_sum(points.take(i), k) <= count_sum(points, k),
    decreases points.len() - i,
{
    if i < points.len() {
        lemma_count_sum_prefix(points, i + 1, k);
        assert(points.take(i + 1).drop_last() =~= points.take(i));
    } else {
        assert(points.take(i) =~= points);
    }
    lemma_count_sum_nonneg(points.take(i), k);
}

proof fn lemma_count_sum_nonneg(points: Seq<MinuteMetricPoint>, k: int)
    ensures
        count_sum(points, k) >= 0,
    decreases points.len(),
{
    if points.len() > 0 {
        lemma_count_sum_nonneg(points.drop_last(), k);
    }
}

pub proof fn lemma_key_index(rows: Seq<HourRow>, key: Seq<char>)
    ensures
        key_index(rows, key) matches Some(i) ==> 0 <= i < rows.len() && rows[i].0 == key,
        key_index(rows, key) is None ==> forall|j: int| 0 <= j < rows.len() ==> rows[j].0 != key,
    decreases rows.len(),
{
    if rows.len() > 0 {
        lemma_key_index(rows.drop_first(), key);
        if rows[0].0 != key {
            assert forall|j: int| 0 <= j < rows.len() && key_index(rows, key) is None implies rows[j].0 != key by {
                if j > 0 {
                    assert(rows[j] == rows.drop_first()[j - 1]);
                }
            }
        }
    }
}

pub proof fn lemma_key_position(rows: Seq<HourRow>, key: Seq<char>)
    ensures
        0 <= key_position(rows, key) <= rows.len(),
        forall|j: int| 0 <= j < key_position(rows, key) ==> text_lt(#[trigger] rows[j].0, key),
        key_position(rows, key) < rows.len() ==> !text_lt(rows[key_position(rows, key)].0, key),
    decreases rows.len(),
{
    if rows.len() > 0 && text_lt(rows[0].0, key) {
        lemma_key_position(rows.drop_first(), key);
        assert forall|j: int| 0 <= j < key_position(rows, key) implies text_lt(#[trigger] rows[j].0, key) by {
            if j > 0 {
                assert(rows[j] == rows.drop_first()[j - 1]);
            }
        }
    }
}

fn find_hour(rows: &Vec<HourMetricPoint>, key: &str) -> (r: Option<usize>)
    ensures
        r matches Some(i) ==> key_index(hour_rows_view(rows@), key@) == Some(i as int) && i < rows@.len(),
        r is None ==> key_index(hour_rows_view(rows@), key@) is None,
{
    let ghost rv = hour_rows_view(rows@);
    let mut i: usize = 0;
    proof {
        assert(rv.skip(0) =~= rv);
    }
    while i < rows.len()
        invariant
            i <= rows@.len(),
            rv == hour_rows_view(rows@),
            key_index(rv, key@) == match key_index(rv.skip(i as int), key@) {
                Some(k) => Some(k + i),
                None => None,
            },
        decreases rows.len() - i,
    {
        proof {
            assert(rv.skip(i as int).drop_first() =~= rv.skip(i + 1));
            assert(rv.skip(i as int)[0] == rv[i as int]);
        }
        if str_eq(rows[i].bucket_hour.as_str(), key) {
            return Some(i);
        }
        i = i + 1;
    }
    proof {
        assert(rv.skip(i as int) =~= Seq::<HourRow>::empty());
    }
    None
}

fn hour_position(rows: &Vec<HourMetricPoint>, key: &str) -> (r: usize)
    ensures
        r == key_position(hour_rows_view(rows@), key@),
{
    let ghost rv = hour_rows_view(rows@);
    let mut i: usize = 0;
    proof {
        assert(rv.skip(0) =~= rv);
    }
    while i < rows.len() && text_less(rows[i].bucket_hour.as_str(), key)
        invariant
            i <= rows@.len(),
            rv == hour_rows_view(rows@),
            key_position(rv, key@) == key_position(rv.skip(i as int), key@) + i,
        decreases rows.len() - i,
    {
        proof {
            assert(rv.skip(i as int).drop_first() =~= rv.skip(i + 1));
            assert(rv.skip(i as int)[0] == rv[i as int]);
        }
        i = i + 1;
    }
    proof {
        if i < rows@.len() {
            assert(rv.skip(i as int)[0] == rv[i as int]);
        } else {
            assert(rv.skip(i as int) =~= Seq::<HourRow>::empty());
        }
    }
    i
}

fn hour_key(minute: &str) -> (r: String)
    ensures
        r@ == hour_of(minute@),
{
    let chars = crate::text::chars_of(minute);
    let n = if chars.len() <= 13 {
        chars.len()
    } else {
        13
    };
    let head = crate::text::chars_range_string(chars.as_slice(), 0, n);
    proof {
        if chars@.len() <= 13 {
            assert(chars@.subrange(0, n as int) =~= chars@);
        } else {
            assert(chars@.subrange(0, n as int) =~= chars@.take(13));
        }
    }
    concat(head.as_str(), ":00:00Z")
}

/// Rolls minute points up into hours, ascending, keeping the latest `limit` hours.
pub fn hour_metrics(points: &Vec<MinuteMetricPoint>, limit: usize) -> (r: Vec<HourMetricPoint>)
    requires
        forall|k: int| 0 <= k < 5 ==> count_sum(points@, k) <= u64::MAX,
    ensures
        hour_rows_view(r@) == spec_hour_metrics(points@, limit as nat),
{
    let mut rows: Vec<HourMetricPoint> = Vec::new();
    let mut i: usize = 0;
    proof {
        assert(points@.take(0) =~= Seq::<MinuteMetricPoint>::empty());
        assert(hour_rows_view(rows@) =~= Seq::<HourRow>::empty());
    }
    while i < points.len()
        invariant
            i <= points@.len(),
            forall|k: int| 0 <= k < 5 ==> count_sum(points@, k) <= u64::MAX,
            hour_rows_view(rows@) == hour_rollup(points@.take(i as int)),
            forall|j: int, k: int|
                0 <= j < rows@.len() && 0 <= k < 5 ==> #[trigger] row_count(hour_rows_view(rows@)[j], k)
                    <= count_sum(points@.take(i as int), k),
        decreases points.len() - i,
    {
        let p = &points[i];
        let ghost before = hour_rows_view(rows@);
        let ghost pre = points@.take(i as int);
        let ghost post = points@.take(i + 1);
        proof {
            assert(post.drop_last() =~= pre);
            assert(post.last() == *p);
            assert forall|k: int| 0 <= k < 5 implies count_sum(post, k) == count_sum(pre, k)
                + point_count(*p, k) && count_sum(post, k) <= u64::MAX by {
                lemma_count_sum_prefix(points@, i + 1, k);
            }
        }
        let key = hour_key(p.bucket_minute.as_str());
        proof {
            lemma_key_index(before, key@);
            lemma_key_position(before, key@);
        }
        match find_hour(&rows, key.as_str()) {
            Some(j) => {
                proof {
                    assert(row_count(before[j as int], 0) <= count_sum(pre, 0));
                    assert(row_count(before[j as int], 1) <= count_sum(pre, 1));
                    assert(row_count(before[j as int], 2) <= count_sum(pre, 2));
                    assert(row_count(before[j as int], 3) <= count_sum(pre, 3));
                    assert(row_count(before[j as int], 4) <= count_sum(pre, 4));
                    assert(count_sum(post, 0) == count_sum(pre, 0) + p.total);
                    assert(count_sum(post, 1) == count_sum(pre, 1) + p.parsed);
                    assert(count_sum(post, 2) == count_sum(pre, 2) + p.partial);
                    assert(count_sum(post, 3) == count_sum(pre, 3) + p.failed);
                    assert(count_sum(post, 4) == count_sum(pre, 4) + p.raw_bytes);
                }
                let updated = HourMetricPoint {
                    bucket_hour: key,
                    total: rows[j].total + p.total,
                    parsed: rows[j].parsed + p.parsed,
                    partial: rows[j].partial + p.partial,
                    failed: rows[j].failed + p.failed,
                    raw_bytes: rows[j].raw_bytes + p.raw_bytes,
                };
                let ghost nv = hour_row_view(updated);
                rows.set(j, updated);
                proof {
                    assert(hour_rows_view(rows@) =~= before.update(j as int, nv));
                    assert(hour_rollup(post) == add_point(hour_rollup(pre), *p));
                }
            },
            None => {
                let pos = hour_position(&rows, key.as_str());
                let row = HourMetricPoint {
                    bucket_hour: key,
                    total: p.total,
                    parsed: p.parsed,
                    partial: p.partial,
                    failed: p.failed,
                    raw_bytes: p.raw_bytes,
                };
                let ghost nv = hour_row_view(row);
                rows.insert(pos, row);
                proof {
                    assert(hour_rows_view(rows@) =~= before.insert(pos as int, nv));
                    assert(hour_rollup(post) == add_point(hour_rollup(pre), *p));
                }
            },
        }
        proof {
            let rv = hour_rows_view(rows@);
            assert forall|j: int, k: int| 0 <= j < rows@.len() && 0 <= k < 5 implies #[trigger] row_count(
                hour_rows_view(rows@)[j],
                k,
            ) <= count_sum(post, k) by {
                lemma_count_sum_nonneg(pre, k);
                let c = point_count(*p, k);
                assert(c >= 0);
            }
        }
        i = i + 1;
    }
    proof {
        assert(points@.take(points@.len() as int) =~= points@);
    }
    if rows.len() > limit {
        let cut = rows.len() - limit;
        let kept = rows.split_off(cut);
        proof {
            assert(hour_rows_view(kept@) =~= hour_rollup(points@).skip(cut as int));
        }
        kept
    } else {
        rows
    }
}

} // verus!

verus! {

/// The reason a failed event is counted under: its parse error, `unknown` without one.
pub open spec fn failure_reason(e: crate::event::EventView) -> Seq<char> {
    match e.parse_error {
        Some(m) => m,
        None => "unknown"@,
    }
}

/// How many failed events give the reason.
pub open spec fn reason_count(events: Seq<crate::event::EventView>, reason: Seq<char>) -> nat
    decreases events.len(),
{
    if events.len() == 0 {
        0
    } else {
        reason_count(events.drop_last(), reason) + if events.last().parse_status
            == crate::event::ParseStatus::Failed && failure_reason(events.last()) == reason {
            1nat
        } else {
            0nat
        }
    }
}

pub open spec fn summary_views(v: Seq<crate::store::ParseErrorSummary>) -> Seq<(Seq<char>, u64)> {
    v.map_values(|s: crate::store::ParseErrorSummary| (s.reason@, s.count))
}

proof fn lemma_reason_count_bound(events: Seq<crate::event::EventView>, reason: Seq<char>)
    ensures
        reason_count(events, reason) <= events.len(),
    decreases events.len(),
{
    if events.len() > 0 {
        lemma_reason_count_bound(events.drop_last(), reason);
    }
}

/// The failure reasons of a list of events with how often each occurs, in ascending order of
/// reason.
pub fn parser_summary(events: &Vec<crate::event::CanonicalEvent>) -> (r: Vec<crate::store::ParseErrorSummary>)
    ensures
        crate::control::strictly_sorted(summary_views(r@).map_values(|s: (Seq<char>, u64)| s.0)),
        forall|i: int|
            0 <= i < r@.len() ==> (#[trigger] summary_views(r@)[i]).1 == reason_count(
                crate::cold_search::event_views(events@),
                summary_views(r@)[i].0,
            ) && summary_views(r@)[i].1 > 0,
        forall|reason: Seq<char>|
            reason_count(crate::cold_search::event_views(events@), reason) > 0 ==> exists|i: int|
                0 <= i < r@.len() && #[trigger] summary_views(r@)[i].0 == reason,
{
    let ghost ev = crate::cold_search::event_views(events@);
    let mut rows: Vec<crate::store::ParseErrorSummary> = Vec::new();
    let mut i: usize = 0;
    while i < events.len()
        invariant
            i <= events@.len(),
            ev == crate::cold_search::event_views(events@),
            crate::control::strictly_sorted(summary_views(rows@).map_values(|s: (Seq<char>, u64)| s.0)),
            forall|j: int|
                0 <= j < rows@.len() ==> (#[trigger] summary_views(rows@)[j]).1 == reason_count(
                    ev.take(i as int),
                    summary_views(rows@)[j].0,
                ) && summary_views(rows@)[j].1 > 0,
            forall|reason: Seq<char>|
                reason_count(ev.take(i as int), reason) > 0 ==> exists|j: int|
                    0 <= j < rows@.len() && #[trigger] summary_views(rows@)[j].0 == reason,
        decreases events.len() - i,
    {
        let ghost pre = ev.take(i as int);
        let ghost post = ev.take(i + 1);
        proof {
            assert(post.drop_last() =~= pre);
            assert(post.last() == ev[i as int]);
            assert(ev[i as int] == events@[i as int]@);
        }
        let e = &events[i];
        if e.parse_status != crate::event::ParseStatus::Failed {
            proof {
                assert forall|r2: Seq<char>| reason_count(post, r2) == reason_count(pre, r2) by {}
            }
        } else {
            let reason = match &e.parse_error {
                Some(m) => m.clone(),
                None => crate::text::owned("unknown"),
            };
            let ghost rv = reason@;
            let ghost before = summary_views(rows@);
            proof {
                assert(forall|r2: Seq<char>|
                    reason_count(pre, r2) > 0 ==> exists|j: int|
                        0 <= j < before.len() && #[trigger] before[j].0 == r2);
                assert(rv == failure_reason(ev[i as int]));
                assert forall|r2: Seq<char>| r2 != rv implies reason_count(post, r2) == reason_count(pre, r2) by {}
                assert(reason_count(post, rv) == reason_count(pre, rv) + 1);
            }
            let mut k: usize = 0;
            while k < rows.len() && crate::control::text_less(rows[k].reason.as_str(), reason.as_str())
                invariant
                    k <= rows@.len(),
                    before == summary_views(rows@),
                    rv == reason@,
                    forall|m: int| 0 <= m < k ==> crate::control::text_lt(#[trigger] before[m].0, rv),
                decreases rows.len() - k,
            {
                proof {
                    assert(before[k as int].0 == rows@[k as int].reason@);
                }
                k = k + 1;
            }
            if k < rows.len() && crate::text::str_eq(rows[k].reason.as_str(), reason.as_str()) {
                proof {
                    lemma_reason_count_bound(pre, rv);
                    assert(before[k as int].0 == rows@[k as int].reason@);
                    assert(before[k as int].1 == reason_count(pre, rv));
                    let keys = before.map_values(|s: (Seq<char>, u64)| s.0);
                    assert forall|j: int| 0 <= j < before.len() && j != k implies before[j].0 != rv by {
                        assert(keys[j] == before[j].0);
                        assert(keys[k as int] == before[k as int].0);
                        crate::control::lemma_text_lt_irreflexive(rv);
                    }
                }
                let c = rows[k].count + 1;
                let updated = crate::store::ParseErrorSummary { reason: reason, count: c };
                rows.set(k, updated);
                proof {
                    let after = summary_views(rows@);
                    assert(after =~= before.update(k as int, (rv, c)));
                    assert forall|j: int| 0 <= j < rows@.len() implies (#[trigger] summary_views(rows@)[j]).1
                        == reason_count(post, summary_views(rows@)[j].0) && summary_views(rows@)[j].1 > 0 by {
                        if j != k {
                            assert(after[j] == before[j]);
                        }
                    }
                    assert(after.map_values(|s: (Seq<char>, u64)| s.0) =~= before.map_values(|s: (Seq<char>, u64)| s.0));
                    assert forall|reason2: Seq<char>| reason_count(post, reason2) > 0 implies exists|j: int|
                        0 <= j < rows@.len() && #[trigger] summary_views(rows@)[j].0 == reason2 by {
                        if reason2 != rv {
                            let j = choose|j: int| 0 <= j < before.len() && #[trigger] before[j].0 == reason2;
                            assert(after[j].0 == reason2);
                        } else {
                            assert(after[k as int].0 == reason2);
                        }
                    }
                }
            } else {
                proof {
                    let keys = before.map_values(|s: (Seq<char>, u64)| s.0);
                    if k < before.len() {
                        crate::control::lemma_text_lt_total(before[k as int].0, rv);
                    }
                    assert forall|m: int| k <= m < before.len() implies crate::control::text_lt(rv, #[trigger] before[m].0) by {
                        assert(keys[m] == before[m].0);
                        assert(keys[k as int] == before[k as int].0);
                        if m > k {
                            crate::control::lemma_text_lt_transitive(rv, before[k as int].0, before[m].0);
                        }
                    }
                    assert(reason_count(pre, rv) == 0) by {
                        if reason_count(pre, rv) > 0 {
                            let j = choose|j: int| 0 <= j < rows@.len() && #[trigger] summary_views(rows@)[j].0 == rv;
                            if j < k {
                                crate::control::lemma_text_lt_irreflexive(rv);
                            } else {
                                crate::control::lemma_text_lt_irreflexive(rv);
                            }
                        }
                    }
                }
                let row = crate::store::ParseErrorSummary { reason: reason, count: 1 };
                rows.insert(k, row);
                proof {
                    let after = summary_views(rows@);
                    assert(after =~= before.insert(k as int, (rv, 1u64)));
                    let keys = before.map_values(|s: (Seq<char>, u64)| s.0);
                    let keys2 = after.map_values(|s: (Seq<char>, u64)| s.0);
                    assert(keys2 =~= keys.insert(k as int, rv));
                    assert forall|a: int, b: int| 0 <= a < b < keys2.len() implies crate::control::text_lt(keys2[a], keys2[b]) by {
                        if b < k {
                            assert(keys2[a] == keys[a] && keys2[b] == keys[b]);
                        } else if b == k {
                            assert(keys2[a] == before[a].0);
                        } else if a < k {
                            assert(keys2[a] == before[a].0 && keys2[b] == before[b - 1].0);
                            crate::control::lemma_text_lt_transitive(keys2[a], rv, keys2[b]);
                        } else if a == k {
                            assert(keys2[b] == before[b - 1].0);
                        } else {
                            assert(keys2[a] == keys[a - 1] && keys2[b] == keys[b - 1]);
                        }
                    }
                    assert forall|j: int| 0 <= j < rows@.len() implies (#[trigger] summary_views(rows@)[j]).1
                        == reason_count(post, summary_views(rows@)[j].0) && summary_views(rows@)[j].1 > 0 by {
                        if j < k {
                            assert(after[j] == before[j]);
                            assert(before[j].0 != rv);
                        } else if j > k {
                            assert(after[j] == before[j - 1]);
                            assert(before[j - 1].0 != rv) by {
                                crate::control::lemma_text_lt_irreflexive(rv);
                            }
                        }
                    }
                    assert forall|reason2: Seq<char>| reason_count(post, reason2) > 0 implies exists|j: int|
                        0 <= j < rows@.len() && #[trigger] summary_views(rows@)[j].0 == reason2 by {
                        if reason2 != rv {
                            let j = choose|j: int| 0 <= j < before.len() && #[trigger] before[j].0 == reason2;
                            if j < k {
                                assert(after[j].0 == reason2);
                            } else {
                                assert(after[j + 1].0 == reason2);
                            }
                        } else {
                            assert(after[k as int].0 == reason2);
                        }
                    }
                }
            }
        }
        i = i + 1;
    }
    proof {
        assert(ev.take(events@.len() as int) =~= ev);
    }
    rows
}


// ---------------------------------------------------------------- minute buckets

/// The minute bucket of an RFC 3339 time: its first 16 characters (`YYYY-MM-DDTHH:MM`) and
/// `:00Z`.
pub open spec fn minute_of_text(t: Seq<char>) -> Seq<char> {
    t.take(16) + ":00Z"@
}

/// The minute bucket an event arrived in, from its arrival time in RFC 3339.
pub open spec fn event_minute(e: EventView) -> Option<Seq<char>> {
    match spec_rfc3339_text(e.ingest_time.secs, e.ingest_time.nanos) {
        Some(t) => if t.len() >= 16 {
            Some(minute_of_text(t))
        } else {
            None
        },
        None => None,
    }
}

/// The minute buckets the events arrived in.
pub open spec fn spec_minute_bucket_set(events: Seq<EventView>) -> Set<Seq<char>> {
    Set::new(|m: Seq<char>| exists|i: int| 0 <= i < events.len() && event_minute(#[trigger] events[i]) == Some(m))
}

/// The minute buckets the events arrived in, ascending, each once.
pub fn minute_buckets(events: &[CanonicalEvent]) -> (r: Vec<String>)
    ensures
        strictly_sorted(texts(r@)),
        texts(r@).to_set() == spec_minute_bucket_set(events@.map_values(|e: CanonicalEvent| e@)),
{
    let ghost views = events@.map_values(|e: CanonicalEvent| e@);
    let mut buckets: Vec<String> = Vec::new();
    let ghost mut acc: Set<Seq<char>> = Set::empty();
    proof {
        assert(texts(buckets@).to_set() =~= acc);
    }
    let mut i: usize = 0;
    while i < events.len()
        invariant
            i <= events@.len(),
            views == events@.map_values(|e: CanonicalEvent| e@),
            strictly_sorted(texts(buckets@)),
            texts(buckets@).to_set() == acc,
            acc == Set::new(|m: Seq<char>| exists|k: int| 0 <= k < i && event_minute(#[trigger] views[k]) == Some(m)),
        decreases events.len() - i,
    {
        let t = events[i].ingest_time;
        let ghost before = acc;
        match rfc3339_text(t) {
            Some(text) => {
                if text.as_str().unicode_len() >= 16 {
                    let head = substring(text.as_str(), 0, 16);
                    let bucket = concat(head.as_str(), ":00Z");
                    proof {
                        assert(head@ =~= text@.take(16));
                    }
                    insert_sorted_text(&mut buckets, bucket.as_str());
                    proof {
                        acc = acc.insert(bucket@);
                    }
                }
            },
            None => {},
        }
        proof {
            let next = Set::new(|m: Seq<char>| exists|k: int| 0 <= k < i + 1 && event_minute(#[trigger] views[k]) == Some(m));
            assert(views[i as int] == events@[i as int]@);
            assert forall|m: Seq<char>| #[trigger] next.contains(m) implies acc.contains(m) by {
                let k = choose|k: int| 0 <= k < i + 1 && event_minute(#[trigger] views[k]) == Some(m);
                if k < i {
                    assert(before.contains(m));
                }
            }
            assert forall|m: Seq<char>| #[trigger] acc.contains(m) implies next.contains(m) by {
                if before.contains(m) {
                    let k = choose|k: int| 0 <= k < i && event_minute(#[trigger] views[k]) == Some(m);
                    assert(0 <= k < i + 1 && event_minute(views[k]) == Some(m));
                } else {
                    assert(event_minute(views[i as int]) == Some(m));
                }
            }
            assert(acc =~= next);
        }
        i = i + 1;
    }
    proof {
        assert(acc =~= spec_minute_bucket_set(views));
    }
    buckets
}


// ---------------------------------------------------------------- minute window

/// The earliest of non-empty texts in text order.
pub open spec fn min_text(bs: Seq<Seq<char>>) -> Seq<char>
    decreases bs.len(),
{
    if bs.len() <= 1 {
        bs[0]
    } else {
        let m = min_text(bs.drop_last());
        if text_lt(bs.last(), m) {
            bs.last()
        } else {
            m
        }
    }
}

/// The latest of non-empty texts in text order.
pub open spec fn max_text(bs: Seq<Seq<char>>) -> Seq<char>
    decreases bs.len(),
{
    if bs.len() <= 1 {
        bs[0]
    } else {
        let m = max_text(bs.drop_last());
        if text_lt(m, bs.last()) {
            bs.last()
        } else {
            m
        }
    }
}

/// The format of a minute bucket.
pub open spec fn bucket_format() -> Seq<char> {
    "%Y-%m-%dT%H:%M:%SZ"@
}

/// The minute after a bucket, written as a bucket; `None` when the bucket does not read as
/// one or the next minute cannot be written.
pub open spec fn spec_next_minute(bucket: Seq<char>) -> Option<Seq<char>> {
    match spec_parse_utc(bucket, bucket_format()) {
        Some((s, n)) => if s + 60 <= i64::MAX {
            spec_utc_minute_key_text((s + 60) as i64, n)
        } else {
            None
        },
        None => None,
    }
}

/// Why the arrival-time window of minute buckets could not be formed.
#[derive(Debug, Clone, PartialEq, Eq)]
pub enum MinuteWindowError {
    /// The latest bucket does not read as `%Y-%m-%dT%H:%M:%SZ`.
    UnreadableBucket(String),
    /// The minute after the latest bucket cannot be written.
    OutOfRange,
}

fn least_and_greatest(buckets: &[String]) -> (r: (usize, usize))
    requires
        buckets@.len() > 0,
    ensures
        r.0 < buckets@.len(),
        r.1 < buckets@.len(),
        buckets@[r.0 as int]@ == min_text(texts(buckets@)),
        buckets@[r.1 as int]@ == max_text(texts(buckets@)),
{
    let ghost bs = texts(buckets@);
    let mut lo: usize = 0;
    let mut hi: usize = 0;
    let mut i: usize = 1;
    proof {
        assert(bs.take(1).len() == 1);
    }
    while i < buckets.len()
        invariant
            1 <= i <= buckets@.len(),
            bs == texts(buckets@),
            lo < i,
            hi < i,
            buckets@[lo as int]@ == min_text(bs.take(i as int)),
            buckets@[hi as int]@ == max_text(bs.take(i as int)),
        decreases buckets.len() - i,
    {
        proof {
            assert(bs.take(i + 1).drop_last() =~= bs.take(i as int));
            assert(bs.take(i + 1).last() == buckets@[i as int]@);
        }
        if text_less(buckets[i].as_str(), buckets[lo].as_str()) {
            lo = i;
        }
        if text_less(buckets[hi].as_str(), buckets[i].as_str()) {
            hi = i;
        }
        i = i + 1;
    }
    proof {
        assert(bs.take(i as int) =~= bs);
    }
    (lo, hi)
}

/// The window of arrival times that minute buckets cover: from the earliest bucket up to,
/// not including, the minute after the latest one; `None` for no buckets.
pub fn minute_window(buckets: &[String]) -> (r: Result<Option<(String, String)>, MinuteWindowError>)
    ensures
        buckets@.len() == 0 ==> r == Ok::<Option<(String, String)>, MinuteWindowError>(None),
        buckets@.len() > 0 ==> match r {
            Ok(Some((from, to))) => from@ == min_text(texts(buckets@))
                && spec_next_minute(max_text(texts(buckets@))) == Some(to@),
            Ok(None) => false,
            Err(MinuteWindowError::UnreadableBucket(b)) => b@ == max_text(texts(buckets@))
                && spec_parse_utc(b@, bucket_format()) is None,
            Err(MinuteWindowError::OutOfRange) => spec_parse_utc(max_text(texts(buckets@)), bucket_format()) is Some
                && spec_next_minute(max_text(texts(buckets@))) is None,
        },
{
    if buckets.len() == 0 {
        return Ok(None);
    }
    let (lo, hi) = least_and_greatest(buckets);
    let max = buckets[hi].as_str();
    proof {
        reveal_strlit("%Y-%m-%dT%H:%M:%SZ");
    }
    match parse_utc(max, "%Y-%m-%dT%H:%M:%SZ") {
        None => Err(MinuteWindowError::UnreadableBucket(buckets[hi].clone())),
        Some(t) => {
            if t.secs > i64::MAX - 60 {
                return Err(MinuteWindowError::OutOfRange);
            }
            match utc_minute_key_text(Timestamp { secs: t.secs + 60, nanos: t.nanos }) {
                Some(to) => Ok(Some((buckets[lo].clone(), to))),
                None => Err(MinuteWindowError::OutOfRange),
            }
        },
    }
}

} // verus!
