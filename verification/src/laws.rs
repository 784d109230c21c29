//! Properties that hold of every input or relate several operations of the library.
use vstd::prelude::*;
use vstd::multiset::Multiset;
use crate::control::{
    lemma_text_lt_asymmetric, lemma_text_lt_total,
    lemma_text_lt_transitive, text_lt,
};
use crate::api::{spec_path_within, spec_upsert_region, day_after, day_text, opt_day, spec_query_date_days, steps_to, first_region_match, region_applies, spec_request_authorized, RegionView};
use crate::archive::{
    path_position, sort_by_path, spec_is_frozen_archive, spec_is_parquet_file,
    spec_list_archive_files, spec_list_frozen_files,
};
use crate::engine::{engine_outcome, engine_scan, AdapterSlot};
use crate::export::{job_index, lemma_job_index, ExportJobView};
use crate::dual_db::{is_newest, sync_before};
use crate::hybrid::{before, spec_query_target, spec_route_query, QueryTarget};
use crate::route::{first_fallback, is_fallback_id, spec_insert_before_fallback};
use crate::rollup::{lemma_key_index, lemma_key_position, add_point, count_sum, hour_of, hour_rollup, key_index, key_position, point_count, row_count, HourRow};
use crate::store::MinuteMetricPoint;
use crate::event::{classified, EventView, ParseStatus, Timestamp};
use crate::governor::{
    digit_char, padded_digits, spec_archive_stamp, spec_schedule, spec_tick, GovernorConfig,
    GovernorSchedule,
};
use crate::learn::{
    apply_rules, applied_event, spec_field_is_empty, AdaptiveRuleStatus,
    AdaptiveRuleView, ApplyState, CanonicalField,
};
use crate::rows::{
    clickhouse_view, non_empty, or_empty, spec_clickhouse_row, spec_event_from_clickhouse,
    ClickHouseEvent,
};
use crate::rule::{insert_position, sort_by_priority, ParseRule};
use crate::spool::{
    name_position, sort_by_name, spec_is_uncommitted_name, spec_records_after,
    spec_uncommitted_segments, ReplaySegment, SpoolCheckpoint, SpoolRecord,
};

verus! {

// ---------------------------------------------------------------- parse status

/// A status stored under its name reads back as the same status.
pub proof fn status_name_round_trip(s: ParseStatus)
    ensures
        ParseStatus::spec_from_name(s.spec_name()) == s,
{
    reveal_strlit("parsed");
    reveal_strlit("partial");
    reveal_strlit("failed");
    assert("partial"@[3] != "parsed"@[3]);
    assert("failed"@[0] != "parsed"@[0]);
    assert("failed"@.len() != "partial"@.len());
}

/// Classification changes only the status and the error of an event, and classifying
/// again changes nothing.
pub proof fn classification_is_stable(e: EventView)
    ensures
        classified(classified(e)) == classified(e),
        classified(e) == (EventView {
            parse_status: classified(e).parse_status,
            parse_error: classified(e).parse_error,
            ..e
        }),
{
}

// ---------------------------------------------------------------- rule order

/// Rules whose priorities never decrease.
pub open spec fn priorities_ascending(s: Seq<ParseRule>) -> bool {
    forall|i: int, j: int| 0 <= i < j < s.len() ==> s[i].priority <= s[j].priority
}

proof fn lemma_first_priority_at_least(sorted: Seq<ParseRule>, priority: i32, w: int) -> (m: int)
    requires
        0 <= w < sorted.len(),
        sorted[w].priority >= priority,
    ensures
        0 <= m <= w,
        sorted[m].priority >= priority,
        forall|j: int| 0 <= j < m ==> #[trigger] sorted[j].priority < priority,
    decreases w,
{
    if exists|j: int| 0 <= j < w && sorted[j].priority >= priority {
        let j = choose|j: int| 0 <= j < w && sorted[j].priority >= priority;
        lemma_first_priority_at_least(sorted, priority, j)
    } else {
        w
    }
}

proof fn lemma_priority_position(sorted: Seq<ParseRule>, priority: i32)
    ensures
        0 <= insert_position(sorted, priority) <= sorted.len(),
        forall|j: int| 0 <= j < insert_position(sorted, priority) ==> #[trigger] sorted[j].priority < priority,
        insert_position(sorted, priority) < sorted.len() ==> sorted[insert_position(sorted, priority)].priority >= priority,
{
    if exists|i: int| 0 <= i < sorted.len() && sorted[i].priority >= priority {
        let w = choose|i: int| 0 <= i < sorted.len() && sorted[i].priority >= priority;
        let m = lemma_first_priority_at_least(sorted, priority, w);
        assert(0 <= m < sorted.len() && sorted[m].priority >= priority && forall|j: int|
            0 <= j < m ==> sorted[j].priority < priority);
    }
}

#[verifier::spinoff_prover]
proof fn lemma_priority_insert(sorted: Seq<ParseRule>, x: ParseRule)
    requires
        priorities_ascending(sorted),
    ensures
        0 <= insert_position(sorted, x.priority) <= sorted.len(),
        priorities_ascending(sorted.insert(insert_position(sorted, x.priority), x)),
{
    let p = insert_position(sorted, x.priority);
    lemma_priority_position(sorted, x.priority);
    let r = sorted.insert(p, x);
    sorted.insert_ensures(p, x);
    assert forall|i: int, j: int| 0 <= i < j < r.len() implies #[trigger] r[i].priority <= #[trigger] r[j].priority by {
        if j < p {
            assert(r[i] == sorted[i] && r[j] == sorted[j]);
        } else if j == p {
            assert(r[i] == sorted[i]);
        } else if i < p {
            assert(r[i] == sorted[i] && r[j] == sorted[j - 1]);
            assert(sorted[i].priority < x.priority);
            assert(sorted[p].priority >= x.priority);
        } else if i == p {
            assert(r[j] == sorted[j - 1]);
            assert(sorted[p].priority >= x.priority);
        } else {
            assert(r[i] == sorted[i - 1] && r[j] == sorted[j - 1]);
        }
    }
}

/// The rule parser tries its rules in ascending priority, every given rule exactly once.
#[verifier::spinoff_prover]
pub proof fn rules_tried_in_priority_order(rules: Seq<ParseRule>)
    ensures
        priorities_ascending(sort_by_priority(rules)),
        sort_by_priority(rules).to_multiset() == rules.to_multiset(),
    decreases rules.len(),
{
    broadcast use vstd::seq_lib::group_to_multiset_ensures;

    if rules.len() > 0 {
        let rest = sort_by_priority(rules.drop_first());
        rules_tried_in_priority_order(rules.drop_first());
        lemma_priority_insert(rest, rules[0]);
        let p = insert_position(rest, rules[0].priority);
        vstd::seq_lib::to_multiset_insert(rest, p, rules[0]);
        assert(rules =~= seq![rules[0]] + rules.drop_first());
        vstd::seq_lib::lemma_multiset_commutative(seq![rules[0]], rules.drop_first());
        assert(seq![rules[0]].to_multiset() =~= Multiset::empty().insert(rules[0])) by {
            assert(seq![rules[0]] =~= Seq::<ParseRule>::empty().push(rules[0]));
        }
        assert(sort_by_priority(rules).to_multiset() =~= rules.to_multiset());
    }
}

// ---------------------------------------------------------------- spool replay

proof fn lemma_records_filter_push(s: Seq<SpoolRecord>, x: SpoolRecord, c: u64)
    ensures
        s.push(x).filter(|r: SpoolRecord| r.offset > c) == if x.offset > c {
            s.filter(|r: SpoolRecord| r.offset > c).push(x)
        } else {
            s.filter(|r: SpoolRecord| r.offset > c)
        },
{
    reveal_with_fuel(Seq::filter, 1);
    assert(s.push(x).drop_last() =~= s);
}

/// Records numbered 1, 2, 3, … in order, as a segment writer numbers them.
pub open spec fn numbered_from_one(records: Seq<SpoolRecord>) -> bool {
    forall|i: int| 0 <= i < records.len() ==> #[trigger] records[i].offset == i + 1
}

/// Replaying a segment after a checkpoint that has stored the first `c` records gives the
/// records after the `c`-th, and nothing once every record is stored.
#[verifier::spinoff_prover]
pub proof fn replay_resumes_after_checkpoint(records: Seq<SpoolRecord>, checkpoint: SpoolCheckpoint)
    requires
        numbered_from_one(records),
    ensures
        spec_records_after(records, checkpoint) == if checkpoint.committed_offset <= records.len() {
            records.skip(checkpoint.committed_offset as int)
        } else {
            Seq::<SpoolRecord>::empty()
        },
    decreases records.len(),
{
    let c = checkpoint.committed_offset;
    if records.len() == 0 {
        reveal_with_fuel(Seq::filter, 1);
        assert(records.skip(0) =~= records);
    } else {
        let s = records.drop_last();
        let x = records.last();
        assert(records =~= s.push(x));
        assert(numbered_from_one(s)) by {
            assert forall|i: int| 0 <= i < s.len() implies #[trigger] s[i].offset == i + 1 by {
                assert(s[i] == records[i]);
            }
        }
        assert(x.offset == records.len());
        replay_resumes_after_checkpoint(s, checkpoint);
        lemma_records_filter_push(s, x, c);
        if c <= s.len() {
            assert(s.skip(c as int).push(x) =~= records.skip(c as int));
        }
    }
}

// ---------------------------------------------------------------- segment discovery

/// Segments whose names never descend.
pub open spec fn names_ascending(s: Seq<ReplaySegment>) -> bool {
    forall|i: int, j: int| 0 <= i < j < s.len() ==> !text_lt(s[j].name@, s[i].name@)
}

proof fn lemma_first_name_at_least(sorted: Seq<ReplaySegment>, name: Seq<char>, w: int) -> (m: int)
    requires
        0 <= w < sorted.len(),
        !text_lt(sorted[w].name@, name),
    ensures
        0 <= m <= w,
        !text_lt(sorted[m].name@, name),
        forall|j: int| 0 <= j < m ==> text_lt(#[trigger] sorted[j].name@, name),
    decreases w,
{
    if exists|j: int| 0 <= j < w && !text_lt(sorted[j].name@, name) {
        let j = choose|j: int| 0 <= j < w && !text_lt(sorted[j].name@, name);
        lemma_first_name_at_least(sorted, name, j)
    } else {
        w
    }
}

proof fn lemma_name_position(sorted: Seq<ReplaySegment>, name: Seq<char>)
    ensures
        0 <= name_position(sorted, name) <= sorted.len(),
        forall|j: int| 0 <= j < name_position(sorted, name) ==> text_lt(#[trigger] sorted[j].name@, name),
        name_position(sorted, name) < sorted.len() ==> !text_lt(sorted[name_position(sorted, name)].name@, name),
{
    if exists|i: int| 0 <= i < sorted.len() && !text_lt(sorted[i].name@, name) {
        let w = choose|i: int| 0 <= i < sorted.len() && !text_lt(sorted[i].name@, name);
        let m = lemma_first_name_at_least(sorted, name, w);
        assert(0 <= m < sorted.len() && !text_lt(sorted[m].name@, name) && forall|j: int|
            0 <= j < m ==> text_lt(sorted[j].name@, name));
    }
}

/// `a` does not come after `b`.
spec fn name_le(a: Seq<char>, b: Seq<char>) -> bool {
    !text_lt(b, a)
}

proof fn lemma_name_le_transitive(a: Seq<char>, b: Seq<char>, c: Seq<char>)
    requires
        name_le(a, b),
        name_le(b, c),
    ensures
        name_le(a, c),
{
    if text_lt(c, a) {
        lemma_text_lt_total(a, b);
        lemma_text_lt_total(b, c);
        if a == b {
        } else if b == c {
        } else {
            lemma_text_lt_transitive(a, b, c);
            lemma_text_lt_asymmetric(a, c);
        }
    }
}

#[verifier::spinoff_prover]
#[verifier::rlimit(40)]
proof fn lemma_name_insert(sorted: Seq<ReplaySegment>, x: ReplaySegment)
    requires
        names_ascending(sorted),
    ensures
        0 <= name_position(sorted, x.name@) <= sorted.len(),
        names_ascending(sorted.insert(name_position(sorted, x.name@), x)),
{
    let p = name_position(sorted, x.name@);
    lemma_name_position(sorted, x.name@);
    let r = sorted.insert(p, x);
    sorted.insert_ensures(p, x);
    assert forall|i: int, j: int| 0 <= i < j < r.len() implies name_le(#[trigger] r[i].name@, #[trigger] r[j].name@) by {
        if j < p {
            assert(r[i] == sorted[i] && r[j] == sorted[j]);
        } else if j == p {
            assert(r[i] == sorted[i]);
            lemma_text_lt_asymmetric(sorted[i].name@, x.name@);
        } else if i < p {
            assert(r[i] == sorted[i] && r[j] == sorted[j - 1]);
            lemma_text_lt_asymmetric(sorted[i].name@, x.name@);
            if p < j - 1 {
                lemma_name_le_transitive(x.name@, sorted[p].name@, sorted[j - 1].name@);
            }
            lemma_name_le_transitive(sorted[i].name@, x.name@, sorted[j - 1].name@);
        } else if i == p {
            assert(r[j] == sorted[j - 1]);
            if p < j - 1 {
                lemma_name_le_transitive(x.name@, sorted[p].name@, sorted[j - 1].name@);
            }
        } else {
            assert(r[i] == sorted[i - 1] && r[j] == sorted[j - 1]);
        }
    }
}

#[verifier::spinoff_prover]
proof fn lemma_sort_by_name(s: Seq<ReplaySegment>)
    ensures
        names_ascending(sort_by_name(s)),
        sort_by_name(s).to_multiset() == s.to_multiset(),
    decreases s.len(),
{
    broadcast use vstd::seq_lib::group_to_multiset_ensures;

    if s.len() > 0 {
        let rest = sort_by_name(s.drop_first());
        lemma_sort_by_name(s.drop_first());
        lemma_name_insert(rest, s[0]);
        let p = name_position(rest, s[0].name@);
        vstd::seq_lib::to_multiset_insert(rest, p, s[0]);
        assert(s =~= seq![s[0]] + s.drop_first());
        vstd::seq_lib::lemma_multiset_commutative(seq![s[0]], s.drop_first());
        assert(seq![s[0]].to_multiset() =~= Multiset::empty().insert(s[0])) by {
            assert(seq![s[0]] =~= Seq::<ReplaySegment>::empty().push(s[0]));
        }
        assert(sort_by_name(s).to_multiset() =~= s.to_multiset());
    }
}

/// Replay visits the sealed and open segments of the spool, each once, in ascending name
/// order, and no other file.
#[verifier::spinoff_prover]
pub proof fn replay_visits_uncommitted_in_name_order(entries: Seq<ReplaySegment>)
    ensures
        names_ascending(spec_uncommitted_segments(entries)),
        spec_uncommitted_segments(entries).to_multiset() == entries.filter(
            |s: ReplaySegment| spec_is_uncommitted_name(s.name@),
        ).to_multiset(),
        forall|i: int|
            0 <= i < spec_uncommitted_segments(entries).len() ==> spec_is_uncommitted_name(
                #[trigger] spec_uncommitted_segments(entries)[i].name@,
            ),
{
    broadcast use vstd::seq_lib::group_to_multiset_ensures;

    let f = entries.filter(|s: ReplaySegment| spec_is_uncommitted_name(s.name@));
    lemma_sort_by_name(f);
    let out = spec_uncommitted_segments(entries);
    assert forall|i: int| 0 <= i < out.len() implies spec_is_uncommitted_name(
        #[trigger] out[i].name@,
    ) by {
        assert(out.to_multiset().count(out[i]) > 0);
        assert(f.contains(out[i]));
        let k = choose|k: int| 0 <= k < f.len() && f[k] == out[i];
        entries.lemma_filter_pred(|s: ReplaySegment| spec_is_uncommitted_name(s.name@), k);
    }
}

// ---------------------------------------------------------------- adaptive rules

/// A field of `a` holds the same value as in `b`.
pub open spec fn same_field(a: EventView, b: EventView, field: CanonicalField) -> bool {
    match field {
        CanonicalField::SrcIp => a.src_ip == b.src_ip,
        CanonicalField::SrcPort => a.src_port == b.src_port,
        CanonicalField::DstIp => a.dst_ip == b.dst_ip,
        CanonicalField::DstPort => a.dst_port == b.dst_port,
        CanonicalField::Protocol => a.protocol == b.protocol,
        CanonicalField::Action => a.action == b.action,
        CanonicalField::Severity => a.severity == b.severity,
    }
}

/// Adaptive rules only fill empty fields: a field that holds a value before the rules are
/// applied holds the same value afterwards, reclassification included.
pub proof fn adaptive_rules_never_overwrite(
    st: ApplyState,
    rules: Seq<AdaptiveRuleView>,
    scope_key: Seq<char>,
    raw: Seq<char>,
    field: CanonicalField,
)
    requires
        !spec_field_is_empty(st.event, field),
    ensures
        same_field(apply_rules(st, rules, scope_key, raw).event, st.event, field),
        same_field(applied_event(apply_rules(st, rules, scope_key, raw)), st.event, field),
    decreases rules.len(),
{
    if rules.len() > 0 {
        adaptive_rules_never_overwrite(st, rules.drop_last(), scope_key, raw, field);
        let mid = apply_rules(st, rules.drop_last(), scope_key, raw);
        assert(!spec_field_is_empty(mid.event, field));
    }
}

/// Rules that are not active, or belong to another scope, change nothing.
pub proof fn inactive_or_foreign_rules_have_no_effect(
    st: ApplyState,
    rules: Seq<AdaptiveRuleView>,
    scope_key: Seq<char>,
    raw: Seq<char>,
)
    requires
        forall|i: int|
            0 <= i < rules.len() ==> (#[trigger] rules[i]).status != AdaptiveRuleStatus::Active
                || rules[i].scope_key != scope_key,
    ensures
        apply_rules(st, rules, scope_key, raw) == st,
    decreases rules.len(),
{
    if rules.len() > 0 {
        inactive_or_foreign_rules_have_no_effect(st, rules.drop_last(), scope_key, raw);
        assert(rules.last() == rules[rules.len() - 1]);
    }
}

// ---------------------------------------------------------------- API access

/// Without a token, or with an empty one, every route is open; routes outside `/api/` are
/// always open; and a request that carries `Bearer <token>` is always let through.
pub proof fn api_token_guards_only_api_routes(
    api_token: Option<Seq<char>>,
    path: Seq<char>,
    authorization: Option<Seq<char>>,
)
    ensures
        (api_token is None || (api_token matches Some(t) && t.len() == 0)) ==> spec_request_authorized(
            api_token,
            path,
            authorization,
        ),
        !crate::text::seq_starts_with(path, "/api/"@) ==> spec_request_authorized(
            api_token,
            path,
            authorization,
        ),
        (api_token matches Some(t) && authorization == Some("Bearer "@ + t)) ==> spec_request_authorized(
            api_token,
            path,
            authorization,
        ),
{
}

/// A frozen archive path is accepted for restore only when its text begins with the frozen
/// directory's, and a path that does not begin so is always refused.
pub proof fn frozen_restore_stays_under_frozen_dir(frozen_dir: Seq<char>, path: Seq<char>)
    ensures
        spec_path_within(frozen_dir, path) ==> crate::text::seq_starts_with(path, frozen_dir),
        !crate::text::seq_starts_with(path, frozen_dir) ==> !spec_path_within(frozen_dir, path),
{
    if spec_path_within(frozen_dir, path) {
        if path == frozen_dir {
            assert(crate::text::seq_starts_with(path, frozen_dir)) by {
                assert(path.subrange(0, frozen_dir.len() as int) =~= frozen_dir);
            }
        } else if crate::text::seq_starts_with(path, frozen_dir + "/"@) {
            let d2 = frozen_dir + "/"@;
            assert(path.subrange(0, d2.len() as int) =~= d2);
            assert(path.subrange(0, frozen_dir.len() as int) =~= d2.subrange(0, frozen_dir.len() as int));
            assert(d2.subrange(0, frozen_dir.len() as int) =~= frozen_dir);
        }
    }
}

// ---------------------------------------------------------------- dual databases

/// Once a sync has copied `copied` and taken the newest of them as its cursor, the next sync,
/// which asks the write database for events whose id sorts after the cursor, asks for none of
/// the copied events again, as long as event ids never sort lower as ingest time grows.
pub proof fn next_sync_resends_nothing_copied(copied: Seq<EventView>, newest: int)
    requires
        is_newest(copied, newest),
        forall|a: int, b: int|
            0 <= a < copied.len() && 0 <= b < copied.len() && before(
                #[trigger] copied[a].ingest_time,
                #[trigger] copied[b].ingest_time,
            ) ==> !text_lt(copied[b].event_id, copied[a].event_id),
    ensures
        forall|j: int|
            0 <= j < copied.len() ==> !text_lt(copied[newest].event_id, #[trigger] copied[j].event_id),
{
    assert forall|j: int| 0 <= j < copied.len() implies !text_lt(
        copied[newest].event_id,
        #[trigger] copied[j].event_id,
    ) by {
        assert(!sync_before(copied[newest], copied[j]));
        if copied[j].ingest_time != copied[newest].ingest_time {
            assert(before(copied[j].ingest_time, copied[newest].ingest_time));
        }
    }
}

// ---------------------------------------------------------------- governor

/// The governor never ticks more often than once a minute.
pub proof fn governor_ticks_at_most_once_a_minute(config: GovernorConfig)
    ensures
        spec_schedule(config).tick_seconds >= 60,
        spec_schedule(config).archive_threshold >= 1,
        spec_schedule(config).lifecycle_threshold >= 1,
{
}

/// An enabled phase whose counter is below its threshold runs on exactly the tick that brings
/// the counter to the threshold, and its counter stays below the threshold; a disabled phase
/// never runs.
pub proof fn enabled_phase_runs_once_per_threshold(s: GovernorSchedule)
    requires
        s.archive_ticks < u64::MAX,
        s.lifecycle_ticks < u64::MAX,
    ensures
        s.archive_enabled && s.archive_ticks < s.archive_threshold ==> {
            &&& spec_tick(s).1.run_archive == (s.archive_ticks + 1 == s.archive_threshold)
            &&& spec_tick(s).0.archive_ticks < s.archive_threshold
        },
        s.lifecycle_enabled && s.lifecycle_ticks < s.lifecycle_threshold ==> {
            &&& spec_tick(s).1.run_lifecycle == (s.lifecycle_ticks + 1 == s.lifecycle_threshold)
            &&& spec_tick(s).0.lifecycle_ticks < s.lifecycle_threshold
        },
        !s.archive_enabled ==> !spec_tick(s).1.run_archive,
        !s.lifecycle_enabled ==> !spec_tick(s).1.run_lifecycle,
{
}

pub open spec fn pow10(w: nat) -> nat
    decreases w,
{
    if w == 0 {
        1
    } else {
        10 * pow10((w - 1) as nat)
    }
}

proof fn lemma_padded_len(n: nat, w: nat)
    ensures
        padded_digits(n, w).len() == w,
    decreases w,
{
    if w > 0 {
        lemma_padded_len(n / 10, (w - 1) as nat);
    }
}

proof fn lemma_text_lt_push(x: Seq<char>, y: Seq<char>, a: char, b: char)
    requires
        x.len() == y.len(),
        text_lt(x, y) || (x == y && (a as u32) < (b as u32)),
    ensures
        text_lt(x.push(a), y.push(b)),
    decreases x.len(),
{
    if x.len() == 0 {
        assert(x.push(a) =~= seq![a]);
        assert(y.push(b) =~= seq![b]);
        assert(x.push(a).drop_first() =~= Seq::<char>::empty());
        assert(y.push(b).drop_first() =~= Seq::<char>::empty());
    } else {
        assert(x.push(a).drop_first() =~= x.drop_first().push(a));
        assert(y.push(b).drop_first() =~= y.drop_first().push(b));
        if x[0] == y[0] {
            if x == y {
                lemma_text_lt_push(x.drop_first(), y.drop_first(), a, b);
            } else {
                lemma_text_lt_push(x.drop_first(), y.drop_first(), a, b);
            }
        }
    }
}

proof fn lemma_padded_order(a: nat, b: nat, w: nat)
    requires
        a < b < pow10(w),
    ensures
        text_lt(padded_digits(a, w), padded_digits(b, w)),
    decreases w,
{
    let p = pow10((w - 1) as nat);
    assert(w > 0);
    assert(b / 10 < p) by (nonlinear_arith)
        requires
            b < 10 * p,
    ;
    assert(a / 10 <= b / 10) by (nonlinear_arith)
        requires
            a < b,
    ;
    lemma_padded_len(a / 10, (w - 1) as nat);
    lemma_padded_len(b / 10, (w - 1) as nat);
    if a / 10 < b / 10 {
        lemma_padded_order(a / 10, b / 10, (w - 1) as nat);
        lemma_text_lt_push(padded_digits(a / 10, (w - 1) as nat), padded_digits(b / 10, (w - 1) as nat), digit_char(a), digit_char(b));
    } else {
        assert(a % 10 < b % 10) by (nonlinear_arith)
            requires
                a / 10 == b / 10,
                a < b,
        ;
        lemma_text_lt_push(padded_digits(a / 10, (w - 1) as nat), padded_digits(b / 10, (w - 1) as nat), digit_char(a), digit_char(b));
    }
}

proof fn lemma_text_lt_common_prefix(pre: Seq<char>, x: Seq<char>, y: Seq<char>)
    ensures
        text_lt(pre + x, pre + y) == text_lt(x, y),
    decreases pre.len(),
{
    if pre.len() > 0 {
        assert((pre + x).drop_first() =~= pre.drop_first() + x);
        assert((pre + y).drop_first() =~= pre.drop_first() + y);
        lemma_text_lt_common_prefix(pre.drop_first(), x, y);
    } else {
        assert(pre + x =~= x);
        assert(pre + y =~= y);
    }
}

/// Archives stamped at the same time with sequence numbers `a < b` below a million get
/// stamps in the same order, so that archive names sort by creation.
pub proof fn archive_stamps_follow_sequence(now: Timestamp, a: u64, b: u64)
    requires
        a < b < 1_000_000,
        spec_archive_stamp(now, a) is Some,
    ensures
        spec_archive_stamp(now, b) is Some,
        text_lt(spec_archive_stamp(now, a)->0, spec_archive_stamp(now, b)->0),
{
    assert(pow10(6) == 1_000_000) by {
        reveal_with_fuel(pow10, 7);
    }
    assert(a % 1_000_000 == a);
    assert(b % 1_000_000 == b);
    lemma_padded_order(a as nat, b as nat, 6);
    let t = crate::calendar::spec_utc_stamp_text(now.secs, now.nanos)->0;
    lemma_text_lt_common_prefix(t + "-"@, padded_digits(a as nat, 6), padded_digits(b as nat, 6));
    assert(t + "-"@ + padded_digits(a as nat, 6) == (t + "-"@) + padded_digits(a as nat, 6));
}

// ---------------------------------------------------------------- hybrid storage

/// Without a remote store every query is served by the local database, whatever its time
/// range; so is every query with no start date and no day.
pub proof fn queries_stay_local_without_remote(
    start_time: Timestamp,
    threshold: Timestamp,
    date_from: Option<Seq<char>>,
    day: Option<Seq<char>>,
    today: Seq<char>,
    remote_enabled: bool,
)
    ensures
        spec_route_query(start_time, threshold, false) == QueryTarget::Local,
        spec_query_target(date_from, day, today, threshold, false, remote_enabled) == QueryTarget::Local,
        spec_query_target(None, None, today, threshold, true, remote_enabled) == QueryTarget::Local,
{
}

// ---------------------------------------------------------------- archive listing

#[verifier::spinoff_prover]
proof fn lemma_sort_by_path_permutes(s: Seq<(Seq<char>, u64)>)
    ensures
        sort_by_path(s).to_multiset() == s.to_multiset(),
        sort_by_path(s).len() == s.len(),
    decreases s.len(),
{
    broadcast use vstd::seq_lib::group_to_multiset_ensures;

    if s.len() > 0 {
        let rest = sort_by_path(s.drop_first());
        lemma_sort_by_path_permutes(s.drop_first());
        let p = path_position(rest, s[0].0);
        assert(0 <= p <= rest.len()) by {
            if exists|i: int| 0 <= i < rest.len() && !crate::paths::spec_path_lt(rest[i].0, s[0].0) {
                let w = choose|i: int| 0 <= i < rest.len() && !crate::paths::spec_path_lt(rest[i].0, s[0].0);
                let m = lemma_first_path_not_less(rest, s[0].0, w);
                assert(0 <= m < rest.len() && !crate::paths::spec_path_lt(rest[m].0, s[0].0) && forall|j: int|
                    0 <= j < m ==> crate::paths::spec_path_lt(rest[j].0, s[0].0));
            }
        }
        vstd::seq_lib::to_multiset_insert(rest, p, s[0]);
        assert(s =~= seq![s[0]] + s.drop_first());
        vstd::seq_lib::lemma_multiset_commutative(seq![s[0]], s.drop_first());
        assert(seq![s[0]].to_multiset() =~= Multiset::empty().insert(s[0])) by {
            assert(seq![s[0]] =~= Seq::<(Seq<char>, u64)>::empty().push(s[0]));
        }
        assert(sort_by_path(s).to_multiset() =~= s.to_multiset());
    }
}

proof fn lemma_first_path_not_less(sorted: Seq<(Seq<char>, u64)>, path: Seq<char>, w: int) -> (m: int)
    requires
        0 <= w < sorted.len(),
        !crate::paths::spec_path_lt(sorted[w].0, path),
    ensures
        0 <= m <= w,
        !crate::paths::spec_path_lt(sorted[m].0, path),
        forall|j: int| 0 <= j < m ==> crate::paths::spec_path_lt(#[trigger] sorted[j].0, path),
    decreases w,
{
    if exists|j: int| 0 <= j < w && !crate::paths::spec_path_lt(sorted[j].0, path) {
        let j = choose|j: int| 0 <= j < w && !crate::paths::spec_path_lt(sorted[j].0, path);
        lemma_first_path_not_less(sorted, path, j)
    } else {
        w
    }
}

/// Listing the Parquet archives of a directory tree gives every Parquet file found, each
/// once, and nothing else; likewise for frozen archives.
#[verifier::spinoff_prover]
pub proof fn archive_listings_keep_exactly_the_archives(files: Seq<(Seq<char>, u64)>)
    ensures
        spec_list_archive_files(files).to_multiset() == files.filter(
            |f: (Seq<char>, u64)| spec_is_parquet_file(f.0),
        ).to_multiset(),
        forall|i: int|
            0 <= i < spec_list_archive_files(files).len() ==> spec_is_parquet_file(
                (#[trigger] spec_list_archive_files(files)[i]).0,
            ),
        spec_list_frozen_files(files).to_multiset() == files.filter(
            |f: (Seq<char>, u64)| spec_is_frozen_archive(f.0),
        ).to_multiset(),
        forall|i: int|
            0 <= i < spec_list_frozen_files(files).len() ==> spec_is_frozen_archive(
                (#[trigger] spec_list_frozen_files(files)[i]).0,
            ),
{
    broadcast use vstd::seq_lib::group_to_multiset_ensures;

    let pa = |f: (Seq<char>, u64)| spec_is_parquet_file(f.0);
    let pf = |f: (Seq<char>, u64)| spec_is_frozen_archive(f.0);
    let fa = files.filter(pa);
    let ff = files.filter(pf);
    lemma_sort_by_path_permutes(fa);
    lemma_sort_by_path_permutes(ff);
    let oa = spec_list_archive_files(files);
    let of = spec_list_frozen_files(files);
    assert forall|i: int| 0 <= i < oa.len() implies spec_is_parquet_file((#[trigger] oa[i]).0) by {
        assert(oa.to_multiset().count(oa[i]) > 0);
        assert(fa.contains(oa[i]));
        let k = choose|k: int| 0 <= k < fa.len() && fa[k] == oa[i];
        files.lemma_filter_pred(pa, k);
    }
    assert forall|i: int| 0 <= i < of.len() implies spec_is_frozen_archive((#[trigger] of[i]).0) by {
        assert(of.to_multiset().count(of[i]) > 0);
        assert(ff.contains(of[i]));
        let k = choose|k: int| 0 <= k < ff.len() && ff[k] == of[i];
        files.lemma_filter_pred(pf, k);
    }
}

// ---------------------------------------------------------------- parser engine

/// A line no parser takes fails with a reason that starts `no parser matched; attempted [`;
/// a line some parser parses completely gets that parser's event, is attributed to it, has
/// no failure reason, and is left alone by the adaptive rules.
pub proof fn engine_attributes_or_explains(
    slots: Seq<AdapterSlot>,
    rules: Seq<ParseRule>,
    groups: Seq<Seq<Seq<char>>>,
    pins: Map<Seq<char>, Seq<Seq<char>>>,
    adaptive: Seq<AdaptiveRuleView>,
    raw: Seq<char>,
    t: Timestamp,
    src: Seq<char>,
)
    ensures
        ({
            let o = engine_outcome(slots, rules, groups, pins, adaptive, raw, t, src);
            o.matched_parser_id is None ==> (o.failure_reason matches Some(m)
                && crate::text::seq_starts_with(m, "no parser matched; attempted ["@))
        }),
        ({
            let o = engine_outcome(slots, rules, groups, pins, adaptive, raw, t, src);
            engine_scan(slots, rules, groups, pins, raw, t, src).done matches Some((e, id)) ==> {
                &&& o.event == e
                &&& o.matched_parser_id == Some(id)
                &&& o.failure_reason is None
                &&& o.rules.applied == 0
            }
        }),
{
    let o = engine_outcome(slots, rules, groups, pins, adaptive, raw, t, src);
    if o.matched_parser_id is None {
        let m = o.failure_reason->0;
        let pre = "no parser matched; attempted ["@;
        assert(m.subrange(0, pre.len() as int) =~= pre);
    }
}

proof fn lemma_first_fallback(ids: Seq<Seq<char>>)
    ensures
        0 <= first_fallback(ids) <= ids.len(),
        forall|j: int| 0 <= j < first_fallback(ids) ==> !is_fallback_id(#[trigger] ids[j]),
    decreases ids.len(),
{
    if ids.len() > 0 && !is_fallback_id(ids[0]) {
        lemma_first_fallback(ids.drop_first());
        assert forall|j: int| 0 <= j < first_fallback(ids) implies !is_fallback_id(#[trigger] ids[j]) by {
            if j > 0 {
                assert(ids[j] == ids.drop_first()[j - 1]);
            }
        }
    }
}

/// A parser registered on the default route goes before the generic and rule parsers: in
/// the route it makes, every fallback parser comes after it.
pub proof fn registered_parser_precedes_fallbacks(ids: Seq<Seq<char>>, id: Seq<char>)
    requires
        !is_fallback_id(id),
        !ids.contains(id),
    ensures
        ({
            let r = spec_insert_before_fallback(ids, id);
            let p = first_fallback(ids);
            &&& r[p] == id
            &&& forall|j: int| 0 <= j < r.len() && is_fallback_id(#[trigger] r[j]) ==> p < j
        }),
{
    lemma_first_fallback(ids);
    let p = first_fallback(ids);
    let r = spec_insert_before_fallback(ids, id);
    ids.insert_ensures(p, id);
    assert forall|j: int| 0 <= j < r.len() && is_fallback_id(#[trigger] r[j]) implies p < j by {
        if j < p {
            assert(r[j] == ids[j]);
        }
    }
}

// ---------------------------------------------------------------- hourly metrics

/// Hours in strictly ascending order.
pub open spec fn hours_ascending(rows: Seq<HourRow>) -> bool {
    forall|i: int, j: int| 0 <= i < j < rows.len() ==> text_lt(rows[i].0, rows[j].0)
}

/// The sum of count `k` over the rows.
pub open spec fn row_sum(rows: Seq<HourRow>, k: int) -> int
    decreases rows.len(),
{
    if rows.len() == 0 {
        0
    } else {
        row_sum(rows.drop_last(), k) + row_count(rows.last(), k)
    }
}

proof fn lemma_row_sum_append(a: Seq<HourRow>, b: Seq<HourRow>, k: int)
    ensures
        row_sum(a + b, k) == row_sum(a, k) + row_sum(b, k),
    decreases b.len(),
{
    if b.len() == 0 {
        assert(a + b =~= a);
    } else {
        lemma_row_sum_append(a, b.drop_last(), k);
        assert((a + b).drop_last() =~= a + b.drop_last());
    }
}

proof fn lemma_row_sum_single(x: HourRow, k: int)
    ensures
        row_sum(seq![x], k) == row_count(x, k),
{
    assert(seq![x].drop_last() =~= Seq::<HourRow>::empty());
    assert(row_sum(Seq::<HourRow>::empty(), k) == 0);
    assert(seq![x].last() == x);
}

proof fn lemma_row_sum_update(rows: Seq<HourRow>, i: int, x: HourRow, k: int)
    requires
        0 <= i < rows.len(),
    ensures
        row_sum(rows.update(i, x), k) == row_sum(rows, k) - row_count(rows[i], k) + row_count(x, k),
{
    let a = rows.take(i);
    let b = rows.skip(i + 1);
    assert(rows =~= a + seq![rows[i]] + b);
    assert(rows.update(i, x) =~= a + seq![x] + b);
    lemma_row_sum_append(a + seq![rows[i]], b, k);
    lemma_row_sum_append(a, seq![rows[i]], k);
    lemma_row_sum_append(a + seq![x], b, k);
    lemma_row_sum_append(a, seq![x], k);
    lemma_row_sum_single(rows[i], k);
    lemma_row_sum_single(x, k);
}

proof fn lemma_row_sum_insert(rows: Seq<HourRow>, i: int, x: HourRow, k: int)
    requires
        0 <= i <= rows.len(),
    ensures
        row_sum(rows.insert(i, x), k) == row_sum(rows, k) + row_count(x, k),
{
    let a = rows.take(i);
    let b = rows.skip(i);
    assert(rows =~= a + b);
    assert(rows.insert(i, x) =~= a + seq![x] + b);
    lemma_row_sum_append(a + seq![x], b, k);
    lemma_row_sum_append(a, seq![x], k);
    lemma_row_sum_append(a, b, k);
    lemma_row_sum_single(x, k);
}

proof fn lemma_add_point_sums(rows: Seq<HourRow>, p: MinuteMetricPoint, k: int)
    ensures
        row_sum(add_point(rows, p), k) == row_sum(rows, k) + point_count(p, k),
{
    let key = hour_of(p.bucket_minute@);
    lemma_key_index(rows, key);
    match key_index(rows, key) {
        Some(i) => {
            let x = add_point(rows, p)[i];
            lemma_row_sum_update(rows, i, x, k);
        },
        None => {
            lemma_key_position(rows, key);
            let pos = key_position(rows, key);
            let x = (key, p.total as int, p.parsed as int, p.partial as int, p.failed as int, p.raw_bytes as int);
            lemma_row_sum_insert(rows, pos, x, k);
        },
    }
}

#[verifier::spinoff_prover]
proof fn lemma_insert_hour_ordered(rows: Seq<HourRow>, x: HourRow)
    requires
        hours_ascending(rows),
        forall|j: int| 0 <= j < rows.len() ==> rows[j].0 != x.0,
    ensures
        hours_ascending(rows.insert(key_position(rows, x.0), x)),
{
    let key = x.0;
    lemma_key_position(rows, key);
    let pos = key_position(rows, key);
    let r = rows.insert(pos, x);
    rows.insert_ensures(pos, x);
    assert forall|a: int, b: int| 0 <= a < b < r.len() implies text_lt(r[a].0, r[b].0) by {
        if b < pos {
            assert(r[a] == rows[a] && r[b] == rows[b]);
        } else if b == pos {
            assert(r[a] == rows[a]);
        } else if a < pos {
            assert(r[a] == rows[a] && r[b] == rows[b - 1]);
            lemma_text_lt_total(rows[pos].0, key);
            if pos < b - 1 {
                lemma_text_lt_transitive(key, rows[pos].0, rows[b - 1].0);
            }
            lemma_text_lt_transitive(rows[a].0, key, rows[b - 1].0);
        } else if a == pos {
            assert(r[b] == rows[b - 1]);
            lemma_text_lt_total(rows[pos].0, key);
            if pos < b - 1 {
                lemma_text_lt_transitive(key, rows[pos].0, rows[b - 1].0);
            }
        } else {
            assert(r[a] == rows[a - 1] && r[b] == rows[b - 1]);
        }
    }
}

proof fn lemma_add_point_ordered(rows: Seq<HourRow>, p: MinuteMetricPoint)
    requires
        hours_ascending(rows),
    ensures
        hours_ascending(add_point(rows, p)),
{
    let key = hour_of(p.bucket_minute@);
    lemma_key_index(rows, key);
    match key_index(rows, key) {
        Some(i) => {
            let r = add_point(rows, p);
            assert forall|a: int, b: int| 0 <= a < b < r.len() implies text_lt(r[a].0, r[b].0) by {
                assert(r[a].0 == rows[a].0);
                assert(r[b].0 == rows[b].0);
            }
        },
        None => {
            let x = (key, p.total as int, p.parsed as int, p.partial as int, p.failed as int, p.raw_bytes as int);
            lemma_insert_hour_ordered(rows, x);
        },
    }
}

/// Rolling minute points up into hours gives one row per hour in ascending order, and every
/// count summed over the hours equals the count summed over the points.
#[verifier::spinoff_prover]
pub proof fn hourly_rollup_is_ordered_and_conserves_counts(points: Seq<MinuteMetricPoint>)
    ensures
        hours_ascending(hour_rollup(points)),
        forall|k: int| row_sum(hour_rollup(points), k) == count_sum(points, k),
    decreases points.len(),
{
    if points.len() > 0 {
        hourly_rollup_is_ordered_and_conserves_counts(points.drop_last());
        lemma_add_point_ordered(hour_rollup(points.drop_last()), points.last());
        let prev = hour_rollup(points.drop_last());
        assert(hour_rollup(points) == add_point(prev, points.last()));
        assert forall|k: int| row_sum(hour_rollup(points), k) == count_sum(points, k) by {
            lemma_add_point_sums(prev, points.last(), k);
            assert(row_sum(prev, k) == count_sum(points.drop_last(), k));
            assert(count_sum(points, k) == count_sum(points.drop_last(), k) + point_count(points.last(), k));
        }
    } else {
        assert forall|k: int| row_sum(hour_rollup(points), k) == count_sum(points, k) by {
            assert(hour_rollup(points) =~= Seq::<HourRow>::empty());
        }
    }
}

// ---------------------------------------------------------------- custom IP regions

/// The custom region that answers for an address is the first one that is enabled, not
/// deleted and whose network holds the address: no earlier region applies, and disabled or
/// deleted regions never answer.
#[verifier::spinoff_prover]
#[verifier::rlimit(40)]
pub proof fn custom_region_answers_are_first_applicable(regions: Seq<RegionView>, ip: Seq<char>)
    ensures
        first_region_match(regions, ip) matches Some(i) ==> {
            &&& 0 <= i < regions.len()
            &&& regions[i].enabled && !regions[i].deleted
            &&& crate::api::spec_custom_region_matches(ip, regions[i].cidr)
            &&& forall|j: int| 0 <= j < i ==> !region_applies(#[trigger] regions[j], ip)
        },
        first_region_match(regions, ip) is None ==> forall|j: int|
            0 <= j < regions.len() ==> !region_applies(#[trigger] regions[j], ip),
    decreases regions.len(),
{
    reveal(region_applies);
    if regions.len() > 0 {
        custom_region_answers_are_first_applicable(regions.drop_first(), ip);
        assert forall|j: int| 0 < j < regions.len() implies regions[j] == regions.drop_first()[j - 1] by {}
    }
}

// ---------------------------------------------------------------- date ranges

proof fn lemma_steps_to(start: (int, int, int), end: (int, int, int), k: nat, limit: nat)
    ensures
        steps_to(start, end, k, limit) matches Some(n) ==> k <= n < limit && day_after(start, n) == end,
    decreases limit - k,
{
    if k < limit && day_after(start, k) != end {
        lemma_steps_to(start, end, k + 1, limit);
    }
}

/// The days of a search's date range run from its first day to its last, one day after
/// another, and there are at most 366 of them.
pub proof fn date_range_days_run_from_start_to_end(date_from: Option<Seq<char>>, date_to: Option<Seq<char>>)
    ensures
        spec_query_date_days(date_from, date_to) matches Ok(Some(days)) ==> {
            &&& 1 <= days.len() <= 366
            &&& days[0] == day_text(opt_day(date_from)->0)
            &&& days.last() == day_text(opt_day(date_to)->0)
            &&& forall|i: int| 0 <= i < days.len() ==> #[trigger] days[i] == day_text(
                day_after(opt_day(date_from)->0, i as nat),
            )
        },
{
    if let (Some(start), Some(end)) = (opt_day(date_from), opt_day(date_to)) {
        lemma_steps_to(start, end, 0, 366);
    }
}

// ---------------------------------------------------------------- export jobs

/// The jobs after registering `job`: it replaces the job with its id, or joins the list.
pub open spec fn registered(jobs: Seq<ExportJobView>, job: ExportJobView) -> Seq<ExportJobView> {
    match job_index(jobs, job.job_id) {
        Some(i) => jobs.update(i, job),
        None => jobs.push(job),
    }
}

pub open spec fn job_ids_unique(jobs: Seq<ExportJobView>) -> bool {
    forall|i: int, j: int| 0 <= i < j < jobs.len() ==> jobs[i].job_id != jobs[j].job_id
}

proof fn lemma_job_index_first(jobs: Seq<ExportJobView>, id: Seq<char>, k: int)
    requires
        0 <= k < jobs.len(),
        jobs[k].job_id == id,
        forall|j: int| 0 <= j < k ==> jobs[j].job_id != id,
    ensures
        job_index(jobs, id) == Some(k),
    decreases k,
{
    if k > 0 {
        lemma_job_index_first(jobs.drop_first(), id, k - 1);
    }
}

proof fn lemma_job_index_before(jobs: Seq<ExportJobView>, id: Seq<char>)
    ensures
        job_index(jobs, id) matches Some(i) ==> forall|j: int| 0 <= j < i ==> #[trigger] jobs[j].job_id != id,
    decreases jobs.len(),
{
    lemma_job_index(jobs, id);
    if jobs.len() > 0 && jobs[0].job_id != id {
        lemma_job_index_before(jobs.drop_first(), id);
        if let Some(i) = job_index(jobs, id) {
            assert forall|j: int| 0 <= j < i implies #[trigger] jobs[j].job_id != id by {
                if j > 0 {
                    assert(jobs[j] == jobs.drop_first()[j - 1]);
                }
            }
        }
    }
}

/// A registered job is found again under its id, as it was registered, and registering keeps
/// every id on one job only.
#[verifier::spinoff_prover]
pub proof fn registered_export_job_is_read_back(jobs: Seq<ExportJobView>, job: ExportJobView)
    ensures
        ({
            let after = registered(jobs, job);
            job_index(after, job.job_id) matches Some(k) && after[k] == job
        }),
        job_ids_unique(jobs) ==> job_ids_unique(registered(jobs, job)),
{
    lemma_job_index(jobs, job.job_id);
    let after = registered(jobs, job);
    match job_index(jobs, job.job_id) {
        Some(i) => {
            lemma_job_index_before(jobs, job.job_id);
            assert forall|j: int| 0 <= j < i implies after[j].job_id != job.job_id by {
                assert(after[j] == jobs[j]);
            }
            lemma_job_index_first(after, job.job_id, i);
        },
        None => {
            lemma_job_index_first(after, job.job_id, jobs.len() as int);
        },
    }
}


// ---------------------------------------------------------------- column store rows

/// An optional text that the column store keeps apart from absence: absent, or not empty.
pub open spec fn storable_text(o: Option<Seq<char>>) -> bool {
    match o {
        Some(s) => s.len() > 0,
        None => true,
    }
}

/// An optional port that the column store keeps apart from absence: absent, or not zero.
pub open spec fn storable_port(p: Option<u16>) -> bool {
    match p {
        Some(v) => v != 0,
        None => true,
    }
}

/// An event whose every field survives the column store: it has an event time, no optional
/// text is empty and no port is zero.
pub open spec fn storable_event(e: EventView) -> bool {
    &&& e.event_time is Some
    &&& storable_text(e.device_id)
    &&& storable_text(e.vendor)
    &&& storable_text(e.product)
    &&& storable_text(e.src_ip)
    &&& storable_port(e.src_port)
    &&& storable_text(e.dst_ip)
    &&& storable_port(e.dst_port)
    &&& storable_text(e.protocol)
    &&& storable_text(e.action)
    &&& storable_text(e.severity)
    &&& storable_text(e.parse_error)
}

proof fn lemma_text_round_trip(o: Option<Seq<char>>)
    requires
        storable_text(o),
    ensures
        non_empty(or_empty(o)) == o,
{
}

/// An event written as a column store row and read back is the same event, when it has an
/// event time, no empty optional text and no zero port.
pub proof fn column_store_row_round_trips(e: EventView, row: ClickHouseEvent)
    requires
        clickhouse_view(row) == spec_clickhouse_row(e),
        storable_event(e),
    ensures
        spec_event_from_clickhouse(row) == e,
{
    status_name_round_trip(e.parse_status);
    lemma_text_round_trip(e.device_id);
    lemma_text_round_trip(e.vendor);
    lemma_text_round_trip(e.product);
    lemma_text_round_trip(e.src_ip);
    lemma_text_round_trip(e.dst_ip);
    lemma_text_round_trip(e.protocol);
    lemma_text_round_trip(e.action);
    lemma_text_round_trip(e.severity);
    lemma_text_round_trip(e.parse_error);
}


// ---------------------------------------------------------------- custom region upserts

/// After a region is added, it is the last region and the only one of its network; every
/// other region of the list before stays, in its order.
pub proof fn upserted_region_is_the_only_one_of_its_network(rules: Seq<RegionView>, rule: RegionView)
    ensures
        ({
            let after = spec_upsert_region(rules, rule);
            &&& after.last() == rule
            &&& forall|i: int| 0 <= i < after.len() - 1 ==> #[trigger] after[i].cidr != rule.cidr
            &&& forall|i: int| 0 <= i < after.len() - 1 ==> rules.contains(#[trigger] after[i])
            &&& forall|j: int| 0 <= j < rules.len() && rules[j].cidr != rule.cidr ==> after.contains(#[trigger] rules[j])
        }),
{
    let pred = |r: RegionView| r.cidr != rule.cidr;
    let kept = rules.filter(pred);
    let after = spec_upsert_region(rules, rule);
    assert(after == kept.push(rule));
    assert forall|i: int| 0 <= i < after.len() - 1 implies #[trigger] after[i].cidr != rule.cidr && rules.contains(
        after[i],
    ) by {
        assert(after[i] == kept[i]);
        rules.lemma_filter_pred(pred, i);
        assert(kept.contains(kept[i]));
        rules.lemma_filter_contains_rev(pred, kept[i]);
    }
    assert forall|j: int| 0 <= j < rules.len() && rules[j].cidr != rule.cidr implies after.contains(#[trigger] rules[j]) by {
        rules.lemma_filter_contains(pred, j);
        let k = choose|k: int| 0 <= k < kept.len() && kept[k] == rules[j];
        assert(after[k] == rules[j]);
    }
}

} // verus!
