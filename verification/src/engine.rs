//! The parser engine: tries the parsers a source's route names, in order, keeps the first
//! partial result, and lets adaptive rules complete what the parsers left open.
use vstd::prelude::*;
use crate::event::{CanonicalEvent, EventView, ParseStatus, RawLog, Timestamp, failed_view, ov};
use crate::diagnostics::{ParseDiagnosticsBuffer, ParseResult, rule_ids};
use crate::generic::{GenericKvParser, GENERIC_KV_PATTERN, spec_generic_parse};
use crate::learn::{
    AdaptiveRuleSnapshot, AdaptiveRuleView, ApplyState, apply_active_rules, apply_rules,
    apply_start, applied_event,
};
use crate::regex_support::spec_regex_captures;
use crate::route::{
    RouteSnapshot, GENERIC_KV_PARSER_ID, RULE_BASED_PARSER_ID, spec_insert_before_fallback,
    spec_route, strs,
};
use crate::rule::{ParseRule, RuleBasedParser, spec_rule_parse, spec_from_rules};
use crate::sangfor::{LogAdapter, SangforAdapter};
use crate::scope::{ScopeNormalizationMode, normalize_source_scope, spec_scope};
use crate::text::{concat, owned, str_eq};

verus! {

/// An adapter a user registered, with the name and parser id it gave when registered.
pub struct CustomAdapter {
    pub adapter: Box<dyn LogAdapter>,
    pub name: &'static str,
    pub parser_id: &'static str,
}

/// One adapter the engine holds: the library's Sangfor adapter, or one a user registered.
pub enum AdapterSlot {
    Sangfor(SangforAdapter),
    Custom(CustomAdapter),
}

impl AdapterSlot {
    /// The slot's display name.
    pub open spec fn spec_name(self) -> Seq<char> {
        match self {
            AdapterSlot::Sangfor(a) => a.spec_name(),
            AdapterSlot::Custom(c) => c.name@,
        }
    }

    /// The parser id routes refer to.
    pub open spec fn spec_parser_id(self) -> Seq<char> {
        match self {
            AdapterSlot::Sangfor(a) => a.spec_parser_id(),
            AdapterSlot::Custom(c) => c.parser_id@,
        }
    }

    /// Whether the slot's adapter claims a line.
    pub open spec fn spec_can_parse(self, raw: Seq<char>) -> bool {
        match self {
            AdapterSlot::Sangfor(a) => a.spec_can_parse(raw),
            AdapterSlot::Custom(c) => c.adapter.spec_can_parse(raw),
        }
    }

    /// The event the slot's adapter makes of a line.
    pub open spec fn spec_parse(self, raw: Seq<char>, t: Timestamp, src: Seq<char>) -> EventView {
        match self {
            AdapterSlot::Sangfor(a) => a.spec_parse(raw, t, src),
            AdapterSlot::Custom(c) => c.adapter.spec_parse(raw, t, src),
        }
    }

    fn name(&self) -> (r: &'static str)
        ensures
            r@ == self.spec_name(),
    {
        match self {
            AdapterSlot::Sangfor(a) => a.name(),
            AdapterSlot::Custom(c) => c.name,
        }
    }

    fn parser_id(&self) -> (r: &'static str)
        ensures
            r@ == self.spec_parser_id(),
    {
        match self {
            AdapterSlot::Sangfor(a) => a.parser_id(),
            AdapterSlot::Custom(c) => c.parser_id,
        }
    }

    fn detect(&self, raw: &RawLog) -> (r: crate::diagnostics::DetectOutcome)
        ensures
            (r.score == crate::diagnostics::DetectScore::CompatibilityMatch) == self.spec_can_parse(raw.raw@),
            r.reason@ == (if self.spec_can_parse(raw.raw@) {
                "compatibility can_parse matched"@
            } else {
                "compatibility can_parse did not match"@
            }),
    {
        match self {
            AdapterSlot::Sangfor(a) => a.detect(raw),
            AdapterSlot::Custom(c) => c.adapter.detect(raw),
        }
    }

    fn parse(&self, raw: RawLog) -> (e: CanonicalEvent)
        ensures
            e@ == self.spec_parse(raw.raw@, raw.ingest_time, raw.source_addr@),
    {
        match self {
            AdapterSlot::Sangfor(a) => a.parse(raw),
            AdapterSlot::Custom(c) => c.adapter.parse(raw),
        }
    }
}

/// Boxes a user's adapter for the engine, keeping the name and parser id it gives.
fn adapter_slot<A: LogAdapter + 'static>(adapter: A) -> (r: AdapterSlot)
    ensures
        r is Custom,
        r.spec_name() == adapter.spec_name(),
        r.spec_parser_id() == adapter.spec_parser_id(),
{
    let name = adapter.name();
    let parser_id = adapter.parser_id();
    AdapterSlot::Custom(CustomAdapter { adapter: Box::new(adapter), name, parser_id })
}

/// The three parser layers and the route and adaptive rules that drive them.
pub struct ParserEngine {
    known_adapters: Vec<AdapterSlot>,
    generic: GenericKvParser,
    rules: RuleBasedParser,
    route_snapshot: RouteSnapshot,
    adaptive_snapshot: AdaptiveRuleSnapshot,
}

/// The default groups with every adapter id placed before the generic fallback, in order.
pub open spec fn register_ids(groups: Seq<Seq<Seq<char>>>, ids: Seq<Seq<char>>) -> Seq<Seq<Seq<char>>>
    decreases ids.len(),
{
    if ids.len() == 0 {
        groups
    } else {
        let g = register_ids(groups, ids.drop_last());
        if g.len() == 0 {
            g
        } else {
            g.update(0, spec_insert_before_fallback(g[0], ids.last()))
        }
    }
}

/// The parser ids of the adapters.
pub open spec fn slot_ids(a: Seq<AdapterSlot>) -> Seq<Seq<char>> {
    a.map_values(|s: AdapterSlot| s.spec_parser_id())
}

/// What a parse attempt records: parser id, parser name, why it was tried, status, error.
pub type AttemptRecord = (Seq<char>, Seq<char>, Seq<char>, Seq<char>, Option<Seq<char>>);

/// Where the scan of the route stands.
pub struct ScanState {
    pub attempts: Seq<AttemptRecord>,
    pub tried: Seq<Seq<char>>,
    pub best: Option<(EventView, Seq<char>)>,
    pub matched_any: bool,
    pub done: Option<(EventView, Seq<char>)>,
}

pub open spec fn error_or(e: Option<Seq<char>>, fallback: Seq<char>) -> Seq<char> {
    match e {
        Some(m) => m,
        None => fallback,
    }
}

/// A parser's event recorded: a parsed event ends the scan; the first partial one is kept;
/// anything else joins the list of what was tried.
pub open spec fn record_attempt(
    st: ScanState,
    id: Seq<char>,
    name: Seq<char>,
    reason: Seq<char>,
    e: EventView,
    fallback: Seq<char>,
) -> ScanState {
    let st1 = ScanState {
        attempts: st.attempts.push((id, name, reason, e.parse_status.spec_name(), e.parse_error)),
        ..st
    };
    if e.parse_status == ParseStatus::Parsed {
        ScanState { done: Some((e, id)), ..st1 }
    } else {
        ScanState {
            best: if e.parse_status == ParseStatus::Partial && st.best is None {
                Some((e, id))
            } else {
                st.best
            },
            tried: st.tried.push(name + ": "@ + error_or(e.parse_error, fallback)),
            ..st1
        }
    }
}

/// One adapter on the route entry `id`: tried when its id is `id` and it claims the line.
pub open spec fn adapter_on_route(
    st: ScanState,
    slot: AdapterSlot,
    id: Seq<char>,
    raw: Seq<char>,
    t: Timestamp,
    src: Seq<char>,
) -> ScanState {
    let a = slot;
    if st.done is Some || a.spec_parser_id() != id || !a.spec_can_parse(raw) {
        st
    } else {
        record_attempt(
            ScanState { matched_any: true, ..st },
            a.spec_parser_id(),
            a.spec_name(),
            "compatibility can_parse matched"@,
            a.spec_parse(raw, t, src),
            "failed to parse"@,
        )
    }
}

pub open spec fn adapters_on_route(
    st: ScanState,
    slots: Seq<AdapterSlot>,
    id: Seq<char>,
    raw: Seq<char>,
    t: Timestamp,
    src: Seq<char>,
) -> ScanState
    decreases slots.len(),
{
    if slots.len() == 0 {
        st
    } else {
        adapter_on_route(adapters_on_route(st, slots.drop_last(), id, raw, t, src), slots.last(), id, raw, t, src)
    }
}

/// One route entry: the generic parser, the rule parser, or the adapters with that id.
pub open spec fn route_step(
    st: ScanState,
    id: Seq<char>,
    slots: Seq<AdapterSlot>,
    rules: Seq<ParseRule>,
    raw: Seq<char>,
    t: Timestamp,
    src: Seq<char>,
) -> ScanState {
    if st.done is Some {
        st
    } else if id == GENERIC_KV_PARSER_ID@ {
        let e = spec_generic_parse(raw, t, src);
        if spec_regex_captures(GENERIC_KV_PATTERN@, raw) is Some {
            record_attempt(
                st,
                GENERIC_KV_PARSER_ID@,
                "GenericKv"@,
                "generic key/value detector matched"@,
                e,
                "failed"@,
            )
        } else {
            ScanState {
                attempts: st.attempts.push(
                    (
                        GENERIC_KV_PARSER_ID@,
                        "GenericKv"@,
                        "generic key/value detector did not match"@,
                        e.parse_status.spec_name(),
                        e.parse_error,
                    ),
                ),
                ..st
            }
        }
    } else if id == RULE_BASED_PARSER_ID@ {
        if rules.len() > 0 {
            record_attempt(
                st,
                RULE_BASED_PARSER_ID@,
                "RuleBased"@,
                "rule parser configured"@,
                spec_rule_parse(rules, raw, t, src),
                "failed"@,
            )
        } else {
            st
        }
    } else {
        adapters_on_route(st, slots, id, raw, t, src)
    }
}

pub open spec fn route_scan(
    st: ScanState,
    ids: Seq<Seq<char>>,
    slots: Seq<AdapterSlot>,
    rules: Seq<ParseRule>,
    raw: Seq<char>,
    t: Timestamp,
    src: Seq<char>,
) -> ScanState
    decreases ids.len(),
{
    if ids.len() == 0 {
        st
    } else {
        route_step(route_scan(st, ids.drop_last(), slots, rules, raw, t, src), ids.last(), slots, rules, raw, t, src)
    }
}

/// One adapter tried as a last resort.
pub open spec fn fallback_step(st: ScanState, slot: AdapterSlot, raw: Seq<char>, t: Timestamp, src: Seq<char>) -> ScanState {
    let a = slot;
    if st.done is Some {
        st
    } else {
        record_attempt(
            st,
            a.spec_parser_id(),
            a.spec_name(),
            "compatibility fallback after generic and rule parsers"@,
            a.spec_parse(raw, t, src),
            "failed to parse"@,
        )
    }
}

pub open spec fn fallback_scan(st: ScanState, slots: Seq<AdapterSlot>, raw: Seq<char>, t: Timestamp, src: Seq<char>) -> ScanState
    decreases slots.len(),
{
    if slots.len() == 0 {
        st
    } else {
        fallback_step(fallback_scan(st, slots.drop_last(), raw, t, src), slots.last(), raw, t, src)
    }
}

pub open spec fn empty_scan() -> ScanState {
    ScanState {
        attempts: Seq::empty(),
        tried: Seq::empty(),
        best: None,
        matched_any: false,
        done: None,
    }
}

/// The texts joined with a separator.
pub open spec fn join(items: Seq<Seq<char>>, sep: Seq<char>) -> Seq<char>
    decreases items.len(),
{
    if items.len() == 0 {
        Seq::empty()
    } else if items.len() == 1 {
        items[0]
    } else {
        join(items.drop_last(), sep) + sep + items.last()
    }
}

pub open spec fn no_parser_message(tried: Seq<Seq<char>>) -> Seq<char> {
    "no parser matched; attempted ["@ + join(tried, ", "@) + "]"@
}

/// The scan of a line: its route in order, then every adapter when none claimed it.
pub open spec fn engine_scan(
    slots: Seq<AdapterSlot>,
    rules: Seq<ParseRule>,
    groups: Seq<Seq<Seq<char>>>,
    pins: Map<Seq<char>, Seq<Seq<char>>>,
    raw: Seq<char>,
    t: Timestamp,
    src: Seq<char>,
) -> ScanState {
    let scope_key = spec_scope(src, ScopeNormalizationMode::SourceIp).0;
    let st = route_scan(empty_scan(), spec_route(groups, pins, scope_key), slots, rules, raw, t, src);
    if st.done is None && !st.matched_any {
        fallback_scan(st, slots, raw, t, src)
    } else {
        st
    }
}

/// What a parse gives and records.
pub struct EngineOutcome {
    pub event: EventView,
    pub matched_parser_id: Option<Seq<char>>,
    pub failure_reason: Option<Seq<char>>,
    pub attempts: Seq<AttemptRecord>,
    pub rules: ApplyState,
}

pub open spec fn rules_start(e: EventView) -> ApplyState {
    ApplyState {
        event: e,
        applied: 0,
        conflicts: 0,
        applied_ids: Seq::empty(),
        applied_truncated: false,
        failed_ids: Seq::empty(),
        failed_truncated: false,
    }
}

/// The outcome of a parse: the parsed event of the first parser that parses the line; else
/// the first partial event completed by the adaptive rules; else a failed event listing what
/// was tried, also offered to the adaptive rules.
pub open spec fn engine_outcome(
    slots: Seq<AdapterSlot>,
    rules: Seq<ParseRule>,
    groups: Seq<Seq<Seq<char>>>,
    pins: Map<Seq<char>, Seq<Seq<char>>>,
    adaptive: Seq<AdaptiveRuleView>,
    raw: Seq<char>,
    t: Timestamp,
    src: Seq<char>,
) -> EngineOutcome {
    let st = engine_scan(slots, rules, groups, pins, raw, t, src);
    let scope_key = spec_scope(src, ScopeNormalizationMode::SourceIp).0;
    match st.done {
        Some((e, id)) => EngineOutcome {
            event: e,
            matched_parser_id: Some(id),
            failure_reason: None,
            attempts: st.attempts,
            rules: rules_start(e),
        },
        None => match st.best {
            Some((e, id)) => {
                let ast = apply_rules(rules_start(e), adaptive, scope_key, raw);
                EngineOutcome {
                    event: applied_event(ast),
                    matched_parser_id: Some(id),
                    failure_reason: applied_event(ast).parse_error,
                    attempts: st.attempts,
                    rules: ast,
                }
            },
            None => {
                let msg = no_parser_message(st.tried);
                let ast = apply_rules(rules_start(failed_view(t, src, raw, msg)), adaptive, scope_key, raw);
                EngineOutcome {
                    event: applied_event(ast),
                    matched_parser_id: None,
                    failure_reason: Some(msg),
                    attempts: st.attempts,
                    rules: ast,
                }
            },
        },
    }
}

pub open spec fn best_view(b: Option<(CanonicalEvent, String)>) -> Option<(EventView, Seq<char>)> {
    match b {
        Some((e, id)) => Some((e@, id@)),
        None => None,
    }
}

/// The scan state the engine's variables stand for.
pub open spec fn scan_of(
    d: ParseDiagnosticsBuffer,
    tried: Seq<String>,
    best: Option<(CanonicalEvent, String)>,
    matched_any: bool,
) -> ScanState {
    ScanState {
        attempts: d.attempt_views(),
        tried: strs(tried),
        best: best_view(best),
        matched_any,
        done: None,
    }
}

/// The diagnostics fields a scan leaves alone.
pub open spec fn scan_keeps(d: ParseDiagnosticsBuffer, d0: ParseDiagnosticsBuffer) -> bool {
    &&& d.failure_reason == d0.failure_reason
    &&& d.applied_rules == d0.applied_rules
    &&& d.failed_rules == d0.failed_rules
    &&& d.applied_rules_truncated == d0.applied_rules_truncated
    &&& d.failed_rules_truncated == d0.failed_rules_truncated
    &&& d.pairs_truncated == d0.pairs_truncated
    &&& d.line_truncated == d0.line_truncated
}

fn describe_failure(name: &str, error: &Option<String>, fallback: &str) -> (r: String)
    ensures
        r@ == name@ + ": "@ + error_or(ov(*error), fallback@),
{
    let head = concat(name, ": ");
    match error {
        Some(m) => concat(head.as_str(), m.as_str()),
        None => concat(head.as_str(), fallback),
    }
}

/// Records an event of a parser; hands it back when it is parsed (the scan ends), else keeps
/// it as the first partial result or lists it as tried.
fn record_event(
    diagnostics: &mut ParseDiagnosticsBuffer,
    tried: &mut Vec<String>,
    best: &mut Option<(CanonicalEvent, String)>,
    matched_any: bool,
    id: &str,
    name: &str,
    reason: &str,
    event: CanonicalEvent,
    fallback: &str,
) -> (r: Option<CanonicalEvent>)
    ensures
        ({
            let st2 = record_attempt(
                scan_of(*old(diagnostics), old(tried)@, *old(best), matched_any),
                id@,
                name@,
                reason@,
                event@,
                fallback@,
            );
            &&& final(diagnostics).attempt_views() == st2.attempts
            &&& scan_keeps(*final(diagnostics), *old(diagnostics))
            &&& match r {
                Some(e) => st2.done == Some((e@, id@)) && ov(final(diagnostics).matched_parser_id)
                    == Some(id@),
                None => st2.done is None && scan_of(*final(diagnostics), final(tried)@, *final(best), matched_any)
                    == st2 && final(diagnostics).matched_parser_id == old(diagnostics).matched_parser_id,
            }
        }),
{
    diagnostics.push_attempt(id, name, reason, &event);
    match event.parse_status {
        ParseStatus::Parsed => {
            diagnostics.matched_parser_id = Some(owned(id));
            return Some(event);
        },
        ParseStatus::Partial => {
            if best.is_none() {
                *best = Some((event.duplicate(), owned(id)));
            }
        },
        ParseStatus::Failed => {},
    }
    let line = describe_failure(name, &event.parse_error, fallback);
    let ghost before = tried@;
    tried.push(line);
    proof {
        assert(strs(tried@) =~= strs(before).push(line@));
    }
    None
}

proof fn lemma_adapters_done_stays(
    st0: ScanState,
    slots: Seq<AdapterSlot>,
    id: Seq<char>,
    raw: Seq<char>,
    t: Timestamp,
    src: Seq<char>,
    j: int,
    k: int,
)
    requires
        0 <= j <= k <= slots.len(),
        adapters_on_route(st0, slots.take(j), id, raw, t, src).done is Some,
    ensures
        adapters_on_route(st0, slots.take(k), id, raw, t, src) == adapters_on_route(
            st0,
            slots.take(j),
            id,
            raw,
            t,
            src,
        ),
    decreases k - j,
{
    if k > j {
        lemma_adapters_done_stays(st0, slots, id, raw, t, src, j, k - 1);
        assert(slots.take(k).drop_last() =~= slots.take(k - 1));
    }
}

proof fn lemma_route_done_stays(
    st0: ScanState,
    ids: Seq<Seq<char>>,
    slots: Seq<AdapterSlot>,
    rules: Seq<ParseRule>,
    raw: Seq<char>,
    t: Timestamp,
    src: Seq<char>,
    j: int,
    k: int,
)
    requires
        0 <= j <= k <= ids.len(),
        route_scan(st0, ids.take(j), slots, rules, raw, t, src).done is Some,
    ensures
        route_scan(st0, ids.take(k), slots, rules, raw, t, src) == route_scan(
            st0,
            ids.take(j),
            slots,
            rules,
            raw,
            t,
            src,
        ),
    decreases k - j,
{
    if k > j {
        lemma_route_done_stays(st0, ids, slots, rules, raw, t, src, j, k - 1);
        assert(ids.take(k).drop_last() =~= ids.take(k - 1));
    }
}

proof fn lemma_fallback_done_stays(
    st0: ScanState,
    slots: Seq<AdapterSlot>,
    raw: Seq<char>,
    t: Timestamp,
    src: Seq<char>,
    j: int,
    k: int,
)
    requires
        0 <= j <= k <= slots.len(),
        fallback_scan(st0, slots.take(j), raw, t, src).done is Some,
    ensures
        fallback_scan(st0, slots.take(k), raw, t, src) == fallback_scan(st0, slots.take(j), raw, t, src),
    decreases k - j,
{
    if k > j {
        lemma_fallback_done_stays(st0, slots, raw, t, src, j, k - 1);
        assert(slots.take(k).drop_last() =~= slots.take(k - 1));
    }
}

pub fn join_texts(items: &Vec<String>, sep: &str) -> (r: String)
    ensures
        r@ == join(strs(items@), sep@),
{
    let ghost v = strs(items@);
    let mut acc = String::new();
    let mut i: usize = 0;
    proof {
        assert(v.take(0) =~= Seq::<Seq<char>>::empty());
    }
    while i < items.len()
        invariant
            i <= items@.len(),
            v == strs(items@),
            acc@ == join(v.take(i as int), sep@),
        decreases items.len() - i,
    {
        proof {
            assert(v.take(i + 1).drop_last() =~= v.take(i as int));
            assert(v.take(i + 1).last() == items@[i as int]@);
        }
        if i == 0 {
            acc = items[0].clone();
            proof {
                assert(v.take(1) =~= seq![items@[0]@]);
            }
        } else {
            let with_sep = concat(acc.as_str(), sep);
            acc = concat(with_sep.as_str(), items[i].as_str());
        }
        i = i + 1;
    }
    proof {
        assert(v.take(v.len() as int) =~= v);
    }
    acc
}

impl ParserEngine {
    /// The adapters, in the order they were added.
    pub closed spec fn adapters(self) -> Seq<AdapterSlot> {
        self.known_adapters@
    }

    /// The configured rules, in the order they are tried.
    pub closed spec fn rule_list(self) -> Seq<ParseRule> {
        self.rules@
    }

    /// The default route groups.
    pub closed spec fn route_groups(self) -> Seq<Seq<Seq<char>>> {
        self.route_snapshot.groups()
    }

    /// The pinned routes by scope.
    pub closed spec fn route_pins(self) -> Map<Seq<char>, Seq<Seq<char>>> {
        self.route_snapshot.pins()
    }

    /// The adaptive rules.
    pub closed spec fn adaptive_rules(self) -> Seq<AdaptiveRuleView> {
        self.adaptive_snapshot@
    }

    /// The engine with the Sangfor adapter, no rules, the built-in route and no adaptive
    /// rules.
    pub fn new() -> (r: Self)
        ensures
            r.adapters() == seq![AdapterSlot::Sangfor(SangforAdapter)],
            r.rule_list().len() == 0,
            r.route_groups() == seq![
                seq![crate::route::SANGFOR_PARSER_ID@, GENERIC_KV_PARSER_ID@, RULE_BASED_PARSER_ID@],
            ],
            r.route_pins() == Map::<Seq<char>, Seq<Seq<char>>>::empty(),
            r.adaptive_rules().len() == 0,
    {
        let slot = AdapterSlot::Sangfor(SangforAdapter);
        let mut adapters: Vec<AdapterSlot> = Vec::new();
        adapters.push(slot);
        ParserEngine {
            known_adapters: adapters,
            generic: GenericKvParser,
            rules: RuleBasedParser::empty(),
            route_snapshot: RouteSnapshot::default_static(),
            adaptive_snapshot: AdaptiveRuleSnapshot::default(),
        }
    }

    /// Adds an adapter after the others and registers its id before the generic fallback.
    pub fn with_adapter<A: LogAdapter + 'static>(self, adapter: A) -> (r: Self)
        ensures
            r.adapters().len() == self.adapters().len() + 1,
            r.adapters().take(self.adapters().len() as int) == self.adapters(),
            r.adapters().last() is Custom,
            r.adapters().last().spec_name() == adapter.spec_name(),
            r.adapters().last().spec_parser_id() == adapter.spec_parser_id(),
            r.route_groups() == register_ids(self.route_groups(), seq![adapter.spec_parser_id()]),
            r.route_pins() == self.route_pins(),
            r.rule_list() == self.rule_list(),
            r.adaptive_rules() == self.adaptive_rules(),
    {
        let mut engine = self;
        let id = adapter.parser_id();
        let ghost g0 = engine.route_snapshot.groups();
        proof {
            assert(seq![id@].drop_last() =~= Seq::<Seq<char>>::empty());
            assert(register_ids(g0, Seq::<Seq<char>>::empty()) == g0);
        }
        engine.route_snapshot.register_default_adapter(id);
        let slot = adapter_slot(adapter);
        let ghost before = engine.known_adapters@;
        engine.known_adapters.push(slot);
        proof {
            assert(engine.known_adapters@.take(before.len() as int) =~= before);
            assert(seq![id@].drop_last() =~= Seq::<Seq<char>>::empty());
        }
        engine
    }

    /// Loads rules; fails as building the rule parser fails.
    pub fn with_rules(self, rules: Vec<ParseRule>) -> (r: Result<Self, String>)
        ensures
            match r {
                Ok(e) => spec_from_rules(rules@) == Ok::<Seq<ParseRule>, Seq<char>>(e.rule_list())
                    && e.adapters() == self.adapters() && e.route_groups() == self.route_groups()
                    && e.route_pins() == self.route_pins() && e.adaptive_rules()
                    == self.adaptive_rules(),
                Err(m) => spec_from_rules(rules@) == Err::<Seq<ParseRule>, Seq<char>>(m@),
            },
    {
        match RuleBasedParser::from_rules(rules) {
            Ok(parser) => {
                let mut engine = self;
                engine.rules = parser;
                Ok(engine)
            },
            Err(e) => Err(e),
        }
    }

    /// Replaces the route and registers every adapter id in it again.
    pub fn with_route_snapshot(self, route_snapshot: RouteSnapshot) -> (r: Self)
        ensures
            r.route_groups() == register_ids(route_snapshot.groups(), slot_ids(self.adapters())),
            r.route_pins() == route_snapshot.pins(),
            r.adapters() == self.adapters(),
            r.rule_list() == self.rule_list(),
            r.adaptive_rules() == self.adaptive_rules(),
    {
        let ghost old_rules = self.rules@;
        let ghost old_adaptive = self.adaptive_snapshot@;
        let ghost old_adapters = self.known_adapters@;
        let mut engine = self;
        engine.route_snapshot = route_snapshot;
        let ghost ids = slot_ids(engine.known_adapters@);
        let ghost groups0 = route_snapshot.groups();
        assert(ids.take(0) =~= Seq::<Seq<char>>::empty());
        let mut i: usize = 0;
        while i < engine.known_adapters.len()
            invariant
                i <= engine.known_adapters@.len(),
                ids == slot_ids(engine.known_adapters@),
                engine.route_snapshot.groups() == register_ids(groups0, ids.take(i as int)),
                engine.route_snapshot.pins() == route_snapshot.pins(),
                engine.known_adapters@ == old_adapters,
                engine.rules@ == old_rules,
                engine.adaptive_snapshot@ == old_adaptive,
            decreases engine.known_adapters.len() - i,
        {
            let id = engine.known_adapters[i].parser_id();
            engine.route_snapshot.register_default_adapter(id);
            proof {
                assert(ids.take(i + 1).drop_last() =~= ids.take(i as int));
                assert(ids.take(i + 1).last() == id@);
            }
            i = i + 1;
        }
        proof {
            assert(ids.take(ids.len() as int) =~= ids);
        }
        engine
    }

    /// Replaces the adaptive rules.
    pub fn with_adaptive_snapshot(self, adaptive_snapshot: AdaptiveRuleSnapshot) -> (r: Self)
        ensures
            r.adaptive_rules() == adaptive_snapshot@,
            r.adapters() == self.adapters(),
            r.rule_list() == self.rule_list(),
            r.route_groups() == self.route_groups(),
            r.route_pins() == self.route_pins(),
    {
        let mut engine = self;
        engine.adaptive_snapshot = adaptive_snapshot;
        engine
    }

    /// Replaces the adaptive rules in place.
    pub fn set_adaptive_snapshot(&mut self, adaptive_snapshot: AdaptiveRuleSnapshot)
        ensures
            final(self).adaptive_rules() == adaptive_snapshot@,
            final(self).adapters() == old(self).adapters(),
            final(self).rule_list() == old(self).rule_list(),
            final(self).route_groups() == old(self).route_groups(),
            final(self).route_pins() == old(self).route_pins(),
    {
        self.adaptive_snapshot = adaptive_snapshot;
    }

    pub fn adapter_count(&self) -> (r: usize)
        ensures
            r == self.adapters().len(),
    {
        self.known_adapters.len()
    }

    fn try_generic(
        &self,
        raw: &RawLog,
        diagnostics: &mut ParseDiagnosticsBuffer,
        tried: &mut Vec<String>,
        best: &mut Option<(CanonicalEvent, String)>,
        matched_any: bool,
    ) -> (r: Option<CanonicalEvent>)
        ensures
            ({
                let st2 = route_step(
                    scan_of(*old(diagnostics), old(tried)@, *old(best), matched_any),
                    GENERIC_KV_PARSER_ID@,
                    self.adapters(),
                    self.rule_list(),
                    raw.raw@,
                    raw.ingest_time,
                    raw.source_addr@,
                );
                &&& final(diagnostics).attempt_views() == st2.attempts
                &&& scan_keeps(*final(diagnostics), *old(diagnostics))
                &&& match r {
                    Some(e) => st2.done == Some((e@, GENERIC_KV_PARSER_ID@)) && ov(
                        final(diagnostics).matched_parser_id,
                    ) == Some(GENERIC_KV_PARSER_ID@),
                    None => st2.done is None && scan_of(
                        *final(diagnostics),
                        final(tried)@,
                        *final(best),
                        matched_any,
                    ) == st2 && final(diagnostics).matched_parser_id
                        == old(diagnostics).matched_parser_id,
                }
            }),
    {
        if self.generic.can_parse(raw) {
            let event = self.generic.parse(raw.duplicate());
            record_event(
                diagnostics,
                tried,
                best,
                matched_any,
                GENERIC_KV_PARSER_ID,
                "GenericKv",
                "generic key/value detector matched",
                event,
                "failed",
            )
        } else {
            let event = self.generic.parse(raw.duplicate());
            let ghost before = diagnostics.attempt_views();
            diagnostics.push_attempt(
                GENERIC_KV_PARSER_ID,
                "GenericKv",
                "generic key/value detector did not match",
                &event,
            );
            None
        }
    }

    fn try_rules(
        &self,
        raw: &RawLog,
        diagnostics: &mut ParseDiagnosticsBuffer,
        tried: &mut Vec<String>,
        best: &mut Option<(CanonicalEvent, String)>,
        matched_any: bool,
    ) -> (r: Option<CanonicalEvent>)
        ensures
            ({
                let st2 = route_step(
                    scan_of(*old(diagnostics), old(tried)@, *old(best), matched_any),
                    RULE_BASED_PARSER_ID@,
                    self.adapters(),
                    self.rule_list(),
                    raw.raw@,
                    raw.ingest_time,
                    raw.source_addr@,
                );
                &&& final(diagnostics).attempt_views() == st2.attempts
                &&& scan_keeps(*final(diagnostics), *old(diagnostics))
                &&& match r {
                    Some(e) => st2.done == Some((e@, RULE_BASED_PARSER_ID@)) && ov(
                        final(diagnostics).matched_parser_id,
                    ) == Some(RULE_BASED_PARSER_ID@),
                    None => st2.done is None && scan_of(
                        *final(diagnostics),
                        final(tried)@,
                        *final(best),
                        matched_any,
                    ) == st2 && final(diagnostics).matched_parser_id
                        == old(diagnostics).matched_parser_id,
                }
            }),
    {
        proof {
            reveal_strlit("parser:generic_kv_v1");
            reveal_strlit("parser:rule_based_v1");
            assert(RULE_BASED_PARSER_ID@ == "parser:rule_based_v1"@);
            assert(GENERIC_KV_PARSER_ID@ == "parser:generic_kv_v1"@);
            assert(RULE_BASED_PARSER_ID@[7] != GENERIC_KV_PARSER_ID@[7]);
        }
        if self.rules.can_parse(raw) {
            let event = self.rules.parse(raw.duplicate());
            record_event(
                diagnostics,
                tried,
                best,
                matched_any,
                RULE_BASED_PARSER_ID,
                "RuleBased",
                "rule parser configured",
                event,
                "failed",
            )
        } else {
            None
        }
    }

    #[verifier::rlimit(80)]
    fn try_adapters(
        &self,
        id: &str,
        raw: &RawLog,
        diagnostics: &mut ParseDiagnosticsBuffer,
        tried: &mut Vec<String>,
        best: &mut Option<(CanonicalEvent, String)>,
        matched_any: &mut bool,
    ) -> (r: Option<CanonicalEvent>)
        ensures
            ({
                let st2 = adapters_on_route(
                    scan_of(*old(diagnostics), old(tried)@, *old(best), *old(matched_any)),
                    self.adapters(),
                    id@,
                    raw.raw@,
                    raw.ingest_time,
                    raw.source_addr@,
                );
                &&& final(diagnostics).attempt_views() == st2.attempts
                &&& scan_keeps(*final(diagnostics), *old(diagnostics))
                &&& match r {
                    Some(e) => st2.done matches Some((ev, pid)) && ev == e@ && ov(
                        final(diagnostics).matched_parser_id,
                    ) == Some(pid),
                    None => st2.done is None && scan_of(
                        *final(diagnostics),
                        final(tried)@,
                        *final(best),
                        *final(matched_any),
                    ) == st2 && final(diagnostics).matched_parser_id
                        == old(diagnostics).matched_parser_id,
                }
            }),
    {
        let ghost st0 = scan_of(*diagnostics, tried@, *best, *matched_any);
        let ghost d0 = *diagnostics;
        let ghost slots = self.known_adapters@;
        let mut j: usize = 0;
        proof {
            assert(slots.take(0) =~= Seq::<AdapterSlot>::empty());
        }
        while j < self.known_adapters.len()
            invariant
                j <= slots.len(),
                slots == self.known_adapters@,
                slots == self.adapters(),
                scan_of(*diagnostics, tried@, *best, *matched_any) == adapters_on_route(
                    st0,
                    slots.take(j as int),
                    id@,
                    raw.raw@,
                    raw.ingest_time,
                    raw.source_addr@,
                ),
                scan_keeps(*diagnostics, d0),
                diagnostics.matched_parser_id == d0.matched_parser_id,
                d0 == *old(diagnostics),
                st0 == scan_of(*old(diagnostics), old(tried)@, *old(best), *old(matched_any)),
            decreases self.known_adapters.len() - j,
        {
            proof {
                assert(slots.take(j + 1).drop_last() =~= slots.take(j as int));
                assert(slots.take(j + 1).last() == slots[j as int]);
            }
            let adapter = &self.known_adapters[j];
            let pid = adapter.parser_id();
            if str_eq(pid, id) {
                let detect = adapter.detect(raw);
                if detect.is_match() {
                    let ghost before = scan_of(*diagnostics, tried@, *best, *matched_any);
                    *matched_any = true;
                    let event = adapter.parse(raw.duplicate());
                    let name = adapter.name();
                    proof {
                        assert(scan_of(*diagnostics, tried@, *best, true) == ScanState {
                            matched_any: true,
                            ..before
                        });
                        assert(adapters_on_route(
                            st0,
                            slots.take(j + 1),
                            id@,
                            raw.raw@,
                            raw.ingest_time,
                            raw.source_addr@,
                        ) == record_attempt(
                            scan_of(*diagnostics, tried@, *best, true),
                            pid@,
                            name@,
                            detect.reason@,
                            event@,
                            "failed to parse"@,
                        ));
                    }
                    match record_event(
                        diagnostics,
                        tried,
                        best,
                        true,
                        pid,
                        name,
                        detect.reason,
                        event,
                        "failed to parse",
                    ) {
                        Some(e) => {
                            proof {
                                lemma_adapters_done_stays(
                                    st0,
                                    slots,
                                    id@,
                                    raw.raw@,
                                    raw.ingest_time,
                                    raw.source_addr@,
                                    j + 1,
                                    slots.len() as int,
                                );
                                assert(slots.take(slots.len() as int) =~= slots);
                            }
                            return Some(e);
                        },
                        None => {},
                    }
                }
            }
            j = j + 1;
        }
        proof {
            assert(slots.take(slots.len() as int) =~= slots);
        }
        None
    }

    #[verifier::rlimit(80)]
    fn try_fallback(
        &self,
        raw: &RawLog,
        diagnostics: &mut ParseDiagnosticsBuffer,
        tried: &mut Vec<String>,
        best: &mut Option<(CanonicalEvent, String)>,
        matched_any: bool,
    ) -> (r: Option<CanonicalEvent>)
        ensures
            ({
                let st2 = fallback_scan(
                    scan_of(*old(diagnostics), old(tried)@, *old(best), matched_any),
                    self.adapters(),
                    raw.raw@,
                    raw.ingest_time,
                    raw.source_addr@,
                );
                &&& final(diagnostics).attempt_views() == st2.attempts
                &&& scan_keeps(*final(diagnostics), *old(diagnostics))
                &&& match r {
                    Some(e) => st2.done matches Some((ev, pid)) && ev == e@ && ov(
                        final(diagnostics).matched_parser_id,
                    ) == Some(pid),
                    None => st2.done is None && scan_of(
                        *final(diagnostics),
                        final(tried)@,
                        *final(best),
                        matched_any,
                    ) == st2 && final(diagnostics).matched_parser_id
                        == old(diagnostics).matched_parser_id,
                }
            }),
    {
        let ghost st0 = scan_of(*diagnostics, tried@, *best, matched_any);
        let ghost d0 = *diagnostics;
        let ghost slots = self.known_adapters@;
        let mut j: usize = 0;
        proof {
            assert(slots.take(0) =~= Seq::<AdapterSlot>::empty());
        }
        while j < self.known_adapters.len()
            invariant
                j <= slots.len(),
                slots == self.known_adapters@,
                slots == self.adapters(),
                scan_of(*diagnostics, tried@, *best, matched_any) == fallback_scan(
                    st0,
                    slots.take(j as int),
                    raw.raw@,
                    raw.ingest_time,
                    raw.source_addr@,
                ),
                scan_keeps(*diagnostics, d0),
                diagnostics.matched_parser_id == d0.matched_parser_id,
                d0 == *old(diagnostics),
                st0 == scan_of(*old(diagnostics), old(tried)@, *old(best), matched_any),
            decreases self.known_adapters.len() - j,
        {
            proof {
                assert(slots.take(j + 1).drop_last() =~= slots.take(j as int));
                assert(slots.take(j + 1).last() == slots[j as int]);
            }
            let adapter = &self.known_adapters[j];
            let event = adapter.parse(raw.duplicate());
            let pid = adapter.parser_id();
            let name = adapter.name();
            proof {
                assert(fallback_scan(
                    st0,
                    slots.take(j + 1),
                    raw.raw@,
                    raw.ingest_time,
                    raw.source_addr@,
                ) == record_attempt(
                    scan_of(*diagnostics, tried@, *best, matched_any),
                    pid@,
                    name@,
                    "compatibility fallback after generic and rule parsers"@,
                    event@,
                    "failed to parse"@,
                ));
            }
            match record_event(
                diagnostics,
                tried,
                best,
                matched_any,
                pid,
                name,
                "compatibility fallback after generic and rule parsers",
                event,
                "failed to parse",
            ) {
                Some(e) => {
                    proof {
                        lemma_fallback_done_stays(
                            st0,
                            slots,
                            raw.raw@,
                            raw.ingest_time,
                            raw.source_addr@,
                            j + 1,
                            slots.len() as int,
                        );
                        assert(slots.take(slots.len() as int) =~= slots);
                    }
                    return Some(e);
                },
                None => {},
            }
            j = j + 1;
        }
        proof {
            assert(slots.take(slots.len() as int) =~= slots);
        }
        None
    }

    /// Parses a line and records what was tried in `diagnostics` (cleared first).
    #[verifier::rlimit(80)]
    pub fn parse_inner(&self, raw: RawLog, diagnostics: &mut ParseDiagnosticsBuffer) -> (r: ParseResult)
        ensures
            ({
                let o = engine_outcome(
                    self.adapters(),
                    self.rule_list(),
                    self.route_groups(),
                    self.route_pins(),
                    self.adaptive_rules(),
                    raw.raw@,
                    raw.ingest_time,
                    raw.source_addr@,
                );
                &&& r.event@ == o.event
                &&& ov(final(diagnostics).matched_parser_id) == o.matched_parser_id
                &&& ov(final(diagnostics).failure_reason) == o.failure_reason
                &&& final(diagnostics).attempt_views() == o.attempts
                &&& rule_ids(final(diagnostics).applied_rules) == o.rules.applied_ids
                &&& final(diagnostics).applied_rules_truncated == o.rules.applied_truncated
                &&& rule_ids(final(diagnostics).failed_rules) == o.rules.failed_ids
                &&& final(diagnostics).failed_rules_truncated == o.rules.failed_truncated
                &&& !final(diagnostics).pairs_truncated
                &&& !final(diagnostics).line_truncated
            }),
    {
        diagnostics.clear();
        let ghost d0 = *diagnostics;
        let mut tried: Vec<String> = Vec::new();
        let mut best: Option<(CanonicalEvent, String)> = None;
        let mut matched_any = false;
        let raw_line = raw.raw.clone();
        let scope = normalize_source_scope(raw.source_addr.as_str(), ScopeNormalizationMode::SourceIp);
        let route_ids = self.route_snapshot.parser_ids_for(scope.scope_key.as_str());
        let ghost ids = strs(route_ids@);
        let ghost slots = self.adapters();
        let ghost rules = self.rule_list();
        let ghost rv = raw.raw@;
        let ghost t = raw.ingest_time;
        let ghost sv = raw.source_addr@;
        proof {
            assert(d0.attempt_views() =~= Seq::<AttemptRecord>::empty());
            assert(strs(tried@) =~= Seq::<Seq<char>>::empty());
            assert(scan_of(d0, tried@, best, matched_any) == empty_scan());
            assert(ids.take(0) =~= Seq::<Seq<char>>::empty());
        }
        let mut k: usize = 0;
        while k < route_ids.len()
            invariant
                k <= route_ids@.len(),
                ids == strs(route_ids@),
                ids == spec_route(self.route_groups(), self.route_pins(), scope.scope_key@),
                scope.scope_key@ == spec_scope(raw.source_addr@, ScopeNormalizationMode::SourceIp).0,
                slots == self.adapters(),
                rules == self.rule_list(),
                rv == raw.raw@,
                t == raw.ingest_time,
                sv == raw.source_addr@,
                scan_of(*diagnostics, tried@, best, matched_any) == route_scan(
                    empty_scan(),
                    ids.take(k as int),
                    slots,
                    rules,
                    rv,
                    t,
                    sv,
                ),
                scan_keeps(*diagnostics, d0),
                diagnostics.matched_parser_id is None,
                d0.is_clear(),
            decreases route_ids.len() - k,
        {
            proof {
                assert(ids.take(k + 1).drop_last() =~= ids.take(k as int));
                assert(ids.take(k + 1).last() == route_ids@[k as int]@);
            }
            let pid = route_ids[k].as_str();
            let outcome = if str_eq(pid, GENERIC_KV_PARSER_ID) {
                self.try_generic(&raw, diagnostics, &mut tried, &mut best, matched_any)
            } else if str_eq(pid, RULE_BASED_PARSER_ID) {
                self.try_rules(&raw, diagnostics, &mut tried, &mut best, matched_any)
            } else {
                self.try_adapters(pid, &raw, diagnostics, &mut tried, &mut best, &mut matched_any)
            };
            match outcome {
                Some(event) => {
                    proof {
                        lemma_route_done_stays(
                            empty_scan(),
                            ids,
                            slots,
                            rules,
                            rv,
                            t,
                            sv,
                            k + 1,
                            ids.len() as int,
                        );
                        assert(ids.take(ids.len() as int) =~= ids);
                        assert(rule_ids(d0.applied_rules) =~= Seq::<Seq<char>>::empty());
                        assert(rule_ids(d0.failed_rules) =~= Seq::<Seq<char>>::empty());
                    }
                    return ParseResult { event };
                },
                None => {},
            }
            k = k + 1;
        }
        proof {
            assert(ids.take(ids.len() as int) =~= ids);
            assert(rule_ids(d0.applied_rules) =~= Seq::<Seq<char>>::empty());
            assert(rule_ids(d0.failed_rules) =~= Seq::<Seq<char>>::empty());
        }
        let ghost scope_key = scope.scope_key@;
        let ghost st_route = route_scan(empty_scan(), ids, slots, rules, rv, t, sv);
        let ghost st_all = engine_scan(
            slots,
            rules,
            self.route_groups(),
            self.route_pins(),
            rv,
            t,
            sv,
        );
        proof {
            assert(scope_key == spec_scope(sv, ScopeNormalizationMode::SourceIp).0);
            assert(scan_of(*diagnostics, tried@, best, matched_any) == st_route);
            assert(st_route.done is None);
        }
        if !matched_any {
            match self.try_fallback(&raw, diagnostics, &mut tried, &mut best, matched_any) {
                Some(event) => {
                    proof {
                        assert(st_all == fallback_scan(st_route, slots, rv, t, sv));
                    }
                    return ParseResult { event };
                },
                None => {},
            }
        }
        proof {
            assert(st_all == scan_of(*diagnostics, tried@, best, matched_any));
            assert(st_all.done is None);
            assert(rule_ids(diagnostics.applied_rules) =~= Seq::<Seq<char>>::empty());
            assert(rule_ids(diagnostics.failed_rules) =~= Seq::<Seq<char>>::empty());
            assert(!diagnostics.applied_rules_truncated);
            assert(!diagnostics.failed_rules_truncated);
        }
        match best {
            Some((event, id)) => {
                let mut event = event;
                proof {
                    assert(st_all.best == Some((event@, id@)));
                    assert(apply_start(event@, *diagnostics) == rules_start(event@));
                }
                apply_active_rules(
                    &self.adaptive_snapshot,
                    scope.scope_key.as_str(),
                    raw_line.as_str(),
                    &mut event,
                    diagnostics,
                );
                diagnostics.matched_parser_id = Some(id);
                diagnostics.failure_reason = crate::event::clone_opt(&event.parse_error);
                return ParseResult { event };
            },
            None => {},
        }
        proof {
            assert(st_all.best is None);
        }
        let listed = join_texts(&tried, ", ");
        let head = concat("no parser matched; attempted [", listed.as_str());
        let failure_reason = concat(head.as_str(), "]");
        proof {
            assert(failure_reason@ == no_parser_message(st_all.tried));
        }
        diagnostics.failure_reason = Some(failure_reason.clone());
        let mut event = CanonicalEvent::failed(raw, failure_reason.as_str());
        proof {
            assert(event@ == failed_view(t, sv, rv, no_parser_message(st_all.tried)));
            assert(apply_start(event@, *diagnostics) == rules_start(event@));
        }
        apply_active_rules(
            &self.adaptive_snapshot,
            scope.scope_key.as_str(),
            raw_line.as_str(),
            &mut event,
            diagnostics,
        );
        ParseResult { event }
    }

    /// Parses a line; the event `parse_inner` gives.
    pub fn parse(&self, raw: RawLog) -> (e: CanonicalEvent)
        ensures
            e@ == engine_outcome(
                self.adapters(),
                self.rule_list(),
                self.route_groups(),
                self.route_pins(),
                self.adaptive_rules(),
                raw.raw@,
                raw.ingest_time,
                raw.source_addr@,
            ).event,
    {
        let mut diagnostics = ParseDiagnosticsBuffer::default();
        self.parse_inner(raw, &mut diagnostics).event
    }

    pub fn rule_count(&self) -> (r: usize)
        ensures
            r == self.rule_list().len(),
    {
        self.rules.rule_count()
    }
}

impl Default for ParserEngine {
    fn default() -> (r: Self)
        ensures
            r.adapters() == seq![AdapterSlot::Sangfor(SangforAdapter)],
            r.rule_list().len() == 0,
            r.route_groups() == seq![
                seq![crate::route::SANGFOR_PARSER_ID@, GENERIC_KV_PARSER_ID@, RULE_BASED_PARSER_ID@],
            ],
            r.route_pins() == Map::<Seq<char>, Seq<Seq<char>>>::empty(),
            r.adaptive_rules().len() == 0,
    {
        Self::new()
    }
}

} // verus!
