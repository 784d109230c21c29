//! The rule-based parser: configured regular expressions whose groups fill canonical fields,
//! tried in order of priority.
use vstd::prelude::*;
use crate::event::{
    CanonicalEvent, EventView, ParseStatus, RawLog, Timestamp, classified, failed_view, ov,
    spec_event_id, make_event_id, clone_opt,
};
use crate::regex_support::{
    groups_view, regex_captures, regex_error, regex_group_names, spec_regex_captures,
    spec_regex_error, spec_regex_group_names,
};
use crate::generic::{normalize_protocol, spec_generic_protocol};
use crate::sangfor::{spec_port, parse_port};
use crate::text::{
    concat, owned, parse_unsigned, parse_unsigned_u64, spec_to_lowercase, spec_to_uppercase,
    str_eq, to_lowercase, to_uppercase,
};

verus! {

/// Maps one capture group (by name, or by index) to a canonical field.
#[derive(Debug, Clone)]
pub struct FieldMapping {
    /// The target field (`src_ip`, `dst_port`, `action`, ...).
    pub target: String,
    /// The group name or index (`"src"` or `"1"`).
    pub source: String,
    /// An optional transform: `normalize_protocol`, `uppercase` or `lowercase`.
    pub transform: Option<String>,
}

pub struct FieldMappingView {
    pub target: Seq<char>,
    pub source: Seq<char>,
    pub transform: Option<Seq<char>>,
}

impl View for FieldMapping {
    type V = FieldMappingView;

    open spec fn view(&self) -> FieldMappingView {
        FieldMappingView { target: self.target@, source: self.source@, transform: ov(self.transform) }
    }
}

/// A configured rule.
#[derive(Debug, Clone)]
pub struct ParseRule {
    pub name: String,
    /// Lower numbers are tried first.
    pub priority: i32,
    /// The pattern a whole line is matched against.
    pub match_pattern: String,
    pub field_mappings: Vec<FieldMapping>,
}

/// The mappings of a rule by their views.
pub open spec fn mappings_view(m: Seq<FieldMapping>) -> Seq<FieldMappingView> {
    m.map_values(|x: FieldMapping| x@)
}

/// A transform applied to a captured value.
pub open spec fn spec_apply_transform(value: Seq<char>, transform: Option<Seq<char>>) -> Seq<char> {
    match transform {
        Some(t) => if t == "normalize_protocol"@ {
            spec_generic_protocol(value)
        } else if t == "uppercase"@ {
            spec_to_uppercase(value)
        } else if t == "lowercase"@ {
            spec_to_lowercase(value)
        } else {
            value
        },
        None => value,
    }
}

pub fn apply_transform(value: &str, transform: &Option<String>) -> (r: String)
    ensures
        r@ == spec_apply_transform(value@, ov(*transform)),
{
    match transform {
        Some(t) => if str_eq(t.as_str(), "normalize_protocol") {
            normalize_protocol(value)
        } else if str_eq(t.as_str(), "uppercase") {
            to_uppercase(value)
        } else if str_eq(t.as_str(), "lowercase") {
            to_lowercase(value)
        } else {
            owned(value)
        },
        None => owned(value),
    }
}

/// The index of the group called `name`, if the pattern has one.
pub open spec fn named_group_index(names: Seq<Option<Seq<char>>>, name: Seq<char>) -> Option<int> {
    if exists|i: int| 0 <= i < names.len() && names[i] == Some(name) {
        Some(
            choose|i: int|
                0 <= i < names.len() && names[i] == Some(name) && forall|j: int|
                    0 <= j < i ==> names[j] != Some(name),
        )
    } else {
        None
    }
}

/// Text of group `i` of a match, when it took part.
pub open spec fn group_at(groups: Seq<Option<Seq<char>>>, i: int) -> Option<Seq<char>> {
    if 0 <= i < groups.len() {
        groups[i]
    } else {
        None
    }
}

/// The value a mapping reads: the group of that name, else the group at the index the
/// source spells.
pub open spec fn mapping_value(
    names: Seq<Option<Seq<char>>>,
    groups: Seq<Option<Seq<char>>>,
    source: Seq<char>,
) -> Option<Seq<char>> {
    let by_name = match named_group_index(names, source) {
        Some(i) => group_at(groups, i),
        None => None,
    };
    if by_name is Some {
        by_name
    } else {
        match parse_unsigned(source, usize::MAX as nat) {
            Some(idx) => group_at(groups, idx as int),
            None => None,
        }
    }
}

/// One mapping applied to the event built so far; a later mapping of a field wins, and a
/// port that does not parse clears the port.
pub open spec fn apply_mapping(
    e: EventView,
    m: FieldMappingView,
    names: Seq<Option<Seq<char>>>,
    groups: Seq<Option<Seq<char>>>,
) -> EventView {
    match mapping_value(names, groups, m.source) {
        Some(val) => {
            let t = spec_apply_transform(val, m.transform);
            if m.target == "src_ip"@ {
                EventView { src_ip: Some(t), ..e }
            } else if m.target == "dst_ip"@ {
                EventView { dst_ip: Some(t), ..e }
            } else if m.target == "src_port"@ {
                EventView { src_port: spec_port(t), ..e }
            } else if m.target == "dst_port"@ {
                EventView { dst_port: spec_port(t), ..e }
            } else if m.target == "protocol"@ {
                EventView { protocol: Some(t), ..e }
            } else if m.target == "action"@ {
                EventView { action: Some(t), ..e }
            } else if m.target == "severity"@ {
                EventView { severity: Some(t), ..e }
            } else if m.target == "device_id"@ {
                EventView { device_id: Some(t), ..e }
            } else if m.target == "vendor"@ {
                EventView { vendor: Some(t), ..e }
            } else if m.target == "product"@ {
                EventView { product: Some(t), ..e }
            } else {
                e
            }
        },
        None => e,
    }
}

/// All mappings of a rule applied in order.
pub open spec fn apply_mappings(
    e: EventView,
    ms: Seq<FieldMappingView>,
    names: Seq<Option<Seq<char>>>,
    groups: Seq<Option<Seq<char>>>,
) -> EventView
    decreases ms.len(),
{
    if ms.len() == 0 {
        e
    } else {
        apply_mapping(apply_mappings(e, ms.drop_last(), names, groups), ms.last(), names, groups)
    }
}

/// The event a matching rule starts from.
pub open spec fn rule_base_event(
    name: Seq<char>,
    raw: Seq<char>,
    ingest_time: Timestamp,
    source_addr: Seq<char>,
) -> EventView {
    EventView {
        event_id: spec_event_id(raw, ingest_time, source_addr),
        ingest_time,
        source_addr,
        device_id: None,
        event_time: None,
        vendor: Some(name),
        product: None,
        src_ip: None,
        src_port: None,
        dst_ip: None,
        dst_port: None,
        protocol: None,
        action: None,
        severity: None,
        raw,
        parse_status: ParseStatus::Parsed,
        parse_error: None,
    }
}

/// Whether a rule's event holds any of the fields that make it count.
pub open spec fn rule_has_any_field(e: EventView) -> bool {
    e.src_ip is Some || e.dst_ip is Some || e.protocol is Some || e.action is Some
}

/// The event of one rule on a line, when its pattern matches and fills a field that counts.
pub open spec fn rule_attempt(
    rule: ParseRule,
    raw: Seq<char>,
    ingest_time: Timestamp,
    source_addr: Seq<char>,
) -> Option<EventView> {
    match spec_regex_captures(rule.match_pattern@, raw) {
        Some(groups) => {
            let e = apply_mappings(
                rule_base_event(rule.name@, raw, ingest_time, source_addr),
                mappings_view(rule.field_mappings@),
                spec_regex_group_names(rule.match_pattern@),
                groups,
            );
            if rule_has_any_field(e) {
                Some(classified(e))
            } else {
                None
            }
        },
        None => None,
    }
}

pub open spec fn no_rule_message() -> Seq<char> {
    "rule-based parser: no rule matched"@
}

/// The event of the first rule that yields one, or a failed event.
pub open spec fn spec_rule_parse(
    rules: Seq<ParseRule>,
    raw: Seq<char>,
    ingest_time: Timestamp,
    source_addr: Seq<char>,
) -> EventView
    decreases rules.len(),
{
    if rules.len() == 0 {
        failed_view(ingest_time, source_addr, raw, no_rule_message())
    } else {
        match rule_attempt(rules[0], raw, ingest_time, source_addr) {
            Some(e) => e,
            None => spec_rule_parse(rules.drop_first(), raw, ingest_time, source_addr),
        }
    }
}

/// Where a rule goes among rules already in priority order: before the first rule of equal
/// or larger priority, so that of equal priorities the earlier one stays first.
pub open spec fn insert_position(sorted: Seq<ParseRule>, priority: i32) -> int {
    if exists|i: int| 0 <= i < sorted.len() && sorted[i].priority >= priority {
        choose|i: int|
            0 <= i < sorted.len() && sorted[i].priority >= priority && forall|j: int|
                0 <= j < i ==> sorted[j].priority < priority
    } else {
        sorted.len() as int
    }
}

/// Rules in ascending priority; rules of equal priority keep their order.
pub open spec fn sort_by_priority(rules: Seq<ParseRule>) -> Seq<ParseRule>
    decreases rules.len(),
{
    if rules.len() == 0 {
        rules
    } else {
        let rest = sort_by_priority(rules.drop_first());
        rest.insert(insert_position(rest, rules[0].priority), rules[0])
    }
}

/// Whether an earlier rule has the name of rule `i`.
pub open spec fn repeats_name(rules: Seq<ParseRule>, i: int) -> bool {
    0 <= i < rules.len() && exists|j: int| 0 <= j < i && rules[j].name@ == rules[i].name@
}

/// The first rule whose name an earlier rule already has.
pub open spec fn first_duplicate(rules: Seq<ParseRule>) -> Option<int> {
    if exists|i: int| repeats_name(rules, i) {
        Some(
            choose|i: int|
                repeats_name(rules, i) && forall|k: int| 0 <= k < i ==> !#[trigger] repeats_name(rules, k),
        )
    } else {
        None
    }
}

/// The first rule whose pattern does not compile.
pub open spec fn first_invalid_pattern(rules: Seq<ParseRule>) -> Option<int> {
    if exists|i: int| 0 <= i < rules.len() && spec_regex_error(rules[i].match_pattern@) is Some {
        Some(
            choose|i: int|
                0 <= i < rules.len() && spec_regex_error(rules[i].match_pattern@) is Some
                    && forall|j: int|
                    0 <= j < i ==> spec_regex_error(rules[j].match_pattern@) is None,
        )
    } else {
        None
    }
}

pub open spec fn duplicate_message(name: Seq<char>) -> Seq<char> {
    "duplicate rule name '"@ + name + "' in ruleset"@
}

pub open spec fn invalid_pattern_message(name: Seq<char>, error: Seq<char>) -> Seq<char> {
    "invalid regex in rule '"@ + name + "': "@ + error
}

/// What building a parser from a list of rules gives: an error for the first repeated name,
/// else for the first pattern that does not compile, else the rules in priority order.
pub open spec fn spec_from_rules(rules: Seq<ParseRule>) -> Result<Seq<ParseRule>, Seq<char>> {
    match first_duplicate(rules) {
        Some(i) => Err(duplicate_message(rules[i].name@)),
        None => match first_invalid_pattern(rules) {
            Some(i) => Err(
                invalid_pattern_message(
                    rules[i].name@,
                    spec_regex_error(rules[i].match_pattern@)->0,
                ),
            ),
            None => Ok(sort_by_priority(rules)),
        },
    }
}

/// The parser built from configured rules.
#[derive(Debug)]
pub struct RuleBasedParser {
    rules: Vec<ParseRule>,
}

impl View for RuleBasedParser {
    type V = Seq<ParseRule>;

    /// The rules in the order they are tried.
    closed spec fn view(&self) -> Seq<ParseRule> {
        self.rules@
    }
}

fn duplicate_index(rules: &Vec<ParseRule>) -> (r: Option<usize>)
    ensures
        match r {
            Some(i) => i < rules@.len() && first_duplicate(rules@) == Some(i as int),
            None => first_duplicate(rules@) is None,
        },
{
    let ghost rs = rules@;
    let mut i: usize = 0;
    while i < rules.len()
        invariant
            i <= rs.len(),
            rs == rules@,
            forall|k: int| 0 <= k < i ==> !#[trigger] repeats_name(rs, k),
        decreases rules.len() - i,
    {
        let mut j: usize = 0;
        while j < i
            invariant
                j <= i < rs.len(),
                rs == rules@,
                forall|k: int| 0 <= k < i ==> !#[trigger] repeats_name(rs, k),
                forall|m: int| 0 <= m < j ==> rs[m].name@ != rs[i as int].name@,
            decreases i - j,
        {
            if str_eq(rules[j].name.as_str(), rules[i].name.as_str()) {
                proof {
                    let ii = i as int;
                    assert(repeats_name(rs, ii));
                    let c = choose|c: int|
                        repeats_name(rs, c) && forall|k: int| 0 <= k < c ==> !#[trigger] repeats_name(rs, k);
                    if c < ii {
                        assert(!repeats_name(rs, c));
                    }
                    if c > ii {
                        assert(!repeats_name(rs, ii));
                    }
                }
                return Some(i);
            }
            j = j + 1;
        }
        proof {
            let ii = i as int;
            if repeats_name(rs, ii) {
                let m = choose|m: int| 0 <= m < ii && rs[m].name@ == rs[ii].name@;
                assert(rs[m].name@ != rs[ii].name@);
            }
        }
        i = i + 1;
    }
    proof {
        if exists|k: int| repeats_name(rs, k) {
            let k = choose|k: int| repeats_name(rs, k);
            assert(!repeats_name(rs, k));
        }
    }
    None
}

fn invalid_pattern(rules: &Vec<ParseRule>) -> (r: Option<(usize, String)>)
    ensures
        match r {
            Some((i, e)) => i < rules@.len() && first_invalid_pattern(rules@) == Some(i as int) && spec_regex_error(
                rules@[i as int].match_pattern@,
            ) == Some(e@),
            None => first_invalid_pattern(rules@) is None,
        },
{
    let mut i: usize = 0;
    while i < rules.len()
        invariant
            i <= rules@.len(),
            forall|j: int| 0 <= j < i ==> spec_regex_error(rules@[j].match_pattern@) is None,
        decreases rules.len() - i,
    {
        match regex_error(rules[i].match_pattern.as_str()) {
            Some(e) => {
                proof {
                    let ii = i as int;
                    assert(0 <= ii < rules@.len() && spec_regex_error(rules@[ii].match_pattern@) is Some);
                    let c = choose|k: int|
                        0 <= k < rules@.len() && spec_regex_error(rules@[k].match_pattern@) is Some
                            && forall|j: int|
                            0 <= j < k ==> spec_regex_error(rules@[j].match_pattern@) is None;
                    if c < ii {
                        assert(false);
                    }
                    if c > ii {
                        assert(false);
                    }
                }
                return Some((i, e));
            },
            None => {},
        }
        i = i + 1;
    }
    None
}

/// Inserts a rule before the first rule of equal or larger priority.
fn insert_by_priority(sorted: &mut Vec<ParseRule>, rule: ParseRule)
    ensures
        final(sorted)@ == old(sorted)@.insert(insert_position(old(sorted)@, rule.priority), rule),
{
    let mut i: usize = 0;
    while i < sorted.len() && sorted[i].priority < rule.priority
        invariant
            i <= sorted@.len(),
            sorted@ == old(sorted)@,
            forall|j: int| 0 <= j < i ==> sorted@[j].priority < rule.priority,
        decreases sorted.len() - i,
    {
        i = i + 1;
    }
    proof {
        let s = old(sorted)@;
        if exists|k: int| 0 <= k < s.len() && s[k].priority >= rule.priority {
            let c = insert_position(s, rule.priority);
            assert(i < s.len());
            if c < i {
                assert(false);
            }
            if c > i {
                assert(s[i as int].priority >= rule.priority);
                assert(false);
            }
        } else {
            if i < s.len() {
                assert(s[i as int].priority >= rule.priority);
            }
        }
    }
    sorted.insert(i, rule);
}

/// Sorts rules by priority, keeping the given order among equal priorities.
fn sort_rules(rules: Vec<ParseRule>) -> (r: Vec<ParseRule>)
    ensures
        r@ == sort_by_priority(rules@),
{
    let ghost input = rules@;
    let mut rest = rules;
    let mut sorted: Vec<ParseRule> = Vec::new();
    while rest.len() > 0
        invariant
            rest@ == input.take(rest@.len() as int),
            rest@.len() <= input.len(),
            sorted@ == sort_by_priority(input.skip(rest@.len() as int)),
        decreases rest.len(),
    {
        let ghost k = rest@.len() as int;
        let rule = rest.pop().unwrap();
        proof {
            assert(rule == input[k - 1]);
            assert(input.skip(k - 1).drop_first() =~= input.skip(k));
            assert(input.skip(k - 1)[0] == input[k - 1]);
            assert(rest@ =~= input.take(k - 1));
        }
        insert_by_priority(&mut sorted, rule);
    }
    assert(input.skip(0) =~= input);
    sorted
}

/// The index of the group called `source`.
fn find_named_group(names: &Vec<Option<String>>, source: &str) -> (r: Option<usize>)
    ensures
        match r {
            Some(i) => named_group_index(groups_view(*names), source@) == Some(i as int),
            None => named_group_index(groups_view(*names), source@) is None,
        },
{
    let ghost nv = groups_view(*names);
    let mut i: usize = 0;
    while i < names.len()
        invariant
            i <= names@.len(),
            nv == groups_view(*names),
            forall|j: int| 0 <= j < i ==> nv[j] != Some(source@),
        decreases names.len() - i,
    {
        let is_it = match &names[i] {
            Some(n) => str_eq(n.as_str(), source),
            None => false,
        };
        assert(is_it == (nv[i as int] == Some(source@)));
        if is_it {
            proof {
                let ii = i as int;
                assert(0 <= ii < nv.len() && nv[ii] == Some(source@));
                let c = named_group_index(nv, source@)->0;
                if c < ii {
                    assert(nv[c] != Some(source@));
                }
                if c > ii {
                    assert(nv[ii] != Some(source@));
                }
            }
            return Some(i);
        }
        i = i + 1;
    }
    proof {
        if exists|k: int| 0 <= k < nv.len() && nv[k] == Some(source@) {
            let k = choose|k: int| 0 <= k < nv.len() && nv[k] == Some(source@);
            assert(nv[k] != Some(source@));
        }
    }
    None
}

fn mapping_value_of(
    names: &Vec<Option<String>>,
    groups: &Vec<Option<String>>,
    source: &str,
) -> (r: Option<String>)
    ensures
        ov(r) == mapping_value(groups_view(*names), groups_view(*groups), source@),
{
    let by_name = match find_named_group(names, source) {
        Some(i) => if i < groups.len() {
            clone_opt(&groups[i])
        } else {
            None
        },
        None => None,
    };
    if by_name.is_some() {
        return by_name;
    }
    match parse_unsigned_u64(source, usize::MAX as u64) {
        Some(idx) => {
            let idx = idx as usize;
            if idx < groups.len() {
                clone_opt(&groups[idx])
            } else {
                None
            }
        },
        None => None,
    }
}

fn apply_mapping_exec(
    e: &mut CanonicalEvent,
    m: &FieldMapping,
    names: &Vec<Option<String>>,
    groups: &Vec<Option<String>>,
)
    ensures
        final(e)@ == apply_mapping(old(e)@, m@, groups_view(*names), groups_view(*groups)),
{
    match mapping_value_of(names, groups, m.source.as_str()) {
        Some(val) => {
            let t = apply_transform(val.as_str(), &m.transform);
            let target = m.target.as_str();
            if str_eq(target, "src_ip") {
                e.src_ip = Some(t);
            } else if str_eq(target, "dst_ip") {
                e.dst_ip = Some(t);
            } else if str_eq(target, "src_port") {
                e.src_port = parse_port(t.as_str());
            } else if str_eq(target, "dst_port") {
                e.dst_port = parse_port(t.as_str());
            } else if str_eq(target, "protocol") {
                e.protocol = Some(t);
            } else if str_eq(target, "action") {
                e.action = Some(t);
            } else if str_eq(target, "severity") {
                e.severity = Some(t);
            } else if str_eq(target, "device_id") {
                e.device_id = Some(t);
            } else if str_eq(target, "vendor") {
                e.vendor = Some(t);
            } else if str_eq(target, "product") {
                e.product = Some(t);
            }
        },
        None => {},
    }
}

/// The event one rule gives for a line whose pattern matched with the given groups, or
/// `None` when it fills none of the fields that count.
pub fn rule_event(
    rule: &ParseRule,
    raw: &RawLog,
    names: &Vec<Option<String>>,
    groups: &Vec<Option<String>>,
) -> (r: Option<CanonicalEvent>)
    ensures
        ({
            let e = apply_mappings(
                rule_base_event(rule.name@, raw.raw@, raw.ingest_time, raw.source_addr@),
                mappings_view(rule.field_mappings@),
                groups_view(*names),
                groups_view(*groups),
            );
            match r {
                Some(ev) => rule_has_any_field(e) && ev@ == classified(e),
                None => !rule_has_any_field(e),
            }
        }),
{
    let mut event = CanonicalEvent {
        event_id: make_event_id(raw.raw.as_str(), raw.ingest_time, raw.source_addr.as_str()),
        ingest_time: raw.ingest_time,
        source_addr: raw.source_addr.clone(),
        device_id: None,
        event_time: None,
        vendor: Some(rule.name.clone()),
        product: None,
        src_ip: None,
        src_port: None,
        dst_ip: None,
        dst_port: None,
        protocol: None,
        action: None,
        severity: None,
        raw: raw.raw.clone(),
        parse_status: ParseStatus::Parsed,
        parse_error: None,
    };
    let ghost base = event@;
    let ghost ms = mappings_view(rule.field_mappings@);
    let mut k: usize = 0;
    while k < rule.field_mappings.len()
        invariant
            k <= rule.field_mappings@.len(),
            ms == mappings_view(rule.field_mappings@),
            event@ == apply_mappings(base, ms.take(k as int), groups_view(*names), groups_view(*groups)),
        decreases rule.field_mappings.len() - k,
    {
        apply_mapping_exec(&mut event, &rule.field_mappings[k], names, groups);
        assert(ms.take(k + 1).drop_last() =~= ms.take(k as int));
        k = k + 1;
    }
    assert(ms.take(ms.len() as int) =~= ms);
    let has_any_field = event.src_ip.is_some() || event.dst_ip.is_some() || event.protocol.is_some()
        || event.action.is_some();
    if has_any_field {
        event.classify_firewall_tuple();
        Some(event)
    } else {
        None
    }
}

fn duplicate_error(name: &str) -> (r: String)
    ensures
        r@ == duplicate_message(name@),
{
    let head = concat("duplicate rule name '", name);
    concat(head.as_str(), "' in ruleset")
}

fn invalid_pattern_error(name: &str, error: &str) -> (r: String)
    ensures
        r@ == invalid_pattern_message(name@, error@),
{
    let head = concat("invalid regex in rule '", name);
    let mid = concat(head.as_str(), "': ");
    concat(mid.as_str(), error)
}

impl RuleBasedParser {
    pub const PARSER_ID: &'static str = "parser:rule_based_v1";

    pub const PARSER_NAME: &'static str = "RuleBased";

    /// How many rules are loaded.
    pub fn rule_count(&self) -> (r: usize)
        ensures
            r == self@.len(),
    {
        self.rules.len()
    }

    /// A parser with no rules.
    pub fn empty() -> (r: Self)
        ensures
            r@ == Seq::<ParseRule>::empty(),
    {
        RuleBasedParser { rules: Vec::new() }
    }

    /// Builds a parser from rules: names must be distinct and every pattern must compile;
    /// the rules are then tried in ascending priority, equal priorities in the given order.
    pub fn from_rules(rules: Vec<ParseRule>) -> (r: Result<Self, String>)
        ensures
            match r {
                Ok(p) => spec_from_rules(rules@) == Ok::<Seq<ParseRule>, Seq<char>>(p@),
                Err(e) => spec_from_rules(rules@) == Err::<Seq<ParseRule>, Seq<char>>(e@),
            },
    {
        match duplicate_index(&rules) {
            Some(i) => {
                return Err(duplicate_error(rules[i].name.as_str()));
            },
            None => {},
        }
        match invalid_pattern(&rules) {
            Some((i, e)) => {
                return Err(invalid_pattern_error(rules[i].name.as_str(), e.as_str()));
            },
            None => {},
        }
        let sorted = sort_rules(rules);
        Ok(RuleBasedParser { rules: sorted })
    }

    /// Whether there is any rule to try.
    pub fn can_parse(&self, _raw: &RawLog) -> (r: bool)
        ensures
            r == (self@.len() > 0),
    {
        self.rules.len() > 0
    }

    /// Tries the rules in order; the first whose pattern matches and fills a field that
    /// counts gives the event, else the line fails.
    pub fn parse(&self, raw: RawLog) -> (e: CanonicalEvent)
        ensures
            e@ == spec_rule_parse(self@, raw.raw@, raw.ingest_time, raw.source_addr@),
    {
        let ghost rules = self.rules@;
        assert(rules.skip(0) =~= rules);
        let mut i: usize = 0;
        while i < self.rules.len()
            invariant
                i <= rules.len(),
                rules == self.rules@,
                spec_rule_parse(rules, raw.raw@, raw.ingest_time, raw.source_addr@)
                    == spec_rule_parse(rules.skip(i as int), raw.raw@, raw.ingest_time, raw.source_addr@),
            decreases self.rules.len() - i,
        {
            let rule = &self.rules[i];
            proof {
                assert(rules.skip(i as int)[0] == rules[i as int]);
                assert(rules.skip(i as int).drop_first() =~= rules.skip(i + 1));
            }
            match regex_captures(rule.match_pattern.as_str(), raw.raw.as_str()) {
                Some(groups) => {
                    let names = regex_group_names(rule.match_pattern.as_str());
                    match rule_event(rule, &raw, &names, &groups) {
                        Some(ev) => {
                            return ev;
                        },
                        None => {},
                    }
                },
                None => {},
            }
            i = i + 1;
        }
        assert(rules.skip(i as int).len() == 0);
        CanonicalEvent::failed(raw, "rule-based parser: no rule matched")
    }
}

} // verus!
