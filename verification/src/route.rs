//! The order in which parsers are tried for a source scope.
use vstd::prelude::*;
use crate::text::{owned, str_eq};

verus! {

pub const SANGFOR_PARSER_ID: &'static str = "parser:sangfor_nat_v1";

pub const GENERIC_KV_PARSER_ID: &'static str = "parser:generic_kv_v1";

pub const RULE_BASED_PARSER_ID: &'static str = "parser:rule_based_v1";

/// Views of a list of strings.
pub open spec fn strs(v: Seq<String>) -> Seq<Seq<char>> {
    v.map_values(|s: String| s@)
}

/// A list of parser ids tried in order.
#[derive(Debug, Clone, PartialEq, Eq)]
pub struct StaticRouteGroup {
    parser_ids: Vec<String>,
}

/// Parser ids pinned to one scope, tried before the defaults.
#[derive(Debug, Clone, PartialEq, Eq)]
pub struct PinnedScopeParsers {
    pub scope_key: String,
    pub parser_ids: Vec<String>,
}

/// The defaults and the per-scope pins.
#[derive(Debug, Clone)]
pub struct RouteSnapshot {
    default_groups: Vec<StaticRouteGroup>,
    scoped_pins: Vec<(String, StaticRouteGroup)>,
}

/// Whether `id` is one of the two fallback parsers that stay last.
pub open spec fn is_fallback_id(id: Seq<char>) -> bool {
    id == GENERIC_KV_PARSER_ID@ || id == RULE_BASED_PARSER_ID@
}

/// Position of the first fallback parser id, or the length when there is none.
pub open spec fn first_fallback(ids: Seq<Seq<char>>) -> int
    decreases ids.len(),
{
    if ids.len() == 0 {
        0
    } else if is_fallback_id(ids[0]) {
        0
    } else {
        1 + first_fallback(ids.drop_first())
    }
}

/// `ids` with `id` inserted before the first fallback parser, unless it is already there.
pub open spec fn spec_insert_before_fallback(ids: Seq<Seq<char>>, id: Seq<char>) -> Seq<Seq<char>> {
    if ids.contains(id) {
        ids
    } else {
        ids.insert(first_fallback(ids), id)
    }
}

/// `ids` with later repetitions removed, first occurrences in their order.
pub open spec fn spec_dedupe(ids: Seq<Seq<char>>) -> Seq<Seq<char>>
    decreases ids.len(),
{
    if ids.len() == 0 {
        Seq::empty()
    } else {
        let d = spec_dedupe(ids.drop_last());
        if d.contains(ids.last()) {
            d
        } else {
            d.push(ids.last())
        }
    }
}

/// The pins as a map: a later pin for the same scope replaces an earlier one.
pub open spec fn pin_map(pins: Seq<(Seq<char>, Seq<Seq<char>>)>) -> Map<Seq<char>, Seq<Seq<char>>>
    decreases pins.len(),
{
    if pins.len() == 0 {
        Map::empty()
    } else {
        pin_map(pins.drop_last()).insert(pins.last().0, pins.last().1)
    }
}

/// All default ids, group after group.
pub open spec fn flat_groups(groups: Seq<Seq<Seq<char>>>) -> Seq<Seq<char>>
    decreases groups.len(),
{
    if groups.len() == 0 {
        Seq::empty()
    } else {
        flat_groups(groups.drop_last()) + groups.last()
    }
}

/// The route for a scope: its pinned ids first, then every default id not pinned.
pub open spec fn spec_route(
    groups: Seq<Seq<Seq<char>>>,
    pins: Map<Seq<char>, Seq<Seq<char>>>,
    scope_key: Seq<char>,
) -> Seq<Seq<char>> {
    if pins.contains_key(scope_key) {
        let pinned = pins[scope_key];
        pinned + flat_groups(groups).filter(|id: Seq<char>| !pinned.contains(id))
    } else {
        flat_groups(groups)
    }
}

impl StaticRouteGroup {
    pub closed spec fn ids(self) -> Seq<Seq<char>> {
        strs(self.parser_ids@)
    }

    pub fn new(parser_ids: Vec<String>) -> (r: StaticRouteGroup)
        ensures
            r.ids() == strs(parser_ids@),
    {
        StaticRouteGroup { parser_ids }
    }

    pub fn parser_ids(&self) -> (r: &[String])
        ensures
            strs(r@) == self.ids(),
    {
        self.parser_ids.as_slice()
    }

    fn insert_before_generic_fallback(&mut self, parser_id: &str)
        ensures
            final(self).ids() == spec_insert_before_fallback(old(self).ids(), parser_id@),
    {
        let ghost ids = self.ids();
        let mut i: usize = 0;
        while i < self.parser_ids.len()
            invariant
                ids == strs(self.parser_ids@),
                i <= self.parser_ids@.len(),
                forall|k: int| 0 <= k < i ==> ids[k] != parser_id@,
            decreases self.parser_ids.len() - i,
        {
            if str_eq(self.parser_ids[i].as_str(), parser_id) {
                assert(ids[i as int] == parser_id@);
                assert(ids.contains(parser_id@));
                return;
            }
            i = i + 1;
        }
        assert(!ids.contains(parser_id@));
        let mut index: usize = 0;
        assert(ids.skip(0) =~= ids);
        while index < self.parser_ids.len() && !str_eq(self.parser_ids[index].as_str(), GENERIC_KV_PARSER_ID)
            && !str_eq(self.parser_ids[index].as_str(), RULE_BASED_PARSER_ID)
            invariant
                ids == strs(self.parser_ids@),
                index <= ids.len(),
                first_fallback(ids) == index + first_fallback(ids.skip(index as int)),
            decreases self.parser_ids.len() - index,
        {
            assert(ids.skip(index as int).drop_first() =~= ids.skip(index + 1));
            index = index + 1;
        }
        assert(first_fallback(ids.skip(index as int)) == 0);
        let ghost old_v = self.parser_ids@;
        self.parser_ids.insert(index, owned(parser_id));
        assert(strs(self.parser_ids@) =~= ids.insert(index as int, parser_id@));
    }
}

impl RouteSnapshot {
    pub closed spec fn groups(self) -> Seq<Seq<Seq<char>>> {
        self.default_groups@.map_values(|g: StaticRouteGroup| g.ids())
    }

    pub closed spec fn pin_entries(self) -> Seq<(Seq<char>, Seq<Seq<char>>)> {
        self.scoped_pins@.map_values(|p: (String, StaticRouteGroup)| (p.0@, p.1.ids()))
    }

    pub open spec fn pins(self) -> Map<Seq<char>, Seq<Seq<char>>> {
        pin_map(self.pin_entries())
    }

    /// The built-in order: Sangfor, then the generic key/value parser, then the rule parser.
    pub fn default_static() -> (r: RouteSnapshot)
        ensures
            r.groups() == seq![
                seq![SANGFOR_PARSER_ID@, GENERIC_KV_PARSER_ID@, RULE_BASED_PARSER_ID@],
            ],
            r.pins() == Map::<Seq<char>, Seq<Seq<char>>>::empty(),
            r.pin_entries() == Seq::<(Seq<char>, Seq<Seq<char>>)>::empty(),
    {
        let mut ids: Vec<String> = Vec::new();
        ids.push(owned(SANGFOR_PARSER_ID));
        ids.push(owned(GENERIC_KV_PARSER_ID));
        ids.push(owned(RULE_BASED_PARSER_ID));
        assert(strs(ids@) =~= seq![SANGFOR_PARSER_ID@, GENERIC_KV_PARSER_ID@, RULE_BASED_PARSER_ID@]);
        let mut groups: Vec<StaticRouteGroup> = Vec::new();
        groups.push(StaticRouteGroup::new(ids));
        let r = RouteSnapshot { default_groups: groups, scoped_pins: Vec::new() };
        assert(r.groups() =~= seq![
            seq![SANGFOR_PARSER_ID@, GENERIC_KV_PARSER_ID@, RULE_BASED_PARSER_ID@],
        ]);
        assert(r.pin_entries() =~= Seq::<(Seq<char>, Seq<Seq<char>>)>::empty());
        r
    }

    /// The built-in order with each pin's ids (repetitions dropped) for its scope;
    /// a later pin for the same scope replaces an earlier one.
    pub fn with_pins(pins: Vec<PinnedScopeParsers>) -> (r: RouteSnapshot)
        ensures
            r.groups() == seq![
                seq![SANGFOR_PARSER_ID@, GENERIC_KV_PARSER_ID@, RULE_BASED_PARSER_ID@],
            ],
            r.pins() == pin_map(
                pins@.map_values(
                    |p: PinnedScopeParsers| (p.scope_key@, spec_dedupe(strs(p.parser_ids@))),
                ),
            ),
    {
        let mut snapshot = Self::default_static();
        let ghost target = pins@.map_values(
            |p: PinnedScopeParsers| (p.scope_key@, spec_dedupe(strs(p.parser_ids@))),
        );
        let mut pins = pins;
        let mut taken: Vec<PinnedScopeParsers> = Vec::new();
        let ghost all = pins@;
        let mut i: usize = 0;
        let n = pins.len();
        assert(target.take(0) =~= Seq::<(Seq<char>, Seq<Seq<char>>)>::empty());
        while i < n
            invariant
                n == all.len(),
                i <= n,
                target == all.map_values(
                    |p: PinnedScopeParsers| (p.scope_key@, spec_dedupe(strs(p.parser_ids@))),
                ),
                snapshot.groups() == seq![
                    seq![SANGFOR_PARSER_ID@, GENERIC_KV_PARSER_ID@, RULE_BASED_PARSER_ID@],
                ],
                snapshot.pin_entries() == target.take(i as int),
                pins@ == all,
            decreases n - i,
        {
            let pin = &pins[i];
            let key = pin.scope_key.clone();
            let ids = dedupe_preserving_order(&pin.parser_ids);
            let ghost before = snapshot.pin_entries();
            snapshot.scoped_pins.push((key, StaticRouteGroup::new(ids)));
            assert(snapshot.pin_entries() =~= before.push(target[i as int]));
            i = i + 1;
            assert(target.take(i as int) =~= target.take(i - 1).push(target[i - 1]));
        }
        assert(target.take(n as int) =~= target);
        snapshot
    }

    /// Adds a parser id to the default order, before the fallback parsers.
    pub fn register_default_adapter(&mut self, parser_id: &str)
        ensures
            final(self).pins() == old(self).pins(),
            old(self).groups().len() == 0 ==> final(self).groups() == old(self).groups(),
            old(self).groups().len() > 0 ==> final(self).groups() == old(self).groups().update(
                0,
                spec_insert_before_fallback(old(self).groups()[0], parser_id@),
            ),
    {
        if self.default_groups.len() > 0 {
            let ghost before = self.groups();
            let mut group = self.default_groups.remove(0);
            group.insert_before_generic_fallback(parser_id);
            self.default_groups.insert(0, group);
            assert(self.groups() =~= before.update(
                0,
                spec_insert_before_fallback(before[0], parser_id@),
            ));
        }
    }

    /// The parser ids to try for a scope, in order.
    pub fn parser_ids_for(&self, scope_key: &str) -> (r: Vec<String>)
        ensures
            strs(r@) == spec_route(self.groups(), self.pins(), scope_key@),
    {
        let pinned = self.pinned_for(scope_key);
        let mut out: Vec<String> = Vec::new();
        let ghost pinned_ids: Seq<Seq<char>> = match pinned {
            Some(p) => p.ids(),
            None => Seq::empty(),
        };
        match pinned {
            Some(p) => {
                let ids = p.parser_ids();
                let mut k: usize = 0;
                while k < ids.len()
                    invariant
                        k <= ids@.len(),
                        strs(ids@) == pinned_ids,
                        strs(out@) == pinned_ids.take(k as int),
                    decreases ids.len() - k,
                {
                    let ghost before = strs(out@);
                    out.push(ids[k].clone());
                    assert(strs(out@) =~= before.push(ids@[k as int]@));
                    k = k + 1;
                    assert(strs(out@) =~= pinned_ids.take(k as int));
                }
                assert(pinned_ids.take(ids@.len() as int) =~= pinned_ids);
            },
            None => {
                assert(strs(out@) =~= pinned_ids);
            },
        }
        let ghost groups = self.groups();
        let mut g: usize = 0;
        while g < self.default_groups.len()
            invariant
                g <= self.default_groups@.len(),
                groups == self.groups(),
                pinned_ids == match pinned {
                    Some(p) => p.ids(),
                    None => Seq::<Seq<char>>::empty(),
                },
                strs(out@) == pinned_ids + flat_groups(groups.take(g as int)).filter(
                    |id: Seq<char>| !pinned_ids.contains(id),
                ),
            decreases self.default_groups.len() - g,
        {
            let ids = self.default_groups[g].parser_ids();
            let ghost gi = groups[g as int];
            let ghost base = flat_groups(groups.take(g as int));
            assert(groups.take(g + 1).drop_last() =~= groups.take(g as int));
            let mut k: usize = 0;
            while k < ids.len()
                invariant
                    k <= ids@.len(),
                    strs(ids@) == gi,
                    pinned_ids == match pinned {
                        Some(p) => p.ids(),
                        None => Seq::<Seq<char>>::empty(),
                    },
                    strs(out@) == pinned_ids + (base + gi.take(k as int)).filter(
                        |id: Seq<char>| !pinned_ids.contains(id),
                    ),
                decreases ids.len() - k,
            {
                let already = contains_id(&pinned, ids[k].as_str());
                let ghost prev = base + gi.take(k as int);
                assert(base + gi.take(k + 1) =~= prev.push(gi[k as int]));
                proof {
                    lemma_filter_push(prev, pinned_ids, gi[k as int]);
                }
                let ghost before = strs(out@);
                if !already {
                    out.push(ids[k].clone());
                    assert(strs(out@) =~= before.push(ids@[k as int]@));
                } else {
                    assert(strs(out@) =~= before);
                }
                assert(ids@[k as int]@ == gi[k as int]);
                proof {
                    match pinned {
                        Some(p) => {
                            assert(pinned_ids == p.ids());
                        },
                        None => {
                            assert(pinned_ids.len() == 0);
                            assert(!pinned_ids.contains(gi[k as int]));
                        },
                    }
                }
                assert(already == pinned_ids.contains(gi[k as int]));
                k = k + 1;
                assert(strs(out@) =~= pinned_ids + (base + gi.take(k as int)).filter(
                    |id: Seq<char>| !pinned_ids.contains(id),
                ));
            }
            assert(gi.take(ids@.len() as int) =~= gi);
            g = g + 1;
        }
        assert(groups.take(self.default_groups@.len() as int) =~= groups);
        proof {
            if !self.pins().contains_key(scope_key@) {
                lemma_filter_nothing_pinned(flat_groups(groups), pinned_ids);
            }
        }
        out
    }

    /// The pin group of a scope, if it has one.
    fn pinned_for(&self, scope_key: &str) -> (r: Option<&StaticRouteGroup>)
        ensures
            r matches Some(g) ==> self.pins().contains_key(scope_key@) && self.pins()[scope_key@]
                == g.ids(),
            r is None ==> !self.pins().contains_key(scope_key@),
    {
        let ghost entries = self.pin_entries();
        let mut i: usize = self.scoped_pins.len();
        while i > 0
            invariant
                i <= self.scoped_pins@.len(),
                entries == self.pin_entries(),
                forall|k: int| i <= k < entries.len() ==> entries[k].0 != scope_key@,
            decreases i,
        {
            if str_eq(self.scoped_pins[i - 1].0.as_str(), scope_key) {
                proof {
                    lemma_pin_map_last(entries, i - 1, scope_key@);
                }
                return Some(&self.scoped_pins[i - 1].1);
            }
            i = i - 1;
        }
        proof {
            lemma_pin_map_absent(entries, scope_key@);
        }
        None
    }

    /// Calls `visit` on each parser id of the scope's route, in order.
    pub fn for_each_parser_id<F: FnMut(&str)>(&self, scope_key: &str, mut visit: F)
        requires
            forall|id: &str| call_requires(visit, (id,)),
    {
        let ids = self.parser_ids_for(scope_key);
        let mut i: usize = 0;
        while i < ids.len()
            invariant
                forall|id: &str| call_requires(visit, (id,)),
            decreases ids.len() - i,
        {
            visit(ids[i].as_str());
            i = i + 1;
        }
    }
}

fn contains_id(group: &Option<&StaticRouteGroup>, id: &str) -> (r: bool)
    ensures
        r == (match group {
            Some(g) => g.ids().contains(id@),
            None => false,
        }),
{
    match group {
        None => false,
        Some(g) => {
            let ids = g.parser_ids();
            strs_contains(ids, id)
        },
    }
}

/// Whether `id` is among `ids`.
pub fn strs_contains(ids: &[String], id: &str) -> (r: bool)
    ensures
        r == strs(ids@).contains(id@),
{
    let mut k: usize = 0;
    while k < ids.len()
        invariant
            k <= ids@.len(),
            forall|j: int| 0 <= j < k ==> strs(ids@)[j] != id@,
        decreases ids.len() - k,
    {
        if str_eq(ids[k].as_str(), id) {
            assert(strs(ids@)[k as int] == id@);
            return true;
        }
        k = k + 1;
    }
    false
}

/// `ids` with later repetitions removed.
fn dedupe_preserving_order(ids: &Vec<String>) -> (r: Vec<String>)
    ensures
        strs(r@) == spec_dedupe(strs(ids@)),
{
    let ghost all = strs(ids@);
    let mut out: Vec<String> = Vec::new();
    let mut i: usize = 0;
    while i < ids.len()
        invariant
            i <= ids@.len(),
            all == strs(ids@),
            strs(out@) == spec_dedupe(all.take(i as int)),
        decreases ids.len() - i,
    {
        assert(all.take(i + 1).drop_last() =~= all.take(i as int));
        assert(all.take(i + 1).last() == all[i as int]);
        if !strs_contains(out.as_slice(), ids[i].as_str()) {
            out.push(ids[i].clone());
            assert(strs(out@) =~= spec_dedupe(all.take(i as int)).push(all[i as int]));
        }
        i = i + 1;
    }
    assert(all.take(ids@.len() as int) =~= all);
    out
}

proof fn lemma_filter_push(prev: Seq<Seq<char>>, pinned: Seq<Seq<char>>, x: Seq<char>)
    ensures
        prev.push(x).filter(|id: Seq<char>| !pinned.contains(id)) == if !pinned.contains(x) {
            prev.filter(|id: Seq<char>| !pinned.contains(id)).push(x)
        } else {
            prev.filter(|id: Seq<char>| !pinned.contains(id))
        },
{
    reveal_with_fuel(Seq::filter, 1);
    assert(prev.push(x).drop_last() =~= prev);
}

proof fn lemma_filter_nothing_pinned(s: Seq<Seq<char>>, pinned: Seq<Seq<char>>)
    requires
        pinned.len() == 0,
    ensures
        s.filter(|id: Seq<char>| !pinned.contains(id)) == s,
    decreases s.len(),
{
    reveal_with_fuel(Seq::filter, 1);
    if s.len() > 0 {
        lemma_filter_nothing_pinned(s.drop_last(), pinned);
        assert(!pinned.contains(s.last()));
        assert(s.drop_last().push(s.last()) =~= s);
    } else {
        assert(s.filter(|id: Seq<char>| !pinned.contains(id)) =~= s);
    }
}

proof fn lemma_pin_map_absent(entries: Seq<(Seq<char>, Seq<Seq<char>>)>, key: Seq<char>)
    requires
        forall|k: int| 0 <= k < entries.len() ==> entries[k].0 != key,
    ensures
        !pin_map(entries).contains_key(key),
    decreases entries.len(),
{
    if entries.len() > 0 {
        lemma_pin_map_absent(entries.drop_last(), key);
    }
}

proof fn lemma_pin_map_last(entries: Seq<(Seq<char>, Seq<Seq<char>>)>, i: int, key: Seq<char>)
    requires
        0 <= i < entries.len(),
        entries[i].0 == key,
        forall|k: int| i < k < entries.len() ==> entries[k].0 != key,
    ensures
        pin_map(entries).contains_key(key),
        pin_map(entries)[key] == entries[i].1,
    decreases entries.len(),
{
    if i < entries.len() - 1 {
        lemma_pin_map_last(entries.drop_last(), i, key);
    }
}

} // verus!
