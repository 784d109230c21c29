//! Bounded key/value pair extraction from raw lines.
use vstd::prelude::*;
use crate::text::{char_is_ascii_ws, char_is_whitespace, is_ascii_ws, is_unicode_ws, leading_ws,
    trailing_ws, trim_seq, lemma_leading_ws_bound, lemma_trailing_ws_bound, chars_of, owned};

verus! {

/// A key and value found in a line, borrowed from it.
#[derive(Debug, Clone, Copy, PartialEq, Eq)]
pub struct GenericPair<'a> {
    pub key: &'a str,
    pub value: &'a str,
}

/// At most `N` pairs in the order they appear.
#[derive(Debug, Clone, PartialEq, Eq)]
pub struct GenericPairs<'a, const N: usize> {
    pub pairs: Vec<GenericPair<'a>>,
}

impl<'a, const N: usize> GenericPairs<'a, N> {
    pub fn new() -> (r: Self)
        ensures
            r.pairs@.len() == 0,
    {
        GenericPairs { pairs: Vec::new() }
    }

    pub open spec fn pair_views(self) -> Seq<(Seq<char>, Seq<char>)> {
        self.pairs@.map_values(|p: GenericPair<'a>| (p.key@, p.value@))
    }
}

/// What the extractor noticed while scanning one line.
#[derive(Debug, Clone, PartialEq, Eq)]
pub struct ExtractDiagnostics {
    pub line_truncated: bool,
    pub pairs_truncated: bool,
    pub reason: Option<String>,
}

impl Default for ExtractDiagnostics {
    fn default() -> (r: Self)
        ensures
            !r.line_truncated,
            !r.pairs_truncated,
            r.reason is None,
    {
        ExtractDiagnostics { line_truncated: false, pairs_truncated: false, reason: None }
    }
}

impl ExtractDiagnostics {
    pub fn clear(&mut self)
        ensures
            !final(self).line_truncated,
            !final(self).pairs_truncated,
            final(self).reason is None,
    {
        self.line_truncated = false;
        self.pairs_truncated = false;
        self.reason = None;
    }
}

/// Characters that end a field: ASCII whitespace, `,`, `;` and `|`.
pub open spec fn is_field_sep(c: char) -> bool {
    is_ascii_ws(c) || c == ',' || c == ';' || c == '|'
}

/// Characters after which an over-long line may be cut.
pub open spec fn is_cut_delim(c: char) -> bool {
    c == ' ' || c == '\t' || c == '\r' || c == '\n' || c == ',' || c == ';' || c == '|'
}

/// Number of UTF-8 bytes that encode `c`.
pub open spec fn utf8_width(c: char) -> nat {
    if (c as u32) < 0x80 {
        1
    } else if (c as u32) < 0x800 {
        2
    } else if (c as u32) < 0x10000 {
        3
    } else {
        4
    }
}

/// Byte offset of character position `j` in the UTF-8 encoding of `s`.
pub open spec fn byte_offset(s: Seq<char>, j: int) -> nat
    decreases j,
{
    if j <= 0 || s.len() == 0 {
        0
    } else if j > s.len() {
        byte_offset(s, s.len() as int)
    } else {
        byte_offset(s, j - 1) + utf8_width(s[j - 1])
    }
}

/// Position `j` holds a delimiter whose byte lies before `limit`.
pub open spec fn cut_candidate(s: Seq<char>, limit: int, j: int) -> bool {
    0 <= j < s.len() && is_cut_delim(s[j]) && byte_offset(s, j) < limit
}

/// The part of a line the extractor scans: the whole line when it fits in `max` bytes,
/// otherwise the line up to (not including) its last delimiter before byte `max`,
/// and nothing when there is no such delimiter.
pub open spec fn scan_window(s: Seq<char>, max: nat) -> Option<Seq<char>> {
    if byte_offset(s, s.len() as int) <= max {
        Some(s)
    } else if exists|j: int| cut_candidate(s, max as int, j) {
        let j = choose|j: int|
            cut_candidate(s, max as int, j) && forall|k: int|
                cut_candidate(s, max as int, k) ==> k <= j;
        Some(s.take(j))
    } else {
        None
    }
}

pub open spec fn skip_seps(s: Seq<char>, i: int) -> int
    decreases s.len() - i,
{
    if 0 <= i < s.len() && is_field_sep(s[i]) {
        skip_seps(s, i + 1)
    } else {
        i
    }
}

pub open spec fn next_sep(s: Seq<char>, i: int) -> int
    decreases s.len() - i,
{
    if 0 <= i < s.len() && !is_field_sep(s[i]) {
        next_sep(s, i + 1)
    } else {
        i
    }
}

pub open spec fn skip_ascii_ws(s: Seq<char>, i: int) -> int
    decreases s.len() - i,
{
    if 0 <= i < s.len() && is_ascii_ws(s[i]) {
        skip_ascii_ws(s, i + 1)
    } else {
        i
    }
}

/// Position of the first `=` or `:` at or after `i`, unless a field separator comes first.
pub open spec fn find_assign(s: Seq<char>, i: int) -> Option<int>
    decreases s.len() - i,
{
    if i < 0 || i >= s.len() {
        None
    } else if s[i] == '=' || s[i] == ':' {
        Some(i)
    } else if is_field_sep(s[i]) {
        None
    } else {
        find_assign(s, i + 1)
    }
}

pub proof fn lemma_skip_seps(s: Seq<char>, i: int)
    requires
        0 <= i <= s.len(),
    ensures
        i <= skip_seps(s, i) <= s.len(),
        skip_seps(s, i) < s.len() ==> !is_field_sep(s[skip_seps(s, i)]),
        forall|k: int| i <= k < skip_seps(s, i) ==> is_field_sep(#[trigger] s[k]),
    decreases s.len() - i,
{
    if i < s.len() && is_field_sep(s[i]) {
        lemma_skip_seps(s, i + 1);
    }
}

pub proof fn lemma_next_sep(s: Seq<char>, i: int)
    requires
        0 <= i <= s.len(),
    ensures
        i <= next_sep(s, i) <= s.len(),
        next_sep(s, i) < s.len() ==> is_field_sep(s[next_sep(s, i)]),
        forall|k: int| i <= k < next_sep(s, i) ==> !is_field_sep(#[trigger] s[k]),
    decreases s.len() - i,
{
    if i < s.len() && !is_field_sep(s[i]) {
        lemma_next_sep(s, i + 1);
    }
}

pub proof fn lemma_skip_ascii_ws(s: Seq<char>, i: int)
    requires
        0 <= i <= s.len(),
    ensures
        i <= skip_ascii_ws(s, i) <= s.len(),
        skip_ascii_ws(s, i) < s.len() ==> !is_ascii_ws(s[skip_ascii_ws(s, i)]),
        forall|k: int| i <= k < skip_ascii_ws(s, i) ==> is_ascii_ws(#[trigger] s[k]),
    decreases s.len() - i,
{
    if i < s.len() && is_ascii_ws(s[i]) {
        lemma_skip_ascii_ws(s, i + 1);
    }
}

pub proof fn lemma_find_assign(s: Seq<char>, i: int)
    requires
        0 <= i <= s.len(),
    ensures
        find_assign(s, i) matches Some(p) ==> i <= p < s.len() && (s[p] == '=' || s[p] == ':'),
        find_assign(s, i) matches Some(p) ==> forall|k: int|
            i <= k < p ==> !is_field_sep(#[trigger] s[k]),
    decreases s.len() - i,
{
    if i < s.len() && !(s[i] == '=' || s[i] == ':') && !is_field_sep(s[i]) {
        lemma_find_assign(s, i + 1);
    }
}

/// The key/value pairs of `s` from position `i` on: each field that holds `=` or `:`
/// before its end gives the text before the sign as key and the next field's text
/// (after any ASCII whitespace) as value, both trimmed; pairs with an empty side are dropped.
pub open spec fn pairs_from(s: Seq<char>, i: int) -> Seq<(Seq<char>, Seq<char>)>
    decreases s.len() - i,
{
    if i < 0 || i >= s.len() {
        Seq::empty()
    } else {
        let c = skip_seps(s, i);
        if c >= s.len() {
            Seq::empty()
        } else {
            proof {
                lemma_skip_seps(s, i);
                lemma_find_assign(s, c);
                lemma_next_sep(s, c);
            }
            match find_assign(s, c) {
                None => pairs_from(s, next_sep(s, c)),
                Some(p) => {
                    proof {
                        lemma_skip_ascii_ws(s, p + 1);
                        lemma_next_sep(s, skip_ascii_ws(s, p + 1));
                    }
                    let vs = skip_ascii_ws(s, p + 1);
                    let ve = next_sep(s, vs);
                    let key = trim_seq(s.subrange(c, p));
                    let value = trim_seq(s.subrange(vs, ve));
                    if key.len() > 0 && value.len() > 0 {
                        seq![(key, value)] + pairs_from(s, ve)
                    } else {
                        pairs_from(s, ve)
                    }
                },
            }
        }
    }
}

/// All pairs of a line.
pub open spec fn line_pairs(s: Seq<char>) -> Seq<(Seq<char>, Seq<char>)> {
    pairs_from(s, 0)
}

fn is_field_separator(c: char) -> (r: bool)
    ensures
        r == is_field_sep(c),
{
    char_is_ascii_ws(c) || c == ',' || c == ';' || c == '|'
}

fn char_width(c: char) -> (r: u128)
    ensures
        r == utf8_width(c),
{
    let u = c as u32;
    if u < 0x80 {
        1
    } else if u < 0x800 {
        2
    } else if u < 0x10000 {
        3
    } else {
        4
    }
}

proof fn lemma_byte_offset_step(s: Seq<char>, j: int)
    requires
        0 <= j < s.len(),
    ensures
        byte_offset(s, j + 1) == byte_offset(s, j) + utf8_width(s[j]),
{
}

proof fn lemma_byte_offset_bound(s: Seq<char>, j: int)
    requires
        0 <= j <= s.len(),
    ensures
        byte_offset(s, j) <= 4 * j,
    decreases j,
{
    if j > 0 {
        lemma_byte_offset_bound(s, j - 1);
    }
}

proof fn lemma_byte_offset_monotone(s: Seq<char>, a: int, b: int)
    requires
        0 <= a <= b <= s.len(),
    ensures
        byte_offset(s, a) <= byte_offset(s, b),
    decreases b - a,
{
    if a < b {
        lemma_byte_offset_monotone(s, a, b - 1);
    }
}

/// Decides the scanned window of `v`: `Some(end)` keeps `v[..end]`.
fn bounded_scan_end(v: &[char], max: usize) -> (r: Option<usize>)
    ensures
        r matches Some(end) ==> end <= v@.len() && scan_window(v@, max as nat) == Some(
            v@.take(end as int),
        ),
        r matches Some(end) ==> (end < v@.len() <==> byte_offset(v@, v@.len() as int) > max),
        r is None ==> scan_window(v@, max as nat) is None,
{
    let mut total: u128 = 0;
    let mut last: Option<usize> = None;
    let mut j: usize = 0;
    while j < v.len()
        invariant
            j <= v@.len(),
            total == byte_offset(v@, j as int),
            last matches Some(l) ==> l < j && cut_candidate(v@, max as int, l as int),
            forall|k: int|
                0 <= k < j && cut_candidate(v@, max as int, k) ==> (last matches Some(l) && k <= l),
        decreases v.len() - j,
    {
        proof {
            lemma_byte_offset_step(v@, j as int);
            lemma_byte_offset_bound(v@, j as int);
        }
        let c = v[j];
        if (c == ' ' || c == '\t' || c == '\r' || c == '\n' || c == ',' || c == ';' || c == '|')
            && total < max as u128 {
            last = Some(j);
        }
        total = total + char_width(c);
        j = j + 1;
    }
    if total <= max as u128 {
        assert(v@.take(v@.len() as int) =~= v@);
        return Some(v.len());
    }
    match last {
        Some(l) => {
            assert(cut_candidate(v@, max as int, l as int));
            proof {
                let jj = choose|jj: int|
                    cut_candidate(v@, max as int, jj) && forall|k: int|
                        cut_candidate(v@, max as int, k) ==> k <= jj;
                assert(jj <= l);
                assert(l <= jj);
            }
            Some(l)
        },
        None => {
            None
        },
    }
}

/// Trimmed bounds of `v[a..b]`.
fn trim_range(v: &[char], a: usize, b: usize) -> (r: (usize, usize))
    requires
        a <= b <= v@.len(),
    ensures
        a <= r.0 <= r.1 <= b,
        v@.subrange(r.0 as int, r.1 as int) == trim_seq(v@.subrange(a as int, b as int)),
{
    let ghost w = v@.subrange(a as int, b as int);
    proof {
        lemma_leading_ws_bound(w);
    }
    let mut x: usize = a;
    while x < b && char_is_whitespace(v[x])
        invariant
            w == v@.subrange(a as int, b as int),
            a <= x <= b,
            b <= v@.len(),
            x - a <= leading_ws(w),
            leading_ws(w) <= w.len(),
            forall|k: int| 0 <= k < leading_ws(w) ==> is_unicode_ws(#[trigger] w[k]),
            leading_ws(w) < w.len() ==> !is_unicode_ws(w[leading_ws(w) as int]),
        decreases b - x,
    {
        assert(w[x - a] == v@[x as int]);
        x = x + 1;
    }
    if x < b {
        assert(w[x - a] == v@[x as int]);
    }
    assert(x - a == leading_ws(w));
    let ghost rest = w.subrange(leading_ws(w) as int, w.len() as int);
    proof {
        lemma_trailing_ws_bound(rest);
    }
    let mut y: usize = b;
    while y > x && char_is_whitespace(v[y - 1])
        invariant
            w == v@.subrange(a as int, b as int),
            a <= x <= y <= b,
            b <= v@.len(),
            x - a == leading_ws(w),
            rest == w.subrange(leading_ws(w) as int, w.len() as int),
            b - y <= trailing_ws(rest),
            trailing_ws(rest) <= rest.len(),
            forall|k: int|
                rest.len() - trailing_ws(rest) <= k < rest.len() ==> is_unicode_ws(#[trigger] rest[k]),
            trailing_ws(rest) < rest.len() ==> !is_unicode_ws(
                rest[rest.len() - trailing_ws(rest) - 1],
            ),
        decreases y,
    {
        assert(rest[y - 1 - x] == v@[y - 1]);
        y = y - 1;
    }
    if y > x {
        assert(rest[y - 1 - x] == v@[y - 1]);
    }
    assert(b - y == trailing_ws(rest));
    assert(v@.subrange(x as int, y as int) =~= trim_seq(w));
    (x, y)
}

fn skip_field_separators(v: &[char], cursor: usize) -> (r: usize)
    requires
        cursor <= v@.len(),
    ensures
        r == skip_seps(v@, cursor as int),
{
    let mut i = cursor;
    while i < v.len() && is_field_separator(v[i])
        invariant
            cursor <= i <= v@.len(),
            skip_seps(v@, i as int) == skip_seps(v@, cursor as int),
        decreases v.len() - i,
    {
        i = i + 1;
    }
    i
}

fn find_value_end(v: &[char], cursor: usize) -> (r: usize)
    requires
        cursor <= v@.len(),
    ensures
        r == next_sep(v@, cursor as int),
{
    let mut i = cursor;
    while i < v.len() && !is_field_separator(v[i])
        invariant
            cursor <= i <= v@.len(),
            next_sep(v@, i as int) == next_sep(v@, cursor as int),
        decreases v.len() - i,
    {
        i = i + 1;
    }
    i
}

fn skip_value_whitespace(v: &[char], cursor: usize) -> (r: usize)
    requires
        cursor <= v@.len(),
    ensures
        r == skip_ascii_ws(v@, cursor as int),
{
    let mut i = cursor;
    while i < v.len() && char_is_ascii_ws(v[i])
        invariant
            cursor <= i <= v@.len(),
            skip_ascii_ws(v@, i as int) == skip_ascii_ws(v@, cursor as int),
        decreases v.len() - i,
    {
        i = i + 1;
    }
    i
}

fn find_assignment_separator(v: &[char], cursor: usize) -> (r: Option<usize>)
    requires
        cursor <= v@.len(),
    ensures
        r matches Some(p) ==> find_assign(v@, cursor as int) == Some(p as int),
        r is None ==> find_assign(v@, cursor as int) is None,
{
    let mut i = cursor;
    while i < v.len()
        invariant
            cursor <= i <= v@.len(),
            find_assign(v@, i as int) == find_assign(v@, cursor as int),
        decreases v.len() - i,
    {
        let c = v[i];
        if c == '=' || c == ':' {
            return Some(i);
        }
        if is_field_separator(c) {
            return None;
        }
        i = i + 1;
    }
    None
}

/// The pairs of `raw` within its first `max_generic_line_bytes` bytes, at most `N` of them.
///
/// The line is scanned whole when it fits; an over-long line is cut at its last delimiter
/// before the limit (`line_truncated`), or skipped with a reason when it has none. When
/// the line holds more than `N` pairs, the first `N` are kept and `pairs_truncated` is set.
pub fn extract_generic_pairs<'a, const N: usize>(
    raw: &'a str,
    max_generic_line_bytes: usize,
    diagnostics: &mut ExtractDiagnostics,
) -> (r: GenericPairs<'a, N>)
    ensures
        scan_window(raw@, max_generic_line_bytes as nat) matches Some(w) ==> {
            let all = line_pairs(w);
            &&& r.pair_views() == all.take(
                if all.len() < N {
                    all.len() as int
                } else {
                    N as int
                },
            )
            &&& final(diagnostics).pairs_truncated == (all.len() > N)
            &&& final(diagnostics).line_truncated == (byte_offset(
                raw@,
                raw@.len() as int,
            ) > max_generic_line_bytes)
            &&& final(diagnostics).reason is None
        },
        scan_window(raw@, max_generic_line_bytes as nat) is None ==> {
            &&& r.pairs@.len() == 0
            &&& !final(diagnostics).pairs_truncated
            &&& !final(diagnostics).line_truncated
            &&& final(diagnostics).reason matches Some(m) && m@
                == "line_too_long_no_safe_boundary"@
        },
{
    diagnostics.clear();
    let chars = chars_of(raw);
    let end = match bounded_scan_end(chars.as_slice(), max_generic_line_bytes) {
        Some(end) => end,
        None => {
            diagnostics.reason = Some(owned("line_too_long_no_safe_boundary"));
            return GenericPairs::new();
        },
    };
    if end < chars.len() {
        diagnostics.line_truncated = true;
    }
    let mut v: Vec<char> = Vec::new();
    let mut t: usize = 0;
    while t < end
        invariant
            end <= chars@.len(),
            t <= end,
            v@ == chars@.take(t as int),
        decreases end - t,
    {
        v.push(chars[t]);
        t = t + 1;
        assert(chars@.take(t as int) =~= chars@.take(t - 1).push(chars@[t - 1]));
    }
    let ghost w = v@;
    let ghost all = line_pairs(w);
    let mut pairs: GenericPairs<'a, N> = GenericPairs::new();
    let mut cursor: usize = 0;
    while cursor < v.len()
        invariant_except_break
            w == v@,
            w == raw@.take(end as int),
            end <= raw@.len(),
            all == line_pairs(w),
            cursor <= w.len(),
            pairs.pairs@.len() <= N,
            all == pairs.pair_views() + pairs_from(w, cursor as int),
            !diagnostics.pairs_truncated,
            diagnostics.reason is None,
            diagnostics.line_truncated == (end < raw@.len()),
        ensures
            w == v@,
            all == line_pairs(w),
            diagnostics.reason is None,
            diagnostics.line_truncated == (end < raw@.len()),
            pairs.pair_views() == all.take(
                if all.len() < N {
                    all.len() as int
                } else {
                    N as int
                },
            ),
            diagnostics.pairs_truncated == (all.len() > N),
        decreases v.len() - cursor,
    {
        let c = skip_field_separators(v.as_slice(), cursor);
        proof {
            lemma_skip_seps(w, cursor as int);
        }
        if c >= v.len() {
            proof {
                assert(pairs_from(w, cursor as int) =~= Seq::<(Seq<char>, Seq<char>)>::empty());
                assert(all =~= pairs.pair_views());
                assert(all.take(all.len() as int) =~= all);
            }
            break;
        }
        proof {
            lemma_find_assign(w, c as int);
            lemma_next_sep(w, c as int);
        }
        match find_assignment_separator(v.as_slice(), c) {
            None => {
                let next = find_value_end(v.as_slice(), c);
                cursor = next;
            },
            Some(p) => {
                let vs = skip_value_whitespace(v.as_slice(), p + 1);
                proof {
                    lemma_skip_ascii_ws(w, p + 1);
                    lemma_next_sep(w, vs as int);
                }
                let ve = find_value_end(v.as_slice(), vs);
                let (ka, kb) = trim_range(v.as_slice(), c, p);
                let (va, vb) = trim_range(v.as_slice(), vs, ve);
                if ka < kb && va < vb {
                    if pairs.pairs.len() >= N {
                        diagnostics.pairs_truncated = true;
                        proof {
                            let rest = pairs_from(w, cursor as int);
                            assert(rest.len() > 0);
                            assert(all.len() > N);
                            assert(all.take(N as int) =~= pairs.pair_views());
                        }
                        break;
                    }
                    assert(raw@.subrange(ka as int, kb as int) == w.subrange(ka as int, kb as int));
                    assert(raw@.subrange(va as int, vb as int) == w.subrange(va as int, vb as int));
                    let key = raw.substring_char(ka, kb);
                    let value = raw.substring_char(va, vb);
                    let ghost before = pairs.pair_views();
                    pairs.pairs.push(GenericPair { key, value });
                    assert(pairs.pair_views() =~= before.push((key@, value@)));
                    assert(pairs_from(w, cursor as int) =~= seq![(key@, value@)] + pairs_from(
                        w,
                        ve as int,
                    ));
                    assert(all =~= pairs.pair_views() + pairs_from(w, ve as int));
                } else {
                    assert(pairs_from(w, cursor as int) =~= pairs_from(w, ve as int));
                }
                cursor = ve;
            },
        }
    }
    pairs
}

} // verus!
