//! Textual IP addresses as the standard library reads them: IPv4 dotted quads without
//! leading zeros, and IPv6 groups with at most one `::` and an optional trailing IPv4 part.
use vstd::prelude::*;
use crate::text::{chars_of, digits_value};

verus! {

pub open spec fn is_dec_digit(c: char) -> bool {
    '0' <= c && c <= '9'
}

pub open spec fn is_hex_digit(c: char) -> bool {
    ('0' <= c && c <= '9') || ('a' <= c && c <= 'f') || ('A' <= c && c <= 'F')
}

/// Length of the run of decimal digits starting at `i`.
pub open spec fn dec_run(s: Seq<char>, i: int) -> nat
    decreases s.len() - i,
{
    if 0 <= i < s.len() && is_dec_digit(s[i]) {
        1 + dec_run(s, i + 1)
    } else {
        0
    }
}

/// Length of the run of hexadecimal digits starting at `i`.
pub open spec fn hex_run(s: Seq<char>, i: int) -> nat
    decreases s.len() - i,
{
    if 0 <= i < s.len() && is_hex_digit(s[i]) {
        1 + hex_run(s, i + 1)
    } else {
        0
    }
}

/// An IPv4 octet at `i`: one to three digits, no leading zero unless it is `0`, at most
/// 255. Gives the position after it and its value.
pub open spec fn dec_octet(s: Seq<char>, i: int) -> Option<(int, nat)> {
    let d = dec_run(s, i);
    if d == 0 || d > 3 || (s[i] == '0' && d > 1) {
        None
    } else {
        let v = digits_value(s.subrange(i, i + d));
        if v > 255 {
            None
        } else {
            Some((i + d, v))
        }
    }
}

/// Octets `k..4` of an IPv4 address whose octet `k` starts at `pos` (after a `.` unless it
/// is the first).
pub open spec fn ipv4_octets(s: Seq<char>, pos: int, k: nat) -> Option<(int, Seq<nat>)>
    decreases 4 - k,
{
    if k >= 4 {
        Some((pos, Seq::empty()))
    } else {
        let sep_ok = k == 0 || (0 <= pos < s.len() && s[pos] == '.');
        let start = if k == 0 {
            pos
        } else {
            pos + 1
        };
        if !sep_ok {
            None
        } else {
            match dec_octet(s, start) {
                None => None,
                Some((e, v)) => match ipv4_octets(s, e, k + 1) {
                    None => None,
                    Some((end, rest)) => Some((end, seq![v] + rest)),
                },
            }
        }
    }
}

/// An IPv4 address read from `i`: where it ends and its four octets.
pub open spec fn read_ipv4(s: Seq<char>, i: int) -> Option<(int, Seq<nat>)> {
    ipv4_octets(s, i, 0)
}

/// A group of one to four hexadecimal digits at `i`; the position after it.
pub open spec fn hex_group(s: Seq<char>, i: int) -> Option<int> {
    let h = hex_run(s, i);
    if h == 0 || h > 4 {
        None
    } else {
        Some(i + h)
    }
}

/// Groups `k..limit` of an IPv6 part, group `k` at `pos` (after a `:` unless it is the
/// first). A trailing IPv4 address stands for two groups when at least two are left.
/// Gives the end of what was read, the number of groups, and whether an IPv4 part ended it.
pub open spec fn ipv6_groups(s: Seq<char>, pos: int, k: nat, limit: nat) -> (int, nat, bool)
    decreases limit - k,
{
    if k >= limit {
        (pos, k, false)
    } else {
        let sep_ok = k == 0 || (0 <= pos < s.len() && s[pos] == ':');
        let start = if k == 0 {
            pos
        } else {
            pos + 1
        };
        if sep_ok && k + 1 < limit && read_ipv4(s, start) is Some {
            let (end, _octets) = read_ipv4(s, start)->0;
            (end, k + 2, true)
        } else if sep_ok && hex_group(s, start) is Some {
            ipv6_groups(s, hex_group(s, start)->0, k + 1, limit)
        } else {
            (pos, k, false)
        }
    }
}

/// Whether the whole text is an IPv6 address.
pub open spec fn spec_is_ipv6(s: Seq<char>) -> bool {
    let (hp, hs, h4) = ipv6_groups(s, 0, 0, 8);
    if hs == 8 {
        hp == s.len()
    } else if h4 {
        false
    } else if hp + 1 < s.len() && s[hp] == ':' && s[hp + 1] == ':' {
        let (tp, ts, t4) = ipv6_groups(s, hp + 2, 0, (8 - (hs + 1)) as nat);
        tp == s.len()
    } else {
        false
    }
}

/// The octets of the whole text read as an IPv4 address.
pub open spec fn spec_ipv4(s: Seq<char>) -> Option<Seq<nat>> {
    match read_ipv4(s, 0) {
        Some((e, octets)) => if e == s.len() {
            Some(octets)
        } else {
            None
        },
        None => None,
    }
}

/// Whether the whole text is an IP address: IPv4 when it starts with one, else IPv6.
pub open spec fn spec_is_ip(s: Seq<char>) -> bool {
    match read_ipv4(s, 0) {
        Some((e, _)) => e == s.len(),
        None => spec_is_ipv6(s),
    }
}

fn is_dec_digit_exec(c: char) -> (r: bool)
    ensures
        r == is_dec_digit(c),
{
    '0' <= c && c <= '9'
}

fn is_hex_digit_exec(c: char) -> (r: bool)
    ensures
        r == is_hex_digit(c),
{
    ('0' <= c && c <= '9') || ('a' <= c && c <= 'f') || ('A' <= c && c <= 'F')
}

fn dec_run_exec(v: &Vec<char>, i: usize) -> (r: usize)
    requires
        i <= v@.len(),
    ensures
        r == dec_run(v@, i as int),
        i + r <= v@.len(),
{
    let mut j = i;
    while j < v.len() && is_dec_digit_exec(v[j])
        invariant
            i <= j <= v@.len(),
            dec_run(v@, i as int) == (j - i) + dec_run(v@, j as int),
        decreases v.len() - j,
    {
        j = j + 1;
    }
    j - i
}

fn hex_run_exec(v: &Vec<char>, i: usize) -> (r: usize)
    requires
        i <= v@.len(),
    ensures
        r == hex_run(v@, i as int),
        i + r <= v@.len(),
{
    let mut j = i;
    while j < v.len() && is_hex_digit_exec(v[j])
        invariant
            i <= j <= v@.len(),
            hex_run(v@, i as int) == (j - i) + hex_run(v@, j as int),
        decreases v.len() - j,
    {
        j = j + 1;
    }
    j - i
}

proof fn lemma_dec_run_digits(s: Seq<char>, i: int, k: int)
    requires
        0 <= i,
        0 <= k < dec_run(s, i),
    ensures
        i + k < s.len(),
        is_dec_digit(s[i + k]),
    decreases k,
{
    if k > 0 {
        lemma_dec_run_digits(s, i + 1, k - 1);
    }
}

proof fn lemma_dec_run_bound(s: Seq<char>, i: int)
    requires
        0 <= i,
    ensures
        i + dec_run(s, i) <= s.len() || dec_run(s, i) == 0,
    decreases s.len() - i,
{
    if 0 <= i < s.len() && is_dec_digit(s[i]) {
        lemma_dec_run_bound(s, i + 1);
    }
}

fn dec_octet_exec(v: &Vec<char>, i: usize) -> (r: Option<(usize, u8)>)
    requires
        i <= v@.len(),
    ensures
        match r {
            Some((e, b)) => dec_octet(v@, i as int) == Some((e as int, b as nat)),
            None => dec_octet(v@, i as int) is None,
        },
{
    let n = v.len();
    let d = dec_run_exec(v, i);
    if d == 0 || d > 3 {
        return None;
    }
    if v[i] == '0' && d > 1 {
        return None;
    }
    let mut acc: u32 = 0;
    let mut j = i;
    let end = i + d;
    while j < end
        invariant
            end == i + d,
            i <= j <= i + d,
            1 <= d <= 3,
            d == dec_run(v@, i as int),
            i + d <= v@.len(),
            acc as nat == digits_value(v@.subrange(i as int, j as int)),
            acc < 1000,
            j - i == 0 ==> acc == 0,
            j - i == 1 ==> acc < 10,
            j - i == 2 ==> acc < 100,
        decreases end - j,
    {
        proof {
            lemma_dec_run_digits(v@, i as int, j - i);
            assert(v@.subrange(i as int, j + 1).drop_last() =~= v@.subrange(i as int, j as int));
        }
        let digit = (v[j] as u32) - ('0' as u32);
        acc = acc * 10 + digit;
        j = j + 1;
    }
    if acc > 255 {
        return None;
    }
    Some((end, acc as u8))
}

fn ipv4_octets_exec(v: &Vec<char>, pos: usize, k: usize) -> (r: Option<(usize, Vec<u8>)>)
    requires
        pos <= v@.len(),
        k <= 4,
    ensures
        match r {
            Some((e, octets)) => ipv4_octets(v@, pos as int, k as nat) == Some(
                (e as int, octets@.map_values(|b: u8| b as nat)),
            ) && e <= v@.len(),
            None => ipv4_octets(v@, pos as int, k as nat) is None,
        },
    decreases 4 - k,
{
    if k >= 4 {
        let empty: Vec<u8> = Vec::new();
        assert(empty@.map_values(|b: u8| b as nat) =~= Seq::<nat>::empty());
        return Some((pos, empty));
    }
    let n = v.len();
    let start = if k == 0 {
        pos
    } else {
        if !(pos < n && v[pos] == '.') {
            return None;
        }
        pos + 1
    };
    match dec_octet_exec(v, start) {
        None => None,
        Some((e, b)) => {
            proof {
                lemma_dec_run_bound(v@, start as int);
            }
            match ipv4_octets_exec(v, e, k + 1) {
                None => None,
                Some((end, rest)) => {
                    let mut out: Vec<u8> = Vec::new();
                    out.push(b);
                    let mut t: usize = 0;
                    while t < rest.len()
                        invariant
                            t <= rest@.len(),
                            out@ == seq![b] + rest@.take(t as int),
                        decreases rest.len() - t,
                    {
                        out.push(rest[t]);
                        assert(rest@.take(t + 1) =~= rest@.take(t as int).push(rest@[t as int]));
                        t = t + 1;
                    }
                    assert(rest@.take(rest@.len() as int) =~= rest@);
                    assert(out@.map_values(|x: u8| x as nat) =~= seq![b as nat] + rest@.map_values(
                        |x: u8| x as nat,
                    ));
                    Some((end, out))
                },
            }
        },
    }
}

fn read_ipv4_exec(v: &Vec<char>, i: usize) -> (r: Option<(usize, Vec<u8>)>)
    requires
        i <= v@.len(),
    ensures
        match r {
            Some((e, octets)) => read_ipv4(v@, i as int) == Some(
                (e as int, octets@.map_values(|b: u8| b as nat)),
            ) && e <= v@.len(),
            None => read_ipv4(v@, i as int) is None,
        },
{
    ipv4_octets_exec(v, i, 0)
}

fn hex_group_exec(v: &Vec<char>, i: usize) -> (r: Option<usize>)
    requires
        i <= v@.len(),
    ensures
        match r {
            Some(e) => hex_group(v@, i as int) == Some(e as int) && e <= v@.len(),
            None => hex_group(v@, i as int) is None,
        },
{
    let n = v.len();
    let h = hex_run_exec(v, i);
    if h == 0 || h > 4 {
        None
    } else {
        Some(i + h)
    }
}

fn ipv6_groups_exec(v: &Vec<char>, pos: usize, k: usize, limit: usize) -> (r: (usize, usize, bool))
    requires
        pos <= v@.len(),
        k <= limit <= 8,
    ensures
        ipv6_groups(v@, pos as int, k as nat, limit as nat) == (r.0 as int, r.1 as nat, r.2),
        r.0 <= v@.len(),
        r.1 <= 8,
    decreases limit - k,
{
    let n = v.len();
    if k >= limit {
        return (pos, k, false);
    }
    let sep_ok = k == 0 || (pos < n && v[pos] == ':');
    if !sep_ok {
        return (pos, k, false);
    }
    let start = if k == 0 {
        pos
    } else {
        pos + 1
    };
    if k + 1 < limit {
        match read_ipv4_exec(v, start) {
            Some((e, _)) => {
                return (e, k + 2, true);
            },
            None => {},
        }
    }
    match hex_group_exec(v, start) {
        Some(e) => ipv6_groups_exec(v, e, k + 1, limit),
        None => (pos, k, false),
    }
}

fn is_ipv6_chars(v: &Vec<char>) -> (r: bool)
    ensures
        r == spec_is_ipv6(v@),
{
    let n = v.len();
    let (hp, hs, h4) = ipv6_groups_exec(v, 0, 0, 8);
    if hs == 8 {
        hp == v.len()
    } else if h4 {
        false
    } else if n >= 2 && hp <= n - 2 && v[hp] == ':' && v[hp + 1] == ':' {
        let (tp, _, _) = ipv6_groups_exec(v, hp + 2, 0, 8 - (hs + 1));
        tp == v.len()
    } else {
        false
    }
}

/// Whether a text is an IP address, as `str::parse::<std::net::IpAddr>` accepts it.
pub fn is_ip_addr(s: &str) -> (r: bool)
    ensures
        r == spec_is_ip(s@),
{
    let v = chars_of(s);
    match read_ipv4_exec(&v, 0) {
        Some((e, _)) => e == v.len(),
        None => is_ipv6_chars(&v),
    }
}

/// The four octets of a text that is an IPv4 address, as `str::parse::<std::net::Ipv4Addr>`
/// reads it.
pub fn parse_ipv4(s: &str) -> (r: Option<Vec<u8>>)
    ensures
        match r {
            Some(octets) => spec_ipv4(s@) == Some(octets@.map_values(|b: u8| b as nat)),
            None => spec_ipv4(s@) is None,
        },
{
    let v = chars_of(s);
    match read_ipv4_exec(&v, 0) {
        Some((e, octets)) => if e == v.len() {
            Some(octets)
        } else {
            None
        },
        None => None,
    }
}

} // verus!
