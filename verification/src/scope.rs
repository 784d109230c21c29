//! Source scopes: the key under which parser statistics and learned rules are kept.
use vstd::prelude::*;
use crate::text::{chars_of, concat, find_first, find_last, chars_contains, first_occurrence,
    last_occurrence, seq_contains, parse_unsigned, parse_unsigned_u64, chars_range_string,
    u64_to_string, decimal_chars};
use crate::event::{hex_lower, spec_sha256, hex_string, sha256_digest};

verus! {

/// How much of a source address a scope keeps.
#[derive(Debug, Clone, Copy, PartialEq, Eq, Structural)]
pub enum ScopeNormalizationMode {
    SourceIp,
    SourceIpPort,
}

/// The scope a source address falls into.
#[derive(Debug, Clone, PartialEq, Eq)]
pub struct SourceScope {
    pub scope_key: String,
    pub normalized_source: String,
    pub unknown_source_bucket: bool,
    pub adaptive_learning_enabled: bool,
}

/// Host and optional port of a `host[:port]` or `[host][:port]` text.
pub open spec fn spec_host_port(hp: Seq<char>) -> Option<(Seq<char>, Option<nat>)> {
    if hp.len() > 0 && hp[0] == '[' {
        match first_occurrence(hp, "]"@) {
            None => None,
            Some(e) => {
                let after = hp.skip(e + 1);
                let port = if after.len() > 0 && after[0] == ':' {
                    parse_unsigned(after.skip(1), 65535)
                } else {
                    None
                };
                Some((hp.subrange(1, e), port))
            },
        }
    } else {
        match last_occurrence(hp, ":"@) {
            Some(k) => if !seq_contains(hp.take(k), ":"@) {
                Some((hp.take(k), parse_unsigned(hp.skip(k + 1), 65535)))
            } else {
                Some((hp, None))
            },
            None => Some((hp, None)),
        }
    }
}

/// Scheme, host and port of a `scheme://host[:port][/...]` source address.
pub open spec fn spec_source_parts(raw: Seq<char>) -> Option<(Seq<char>, Seq<char>, Option<nat>)> {
    match first_occurrence(raw, "://"@) {
        None => None,
        Some(i) => {
            let scheme = raw.take(i);
            let rest = raw.skip(i + 3);
            if scheme.len() == 0 || rest.len() == 0 {
                None
            } else {
                let hp = match first_occurrence(rest, "/"@) {
                    Some(k) => rest.take(k),
                    None => rest,
                };
                match spec_host_port(hp) {
                    None => None,
                    Some((host, port)) => if host.len() == 0 {
                        None
                    } else {
                        Some((scheme, host, port))
                    },
                }
            }
        },
    }
}

/// The normalised source of an address whose parts were recognised.
pub open spec fn spec_normalized(
    scheme: Seq<char>,
    host: Seq<char>,
    port: Option<nat>,
    mode: ScopeNormalizationMode,
) -> Seq<char> {
    match mode {
        ScopeNormalizationMode::SourceIp => scheme + "://"@ + host,
        ScopeNormalizationMode::SourceIpPort => match port {
            Some(p) => scheme + "://"@ + host + ":"@ + decimal_chars(p),
            None => scheme + "://"@ + host,
        },
    }
}

/// First `n` hexadecimal digits of the SHA-256 of a text.
pub open spec fn spec_hash_prefix(raw: Seq<char>, n: nat) -> Seq<char> {
    let h = hex_lower(spec_sha256(vstd::utf8::encode_utf8(raw)));
    if h.len() <= n {
        h
    } else {
        h.take(n as int)
    }
}

/// `(scope_key, normalized_source, unknown_source_bucket, adaptive_learning_enabled)`
/// of a source address.
pub open spec fn spec_scope(raw: Seq<char>, mode: ScopeNormalizationMode) -> (
    Seq<char>,
    Seq<char>,
    bool,
    bool,
) {
    match spec_source_parts(raw) {
        Some((scheme, host, port)) => {
            let n = spec_normalized(scheme, host, port, mode);
            ("source:"@ + n, n, false, true)
        },
        None => {
            let n = "unknown:"@ + spec_hash_prefix(raw, 8);
            ("source:"@ + n, n, true, false)
        },
    }
}

pub open spec fn opt_nat(p: Option<u16>) -> Option<nat> {
    match p {
        Some(v) => Some(v as nat),
        None => None,
    }
}

fn parse_port(text: &str) -> (r: Option<u16>)
    ensures
        opt_nat(r) == parse_unsigned(text@, 65535),
{
    match parse_unsigned_u64(text, 65535) {
        Some(v) => Some(v as u16),
        None => None,
    }
}

fn bracketed_host_port(hp: &[char]) -> (r: Option<(String, Option<u16>)>)
    requires
        hp@.len() > 0,
        hp@[0] == '[',
    ensures
        r matches Some((h, p)) ==> spec_host_port(hp@) == Some((h@, opt_nat(p))),
        r is None ==> spec_host_port(hp@) is None,
{
    let close: [char; 1] = [']'];
    assert(close@ == "]"@) by {
        reveal_strlit("]");
        assert(close@ =~= "]"@);
    }
    match find_first(hp, &close) {
        None => None,
        Some(e) => {
            proof {
                reveal_strlit("]");
            }
            let n = hp.len();
            assert(hp@.subrange(e as int, e + 1)[0] == hp@[e as int]);
            assert(e >= 1);
            let host = chars_range_string(hp, 1, e);
            let port: Option<u16> = if e + 1 < n && hp[e + 1] == ':' {
                let text = chars_range_string(hp, e + 2, hp.len());
                assert(hp@.skip(e + 1).skip(1) =~= hp@.subrange(e + 2, hp@.len() as int));
                parse_port(text.as_str())
            } else {
                None
            };
            Some((host, port))
        },
    }
}

fn plain_host_port(hp: &[char]) -> (r: (String, Option<u16>))
    requires
        !(hp@.len() > 0 && hp@[0] == '['),
    ensures
        spec_host_port(hp@) == Some((r.0@, opt_nat(r.1))),
{
    let colon: [char; 1] = [':'];
    assert(colon@ == ":"@) by {
        reveal_strlit(":");
        assert(colon@ =~= ":"@);
    }
    match find_last(hp, &colon) {
        Some(k) => {
            proof {
                reveal_strlit(":");
            }
            let n = hp.len();
            let before = chars_range_string(hp, 0, k);
            let bv = chars_of(before.as_str());
            assert(hp@.take(k as int) =~= hp@.subrange(0, k as int));
            if !chars_contains(bv.as_slice(), &colon) {
                let text = chars_range_string(hp, k + 1, hp.len());
                assert(hp@.skip(k + 1) =~= hp@.subrange(k + 1, hp@.len() as int));
                let port = parse_port(text.as_str());
                (before, port)
            } else {
                let whole = chars_range_string(hp, 0, hp.len());
                assert(hp@.subrange(0, hp@.len() as int) =~= hp@);
                (whole, None)
            }
        },
        None => {
            let whole = chars_range_string(hp, 0, hp.len());
            assert(hp@.subrange(0, hp@.len() as int) =~= hp@);
            (whole, None)
        },
    }
}

fn host_port_parts(hp: &[char]) -> (r: Option<(String, Option<u16>)>)
    ensures
        r matches Some((h, p)) ==> spec_host_port(hp@) == Some((h@, opt_nat(p))),
        r is None ==> spec_host_port(hp@) is None,
{
    if hp.len() > 0 && hp[0] == '[' {
        bracketed_host_port(hp)
    } else {
        Some(plain_host_port(hp))
    }
}

fn source_parts(raw: &str) -> (r: Option<(String, String, Option<u16>)>)
    ensures
        r matches Some((s, h, p)) ==> spec_source_parts(raw@) == Some((s@, h@, opt_nat(p))),
        r is None ==> spec_source_parts(raw@) is None,
{
    let v = chars_of(raw);
    let sep: [char; 3] = [':', '/', '/'];
    assert(sep@ == "://"@) by {
        reveal_strlit("://");
        assert(sep@ =~= "://"@);
    }
    let i = match find_first(v.as_slice(), &sep) {
        None => return None,
        Some(i) => i,
    };
    proof {
        reveal_strlit("://");
    }
    let vlen = v.len();
    let scheme = chars_range_string(v.as_slice(), 0, i);
    assert(v@.take(i as int) =~= v@.subrange(0, i as int));
    if i == 0 || i + 3 >= vlen {
        return None;
    }
    let rest = chars_range_string(v.as_slice(), i + 3, v.len());
    assert(v@.skip(i + 3) =~= v@.subrange(i + 3, v@.len() as int));
    let rv = chars_of(rest.as_str());
    let slash: [char; 1] = ['/'];
    assert(slash@ == "/"@) by {
        reveal_strlit("/");
        assert(slash@ =~= "/"@);
    }
    let hp_end = match find_first(rv.as_slice(), &slash) {
        Some(k) => k,
        None => rv.len(),
    };
    let hp_string = chars_range_string(rv.as_slice(), 0, hp_end);
    let hp = chars_of(hp_string.as_str());
    assert(rv@.take(hp_end as int) =~= rv@.subrange(0, hp_end as int));
    assert(hp_end == rv@.len() ==> rv@.subrange(0, hp_end as int) =~= rv@);
    match host_port_parts(hp.as_slice()) {
        None => None,
        Some((host, port)) => {
            if host.as_str().is_empty() {
                None
            } else {
                Some((scheme, host, port))
            }
        },
    }
}

/// First `n` hexadecimal digits of the SHA-256 of `raw`.
fn hash_prefix(raw: &str, n: usize) -> (r: String)
    ensures
        r@ == spec_hash_prefix(raw@, n as nat),
{
    let mut data: Vec<u8> = Vec::new();
    crate::event::push_bytes(&mut data, raw.as_bytes());
    assert(data@ == vstd::utf8::encode_utf8(raw@));
    let digest = sha256_digest(data.as_slice());
    let h = hex_string(digest.as_slice());
    let hv = chars_of(h.as_str());
    if hv.len() <= n {
        h
    } else {
        let r = chars_range_string(hv.as_slice(), 0, n);
        assert(hv@.take(n as int) =~= hv@.subrange(0, n as int));
        r
    }
}

/// The scope of a source address: `source:scheme://host` (with `:port` in
/// `SourceIpPort` mode) for a recognised address, otherwise a stable unknown bucket
/// `source:unknown:<8 hex digits of its SHA-256>` in which learning is off.
pub fn normalize_source_scope(raw_source: &str, mode: ScopeNormalizationMode) -> (r: SourceScope)
    ensures
        (r.scope_key@, r.normalized_source@, r.unknown_source_bucket, r.adaptive_learning_enabled)
            == spec_scope(raw_source@, mode),
{
    match source_parts(raw_source) {
        Some((scheme, host, port)) => {
            let with_sep = concat(scheme.as_str(), "://");
            let base = concat(with_sep.as_str(), host.as_str());
            let normalized = match mode {
                ScopeNormalizationMode::SourceIp => base,
                ScopeNormalizationMode::SourceIpPort => match port {
                    Some(p) => {
                        let with_colon = concat(base.as_str(), ":");
                        let digits = u64_to_string(p as u64);
                        concat(with_colon.as_str(), digits.as_str())
                    },
                    None => base,
                },
            };
            let scope_key = concat("source:", normalized.as_str());
            SourceScope {
                scope_key,
                normalized_source: normalized,
                unknown_source_bucket: false,
                adaptive_learning_enabled: true,
            }
        },
        None => {
            let prefix = hash_prefix(raw_source, 8);
            let normalized = concat("unknown:", prefix.as_str());
            let scope_key = concat("source:", normalized.as_str());
            SourceScope {
                scope_key,
                normalized_source: normalized,
                unknown_source_bucket: true,
                adaptive_learning_enabled: false,
            }
        },
    }
}

} // verus!
