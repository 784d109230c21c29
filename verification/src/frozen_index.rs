//! The index of frozen archives: where each archive is, which day it holds, how many lines
//! it has; and the days for which any archive exists. The caller lists and reads the
//! archives.
use vstd::prelude::*;
use crate::api::{infer_day_from_text, spec_infer_day_from_text};
use crate::archive::file_name_of;
use crate::control::{insert_sorted_text, strictly_sorted, texts};
use crate::event::ov;
use crate::paths::{spec_strip_prefix, strip_prefix};
use crate::text::{concat, owned, str_eq};

verus! {

/// A path without its leading `/` and `\\` characters.
pub open spec fn trim_leading_separators(s: Seq<char>) -> Seq<char>
    decreases s.len(),
{
    if s.len() > 0 && (s[0] == '/' || s[0] == '\\') {
        trim_leading_separators(s.drop_first())
    } else {
        s
    }
}

/// Where an archive is relative to the frozen directory: the path below it (the whole path
/// when it is not below it), without leading separators.
pub open spec fn spec_relative_archive_path(root: Seq<char>, path: Seq<char>) -> Seq<char> {
    trim_leading_separators(
        match spec_strip_prefix(path, root) {
            Some(rest) => rest,
            None => path,
        },
    )
}

pub fn relative_archive_path(root: &str, path: &str) -> (r: String)
    ensures
        r@ == spec_relative_archive_path(root@, path@),
{
    let rest = match strip_prefix(path, root) {
        Some(r) => r,
        None => owned(path),
    };
    let chars = crate::text::chars_of(rest.as_str());
    let mut i: usize = 0;
    proof {
        assert(chars@.skip(0) =~= chars@);
    }
    while i < chars.len() && (chars[i] == '/' || chars[i] == '\\')
        invariant
            i <= chars@.len(),
            chars@ == rest@,
            trim_leading_separators(rest@) == trim_leading_separators(chars@.skip(i as int)),
        decreases chars.len() - i,
    {
        proof {
            assert(chars@.skip(i as int).drop_first() =~= chars@.skip(i + 1));
        }
        i = i + 1;
    }
    proof {
        assert(chars@.subrange(i as int, chars@.len() as int) =~= chars@.skip(i as int));
    }
    crate::text::chars_range_string(chars.as_slice(), i, chars.len())
}

/// What the archive index records of a frozen archive.
#[derive(Debug, Clone)]
pub struct FrozenArchiveIndexMetadata {
    pub archive_path: String,
    pub day: String,
    pub source_addr: String,
    pub bytes: u64,
    pub line_count: u64,
    pub first_seen: Option<String>,
    pub last_seen: Option<String>,
}

/// The index entry of an archive as its members are read: the day comes from the file name
/// and then from each member's path that names one, the source from the first member, and
/// the line counts add up.
#[derive(Debug)]
pub struct FrozenIndexBuilder {
    archive_path: String,
    day: String,
    source_addr: String,
    bytes: u64,
    line_count: u64,
}

/// The day an archive file's name gives, `unknown` without one.
pub open spec fn day_or_unknown(text: Seq<char>) -> Seq<char> {
    match spec_infer_day_from_text(text) {
        Some(d) => d,
        None => "unknown"@,
    }
}

impl FrozenIndexBuilder {
    pub closed spec fn spec_state(self) -> (Seq<char>, Seq<char>, Seq<char>, u64, u64) {
        (self.archive_path@, self.day@, self.source_addr@, self.bytes, self.line_count)
    }

    /// The entry of the archive at `path` (of `bytes` bytes) in the frozen directory `root`,
    /// before any member is read.
    pub fn new(root: &str, path: &str, bytes: u64) -> (r: Self)
        ensures
            r.spec_state() == (
                spec_relative_archive_path(root@, path@),
                day_or_unknown(file_name_of(path@)),
                "frozen://"@ + spec_relative_archive_path(root@, path@),
                bytes,
                0u64,
            ),
    {
        let archive_path = relative_archive_path(root, path);
        let name = crate::archive::file_name_str(path);
        let day = match infer_day_from_text(name.as_str()) {
            Some(d) => d,
            None => owned("unknown"),
        };
        let source_addr = concat("frozen://", archive_path.as_str());
        FrozenIndexBuilder { archive_path, day, source_addr, bytes, line_count: 0 }
    }

    /// The lines of a plain frozen archive.
    pub fn set_line_count(&mut self, lines: u64)
        ensures
            final(self).spec_state() == (
                old(self).spec_state().0,
                old(self).spec_state().1,
                old(self).spec_state().2,
                old(self).spec_state().3,
                lines,
            ),
    {
        self.line_count = lines;
    }

    /// A member of a packed archive with `lines` lines: a day in its path replaces the day,
    /// the first member becomes the source, and its lines are added.
    pub fn add_member(&mut self, entry_path: &str, lines: u64)
        requires
            old(self).spec_state().4 + lines <= u64::MAX,
        ensures
            ({
                let (a, d, s, b, n) = old(self).spec_state();
                final(self).spec_state() == (
                    a,
                    match spec_infer_day_from_text(entry_path@) {
                        Some(day) => day,
                        None => d,
                    },
                    if s == "frozen://"@ + a {
                        "frozen://"@ + entry_path@
                    } else {
                        s
                    },
                    b,
                    (n + lines) as u64,
                )
            }),
    {
        match infer_day_from_text(entry_path) {
            Some(d) => {
                self.day = d;
            },
            None => {},
        }
        let initial = concat("frozen://", self.archive_path.as_str());
        if str_eq(self.source_addr.as_str(), initial.as_str()) {
            self.source_addr = concat("frozen://", entry_path);
        }
        self.line_count = self.line_count + lines;
    }

    /// The index entry: a known day covers that whole day.
    pub fn finish(self) -> (r: FrozenArchiveIndexMetadata)
        ensures
            ({
                let (a, d, s, b, n) = self.spec_state();
                &&& r.archive_path@ == a
                &&& r.day@ == d
                &&& r.source_addr@ == s
                &&& r.bytes == b
                &&& r.line_count == n
                &&& d == "unknown"@ ==> r.first_seen is None && r.last_seen is None
                &&& d != "unknown"@ ==> ov(r.first_seen) == Some(d + "T00:00:00Z"@) && ov(r.last_seen)
                    == Some(d + "T23:59:59Z"@)
            }),
    {
        let (first_seen, last_seen) = if str_eq(self.day.as_str(), "unknown") {
            (None, None)
        } else {
            (Some(concat(self.day.as_str(), "T00:00:00Z")), Some(concat(self.day.as_str(), "T23:59:59Z")))
        };
        FrozenArchiveIndexMetadata {
            archive_path: self.archive_path,
            day: self.day,
            source_addr: self.source_addr,
            bytes: self.bytes,
            line_count: self.line_count,
            first_seen,
            last_seen,
        }
    }
}

/// The days with archives: the indexed days other than `unknown`, and the days the names of
/// Parquet and frozen files give.
pub open spec fn spec_archive_day_set(
    indexed_days: Seq<Seq<char>>,
    parquet_paths: Seq<Seq<char>>,
    frozen_paths: Seq<Seq<char>>,
) -> Set<Seq<char>> {
    Set::new(
        |d: Seq<char>|
            (indexed_days.contains(d) && d != "unknown"@) || (exists|i: int|
                0 <= i < parquet_paths.len() && spec_infer_day_from_text(file_name_of(parquet_paths[i]))
                    == Some(d)) || (exists|i: int|
                0 <= i < frozen_paths.len() && spec_infer_day_from_text(file_name_of(frozen_paths[i]))
                    == Some(d)),
    )
}

/// The days with archives, ascending, each once.
pub fn archive_days(indexed_days: &Vec<String>, parquet_paths: &Vec<String>, frozen_paths: &Vec<String>) -> (r: Vec<String>)
    ensures
        strictly_sorted(texts(r@)),
        texts(r@).to_set() == spec_archive_day_set(texts(indexed_days@), texts(parquet_paths@), texts(frozen_paths@)),
{
    let ghost target = spec_archive_day_set(texts(indexed_days@), texts(parquet_paths@), texts(frozen_paths@));
    let mut days: Vec<String> = Vec::new();
    let ghost mut acc: Set<Seq<char>> = Set::empty();
    proof {
        assert(texts(days@).to_set() =~= acc);
    }
    let mut i: usize = 0;
    while i < indexed_days.len()
        invariant
            i <= indexed_days@.len(),
            strictly_sorted(texts(days@)),
            texts(days@).to_set() == acc,
            acc == Set::new(|d: Seq<char>| exists|k: int| 0 <= k < i && texts(indexed_days@)[k] == d && d != "unknown"@),
        decreases indexed_days.len() - i,
    {
        let d = &indexed_days[i];
        if !str_eq(d.as_str(), "unknown") {
            insert_sorted_text(&mut days, d.as_str());
            proof {
                acc = acc.insert(d@);
            }
        }
        proof {
            let next = Set::new(|x: Seq<char>| exists|k: int| 0 <= k < i + 1 && texts(indexed_days@)[k] == x && x != "unknown"@);
            assert(acc =~= next) by {
                assert(texts(indexed_days@)[i as int] == d@);
            }
        }
        i = i + 1;
    }
    let ghost a1 = acc;
    let mut j: usize = 0;
    while j < parquet_paths.len()
        invariant
            j <= parquet_paths@.len(),
            strictly_sorted(texts(days@)),
            texts(days@).to_set() == acc,
            acc == a1.union(Set::new(|x: Seq<char>| exists|k: int| 0 <= k < j && spec_infer_day_from_text(file_name_of(texts(parquet_paths@)[k])) == Some(x))),
        decreases parquet_paths.len() - j,
    {
        let name = crate::archive::file_name_str(parquet_paths[j].as_str());
        match infer_day_from_text(name.as_str()) {
            Some(d) => {
                insert_sorted_text(&mut days, d.as_str());
                proof {
                    acc = acc.insert(d@);
                }
            },
            None => {},
        }
        proof {
            let next = a1.union(Set::new(|x: Seq<char>| exists|k: int| 0 <= k < j + 1 && spec_infer_day_from_text(file_name_of(texts(parquet_paths@)[k])) == Some(x)));
            assert(texts(parquet_paths@)[j as int] == parquet_paths@[j as int]@);
            assert(acc =~= next);
        }
        j = j + 1;
    }
    let ghost a2 = acc;
    let mut k: usize = 0;
    while k < frozen_paths.len()
        invariant
            k <= frozen_paths@.len(),
            strictly_sorted(texts(days@)),
            texts(days@).to_set() == acc,
            acc == a2.union(Set::new(|x: Seq<char>| exists|m: int| 0 <= m < k && spec_infer_day_from_text(file_name_of(texts(frozen_paths@)[m])) == Some(x))),
        decreases frozen_paths.len() - k,
    {
        let name = crate::archive::file_name_str(frozen_paths[k].as_str());
        match infer_day_from_text(name.as_str()) {
            Some(d) => {
                insert_sorted_text(&mut days, d.as_str());
                proof {
                    acc = acc.insert(d@);
                }
            },
            None => {},
        }
        proof {
            let next = a2.union(Set::new(|x: Seq<char>| exists|m: int| 0 <= m < k + 1 && spec_infer_day_from_text(file_name_of(texts(frozen_paths@)[m])) == Some(x)));
            assert(texts(frozen_paths@)[k as int] == frozen_paths@[k as int]@);
            assert(acc =~= next);
        }
        k = k + 1;
    }
    proof {
        assert(acc =~= target) by {
            assert forall|x: Seq<char>| acc.contains(x) <==> target.contains(x) by {
                if texts(indexed_days@).contains(x) && x != "unknown"@ {
                    let w = choose|w: int| 0 <= w < texts(indexed_days@).len() && texts(indexed_days@)[w] == x;
                    assert(a1.contains(x));
                }
                if a1.contains(x) {
                    let w = choose|w: int| 0 <= w < indexed_days@.len() && texts(indexed_days@)[w] == x && x != "unknown"@;
                    assert(texts(indexed_days@).contains(x));
                }
            }
        }
    }
    days
}

} // verus!
