//! Archive files on disk: which files of a directory tree are Parquet or frozen raw
//! archives, and the order they are listed in. The caller walks the directories and reads
//! file sizes; it hands over every regular file found, at any depth.
use vstd::prelude::*;
use crate::paths::{path_lt, spec_path_lt};
use crate::text::{last_occurrence, seq_ends_with, seq_starts_with, str_ends_with, str_starts_with};

verus! {

/// A Parquet archive and its size in bytes.
#[derive(Debug, Clone, PartialEq, Eq)]
pub struct ArchiveFile {
    pub path: String,
    pub bytes: u64,
}

/// A frozen raw archive and its size in bytes.
#[derive(Debug, Clone, PartialEq, Eq)]
pub struct FrozenFile {
    pub path: String,
    pub bytes: u64,
}

/// The last component of a path: what follows its last `/`.
pub open spec fn file_name_of(path: Seq<char>) -> Seq<char> {
    match last_occurrence(path, "/"@) {
        Some(i) => path.skip(i + 1),
        None => path,
    }
}

/// A file whose extension is `parquet`: its name ends in `.parquet` after at least one more
/// character (a name that is only `.parquet` has no extension).
pub open spec fn spec_is_parquet_file(path: Seq<char>) -> bool {
    let name = file_name_of(path);
    seq_ends_with(name, ".parquet"@) && name.len() > 8
}

/// A frozen raw archive: `*.raw.zst`, or an imported directory packed as
/// `raw-import-*.tar.zst`.
pub open spec fn spec_is_frozen_archive(path: Seq<char>) -> bool {
    let name = file_name_of(path);
    seq_ends_with(name, ".raw.zst"@) || (seq_starts_with(name, "raw-import-"@) && seq_ends_with(
        name,
        ".tar.zst"@,
    ))
}

pub(crate) fn file_name_str(path: &str) -> (r: String)
    ensures
        r@ == file_name_of(path@),
{
    let chars = crate::text::chars_of(path);
    let slash: [char; 1] = ['/'];
    proof {
        reveal_strlit("/");
        assert(slash@ =~= "/"@);
    }
    match crate::text::find_last(chars.as_slice(), &slash) {
        Some(i) => {
            let n = chars.len();
            assert(i + 1 <= n);
            crate::text::chars_range_string(chars.as_slice(), i + 1, n)
        },
        None => crate::text::owned(path),
    }
}

pub fn is_parquet_file(path: &str) -> (r: bool)
    ensures
        r == spec_is_parquet_file(path@),
{
    let name = file_name_str(path);
    str_ends_with(name.as_str(), ".parquet") && name.as_str().unicode_len() > 8
}

pub fn is_frozen_archive(path: &str) -> (r: bool)
    ensures
        r == spec_is_frozen_archive(path@),
{
    let name = file_name_str(path);
    let n = name.as_str();
    str_ends_with(n, ".raw.zst") || (str_starts_with(n, "raw-import-") && str_ends_with(n, ".tar.zst"))
}

/// Where an entry goes among entries already in path order: before the first one whose path
/// is not smaller.
pub open spec fn path_position(sorted: Seq<(Seq<char>, u64)>, path: Seq<char>) -> int {
    if exists|i: int| 0 <= i < sorted.len() && !spec_path_lt(sorted[i].0, path) {
        choose|i: int|
            0 <= i < sorted.len() && !spec_path_lt(sorted[i].0, path) && forall|j: int|
                0 <= j < i ==> spec_path_lt(sorted[j].0, path)
    } else {
        sorted.len() as int
    }
}

/// Entries in ascending path order; entries with equal paths keep their order.
pub open spec fn sort_by_path(s: Seq<(Seq<char>, u64)>) -> Seq<(Seq<char>, u64)>
    decreases s.len(),
{
    if s.len() == 0 {
        s
    } else {
        let rest = sort_by_path(s.drop_first());
        rest.insert(path_position(rest, s[0].0), s[0])
    }
}

pub open spec fn entry_views(v: Seq<(String, u64)>) -> Seq<(Seq<char>, u64)> {
    v.map_values(|e: (String, u64)| (e.0@, e.1))
}

fn insert_by_path(sorted: &mut Vec<(String, u64)>, entry: (String, u64))
    ensures
        entry_views(final(sorted)@) == entry_views(old(sorted)@).insert(
            path_position(entry_views(old(sorted)@), entry.0@),
            (entry.0@, entry.1),
        ),
{
    let ghost s = entry_views(old(sorted)@);
    let mut i: usize = 0;
    while i < sorted.len() && path_lt(sorted[i].0.as_str(), entry.0.as_str())
        invariant
            i <= sorted@.len(),
            sorted@ == old(sorted)@,
            s == entry_views(sorted@),
            forall|j: int| 0 <= j < i ==> spec_path_lt(#[trigger] s[j].0, entry.0@),
        decreases sorted.len() - i,
    {
        i = i + 1;
    }
    proof {
        if i < s.len() {
            assert(s[i as int].0 == sorted@[i as int].0@);
            assert(!spec_path_lt(s[i as int].0, entry.0@));
            assert(0 <= i < s.len() && !spec_path_lt(s[i as int].0, entry.0@) && forall|j: int|
                0 <= j < i ==> spec_path_lt(s[j].0, entry.0@));
            let c = path_position(s, entry.0@);
            if c < i {
                assert(spec_path_lt(s[c].0, entry.0@));
            }
            if c > i {
                assert(!spec_path_lt(s[i as int].0, entry.0@));
            }
            assert(c == i);
        } else {
            assert(forall|k: int| 0 <= k < s.len() ==> spec_path_lt(#[trigger] s[k].0, entry.0@));
            assert(path_position(s, entry.0@) == s.len());
        }
    }
    let ghost ev = (entry.0@, entry.1);
    sorted.insert(i, entry);
    proof {
        assert(entry_views(sorted@) =~= s.insert(i as int, ev));
    }
}

/// Sorts entries by path, keeping entries with equal paths in their order.
pub(crate) fn sort_entries_by_path(entries: Vec<(String, u64)>) -> (r: Vec<(String, u64)>)
    ensures
        entry_views(r@) == sort_by_path(entry_views(entries@)),
{
    let ghost input = entry_views(entries@);
    let mut rest = entries;
    let mut sorted: Vec<(String, u64)> = Vec::new();
    proof {
        assert(input.skip(input.len() as int) =~= Seq::<(Seq<char>, u64)>::empty());
    }
    while rest.len() > 0
        invariant
            entry_views(rest@) == input.take(rest@.len() as int),
            rest@.len() <= input.len(),
            entry_views(sorted@) == sort_by_path(input.skip(rest@.len() as int)),
        decreases rest.len(),
    {
        let ghost k = rest@.len() as int;
        let ghost old_rest = rest@;
        let e = rest.pop().unwrap();
        proof {
            assert(e == old_rest[k - 1]);
            assert(entry_views(old_rest)[k - 1] == (e.0@, e.1));
            assert(input.take(k)[k - 1] == input[k - 1]);
            assert(entry_views(rest@) =~= input.take(k - 1));
            assert(input[k - 1] == (e.0@, e.1));
            assert(input.skip(k - 1).drop_first() =~= input.skip(k));
            assert(input.skip(k - 1)[0] == input[k - 1]);
        }
        insert_by_path(&mut sorted, e);
    }
    proof {
        assert(input.skip(0) =~= input);
    }
    sorted
}

/// The Parquet archives among the files found, in path order.
pub open spec fn spec_list_archive_files(files: Seq<(Seq<char>, u64)>) -> Seq<(Seq<char>, u64)> {
    sort_by_path(files.filter(|f: (Seq<char>, u64)| spec_is_parquet_file(f.0)))
}

/// The frozen archives among the files found, in path order.
pub open spec fn spec_list_frozen_files(files: Seq<(Seq<char>, u64)>) -> Seq<(Seq<char>, u64)> {
    sort_by_path(files.filter(|f: (Seq<char>, u64)| spec_is_frozen_archive(f.0)))
}

pub open spec fn archive_views(v: Seq<ArchiveFile>) -> Seq<(Seq<char>, u64)> {
    v.map_values(|f: ArchiveFile| (f.path@, f.bytes))
}

pub open spec fn frozen_views(v: Seq<FrozenFile>) -> Seq<(Seq<char>, u64)> {
    v.map_values(|f: FrozenFile| (f.path@, f.bytes))
}

proof fn lemma_filter_push_entry(s: Seq<(Seq<char>, u64)>, x: (Seq<char>, u64), p: spec_fn((Seq<char>, u64)) -> bool)
    ensures
        s.push(x).filter(p) == if p(x) {
            s.filter(p).push(x)
        } else {
            s.filter(p)
        },
{
    reveal_with_fuel(Seq::filter, 1);
    assert(s.push(x).drop_last() =~= s);
}

/// The files found (regular files at any depth, with their sizes) that are Parquet archives,
/// sorted by path.
pub fn list_archive_files(files: Vec<ArchiveFile>) -> (r: Vec<ArchiveFile>)
    ensures
        archive_views(r@) == spec_list_archive_files(archive_views(files@)),
{
    let ghost input = archive_views(files@);
    let ghost pred = |f: (Seq<char>, u64)| spec_is_parquet_file(f.0);
    let mut picked: Vec<(String, u64)> = Vec::new();
    let mut i: usize = 0;
    proof {
        reveal_with_fuel(Seq::filter, 1);
        assert(input.take(0) =~= Seq::<(Seq<char>, u64)>::empty());
    }
    while i < files.len()
        invariant
            i <= files@.len(),
            input == archive_views(files@),
            pred == (|f: (Seq<char>, u64)| spec_is_parquet_file(f.0)),
            entry_views(picked@) == input.take(i as int).filter(pred),
        decreases files.len() - i,
    {
        let f = &files[i];
        proof {
            assert(input[i as int] == (f.path@, f.bytes));
            assert(input.take(i + 1) =~= input.take(i as int).push(input[i as int]));
            lemma_filter_push_entry(input.take(i as int), input[i as int], pred);
        }
        if is_parquet_file(f.path.as_str()) {
            let ghost before = entry_views(picked@);
            picked.push((f.path.clone(), f.bytes));
            proof {
                assert(entry_views(picked@) =~= before.push((f.path@, f.bytes)));
            }
        }
        i = i + 1;
    }
    proof {
        assert(input.take(files@.len() as int) =~= input);
    }
    let sorted = sort_entries_by_path(picked);
    let mut out: Vec<ArchiveFile> = Vec::new();
    let mut k: usize = 0;
    while k < sorted.len()
        invariant
            k <= sorted@.len(),
            archive_views(out@) == entry_views(sorted@).take(k as int),
        decreases sorted.len() - k,
    {
        let ghost before = archive_views(out@);
        out.push(ArchiveFile { path: sorted[k].0.clone(), bytes: sorted[k].1 });
        proof {
            assert(archive_views(out@) =~= before.push(entry_views(sorted@)[k as int]));
            assert(entry_views(sorted@).take(k + 1) =~= entry_views(sorted@).take(k as int).push(
                entry_views(sorted@)[k as int],
            ));
        }
        k = k + 1;
    }
    proof {
        assert(entry_views(sorted@).take(sorted@.len() as int) =~= entry_views(sorted@));
    }
    out
}

/// The files found (regular files at any depth, with their sizes) that are frozen archives,
/// sorted by path.
pub fn list_frozen_files(files: Vec<FrozenFile>) -> (r: Vec<FrozenFile>)
    ensures
        frozen_views(r@) == spec_list_frozen_files(frozen_views(files@)),
{
    let ghost input = frozen_views(files@);
    let ghost pred = |f: (Seq<char>, u64)| spec_is_frozen_archive(f.0);
    let mut picked: Vec<(String, u64)> = Vec::new();
    let mut i: usize = 0;
    proof {
        reveal_with_fuel(Seq::filter, 1);
        assert(input.take(0) =~= Seq::<(Seq<char>, u64)>::empty());
    }
    while i < files.len()
        invariant
            i <= files@.len(),
            input == frozen_views(files@),
            pred == (|f: (Seq<char>, u64)| spec_is_frozen_archive(f.0)),
            entry_views(picked@) == input.take(i as int).filter(pred),
        decreases files.len() - i,
    {
        let f = &files[i];
        proof {
            assert(input[i as int] == (f.path@, f.bytes));
            assert(input.take(i + 1) =~= input.take(i as int).push(input[i as int]));
            lemma_filter_push_entry(input.take(i as int), input[i as int], pred);
        }
        if is_frozen_archive(f.path.as_str()) {
            let ghost before = entry_views(picked@);
            picked.push((f.path.clone(), f.bytes));
            proof {
                assert(entry_views(picked@) =~= before.push((f.path@, f.bytes)));
            }
        }
        i = i + 1;
    }
    proof {
        assert(input.take(files@.len() as int) =~= input);
    }
    let sorted = sort_entries_by_path(picked);
    let mut out: Vec<FrozenFile> = Vec::new();
    let mut k: usize = 0;
    while k < sorted.len()
        invariant
            k <= sorted@.len(),
            frozen_views(out@) == entry_views(sorted@).take(k as int),
        decreases sorted.len() - k,
    {
        let ghost before = frozen_views(out@);
        out.push(FrozenFile { path: sorted[k].0.clone(), bytes: sorted[k].1 });
        proof {
            assert(frozen_views(out@) =~= before.push(entry_views(sorted@)[k as int]));
            assert(entry_views(sorted@).take(k + 1) =~= entry_views(sorted@).take(k as int).push(
                entry_views(sorted@)[k as int],
            ));
        }
        k = k + 1;
    }
    proof {
        assert(entry_views(sorted@).take(sorted@.len() as int) =~= entry_views(sorted@));
    }
    out
}

} // verus!
