//! Expansion of file, directory and pattern arguments into the files to read.
//!
//! The filesystem is read by the caller: it asks `classify` which question to
//! put for each argument, and hands the answers to `expand_files`, which
//! decides what each argument contributes.

use vstd::prelude::*;
use crate::args::texts_of;

verus! {

/// How an argument is to be resolved.
#[derive(PartialEq, Eq, Structural, Clone, Copy, Debug)]
pub enum Probe {
    /// It names a regular file: taken as it is.
    PlainFile,
    /// It names a directory: its direct children are listed.
    Directory,
    /// Anything else: it is expanded as a glob pattern.
    Pattern,
}

/// A regular file comes first, then a directory, then a pattern.
pub open spec fn probe_of(is_file: bool, is_dir: bool) -> Probe {
    if is_file {
        Probe::PlainFile
    } else if is_dir {
        Probe::Directory
    } else {
        Probe::Pattern
    }
}

/// Picks how to resolve an argument from what the filesystem says of it.
pub fn classify(is_file: bool, is_dir: bool) -> (r: Probe)
    ensures
        r == probe_of(is_file, is_dir),
{
    if is_file {
        Probe::PlainFile
    } else if is_dir {
        Probe::Directory
    } else {
        Probe::Pattern
    }
}

/// A path listed in a directory or matched by a pattern.
pub struct Entry {
    pub path: String,
    /// Whether the path is a regular file.
    pub is_file: bool,
}

/// What the filesystem gave for one argument.
pub enum Resolution {
    /// The argument is a regular file.
    PlainFile,
    /// The argument is a directory: its children, or `None` when it could not be read.
    Directory(Option<Vec<Entry>>),
    /// The argument is a pattern: its matches, or why the pattern is invalid.
    Pattern(Result<Vec<Entry>, String>),
}

/// The paths and the warnings of an expansion.
pub struct Expansion {
    pub paths: Vec<String>,
    pub warnings: Vec<String>,
}

/// The paths of the entries that are regular files, in order.
pub open spec fn regular_files(entries: Seq<Entry>) -> Seq<Seq<char>>
    decreases entries.len(),
{
    if entries.len() == 0 {
        Seq::empty()
    } else {
        let e = entries.last();
        let before = regular_files(entries.drop_last());
        if e.is_file {
            before.push(e.path@)
        } else {
            before
        }
    }
}

/// The warning for an invalid pattern.
pub open spec fn pattern_warning_spec(pattern: Seq<char>, reason: Seq<char>) -> Seq<char> {
    "Invalid glob pattern '"@ + pattern + "': "@ + reason
}

/// The warning for a pattern that matches no regular file.
pub open spec fn no_match_warning_spec(pattern: Seq<char>) -> Seq<char> {
    "No file matches pattern '"@ + pattern + "'"@
}

/// The paths that one argument contributes.
pub open spec fn resolved_paths(name: Seq<char>, r: Resolution) -> Seq<Seq<char>> {
    match r {
        Resolution::PlainFile => seq![name],
        Resolution::Directory(Some(entries)) => regular_files(entries@),
        Resolution::Directory(None) => Seq::empty(),
        Resolution::Pattern(Ok(entries)) => regular_files(entries@),
        Resolution::Pattern(Err(_)) => Seq::empty(),
    }
}

/// The warnings that one argument gives: one for an invalid pattern, one for
/// a valid pattern that matches no regular file, else none.
pub open spec fn resolved_warnings(name: Seq<char>, r: Resolution) -> Seq<Seq<char>> {
    match r {
        Resolution::Pattern(Err(reason)) => seq![pattern_warning_spec(name, reason@)],
        Resolution::Pattern(Ok(entries)) => if regular_files(entries@).len() == 0 {
            seq![no_match_warning_spec(name)]
        } else {
            Seq::empty()
        },
        _ => Seq::empty(),
    }
}

/// The paths that the arguments `names` contribute, in order, with no deduplication.
pub open spec fn expanded_paths(names: Seq<Seq<char>>, rs: Seq<Resolution>) -> Seq<Seq<char>>
    decreases names.len(),
{
    if names.len() == 0 {
        Seq::empty()
    } else {
        let k = names.len() - 1;
        expanded_paths(names.drop_last(), rs.drop_last()) + resolved_paths(names[k], rs[k])
    }
}

/// The warnings that the arguments `names` give, in order.
pub open spec fn expansion_warnings(names: Seq<Seq<char>>, rs: Seq<Resolution>) -> Seq<Seq<char>>
    decreases names.len(),
{
    if names.len() == 0 {
        Seq::empty()
    } else {
        let k = names.len() - 1;
        expansion_warnings(names.drop_last(), rs.drop_last()) + resolved_warnings(names[k], rs[k])
    }
}

/// The warning printed for a pattern that is not valid.
pub fn pattern_warning(pattern: &str, reason: &str) -> (r: String)
    ensures
        r@ == pattern_warning_spec(pattern@, reason@),
{
    let mut r = String::from_str("Invalid glob pattern '");
    r.append(pattern);
    r.append("': ");
    r.append(reason);
    r
}

/// The warning printed for a pattern that matches no regular file.
pub fn no_match_warning(pattern: &str) -> (r: String)
    ensures
        r@ == no_match_warning_spec(pattern@),
{
    let mut r = String::from_str("No file matches pattern '");
    r.append(pattern);
    r.append("'");
    r
}

/// Appends the paths of the entries that are regular files.
fn push_regular_files(paths: &mut Vec<String>, entries: &Vec<Entry>)
    ensures
        texts_of(final(paths)@) == texts_of(old(paths)@) + regular_files(entries@),
{
    let ghost start = texts_of(paths@);
    let mut j: usize = 0;
    assert(entries@.take(0) =~= Seq::<Entry>::empty());
    assert(texts_of(paths@) =~= start + Seq::<Seq<char>>::empty());
    while j < entries.len()
        invariant
            j <= entries.len(),
            texts_of(paths@) == start + regular_files(entries@.take(j as int)),
        decreases entries.len() - j,
    {
        assert(entries@.take(j + 1).drop_last() =~= entries@.take(j as int));
        let ghost before = texts_of(paths@);
        if entries[j].is_file {
            paths.push(entries[j].path.clone());
            assert(texts_of(paths@) =~= before.push(entries@[j as int].path@));
        }
        j = j + 1;
    }
    assert(entries@.take(entries.len() as int) =~= entries@);
}

/// Expands each argument of `files` by what the filesystem gave for it in
/// `found`: a regular file as it is, a directory as its children that are
/// regular files, a pattern as its matches that are regular files.
pub fn expand_files(files: &Vec<String>, found: &Vec<Resolution>) -> (r: Expansion)
    requires
        found.len() == files.len(),
    ensures
        texts_of(r.paths@) == expanded_paths(texts_of(files@), found@),
        texts_of(r.warnings@) == expansion_warnings(texts_of(files@), found@),
{
    let ghost names = texts_of(files@);
    let mut paths: Vec<String> = Vec::new();
    let mut warnings: Vec<String> = Vec::new();
    let n = files.len();
    let mut i: usize = 0;
    assert(texts_of(paths@) =~= Seq::<Seq<char>>::empty());
    assert(texts_of(warnings@) =~= Seq::<Seq<char>>::empty());
    while i < n
        invariant
            i <= n,
            n == files.len(),
            n == found.len(),
            names == texts_of(files@),
            texts_of(paths@) == expanded_paths(names.take(i as int), found@.take(i as int)),
            texts_of(warnings@) == expansion_warnings(names.take(i as int), found@.take(i as int)),
        decreases n - i,
    {
        assert(names.take(i + 1).drop_last() =~= names.take(i as int));
        assert(found@.take(i + 1).drop_last() =~= found@.take(i as int));
        assert(names[i as int] == files@[i as int]@);
        let ghost paths_before = texts_of(paths@);
        let ghost warnings_before = texts_of(warnings@);
        match &found[i] {
            Resolution::PlainFile => {
                paths.push(files[i].clone());
                assert(texts_of(paths@) =~= paths_before + seq![names[i as int]]);
                assert(texts_of(warnings@) =~= warnings_before + Seq::<Seq<char>>::empty());
            },
            Resolution::Directory(Some(entries)) => {
                push_regular_files(&mut paths, entries);
                assert(texts_of(warnings@) =~= warnings_before + Seq::<Seq<char>>::empty());
            },
            Resolution::Pattern(Ok(entries)) => {
                let count_before = paths.len();
                push_regular_files(&mut paths, entries);
                assert(texts_of(paths@).len() == paths@.len());
                assert(paths_before.len() == count_before);
                if paths.len() == count_before {
                    warnings.push(no_match_warning(files[i].as_str()));
                    assert(texts_of(warnings@) =~= warnings_before + seq![
                        no_match_warning_spec(names[i as int]),
                    ]);
                } else {
                    assert(texts_of(warnings@) =~= warnings_before + Seq::<Seq<char>>::empty());
                }
            },
            Resolution::Pattern(Err(reason)) => {
                let w = pattern_warning(files[i].as_str(), reason.as_str());
                warnings.push(w);
                assert(texts_of(paths@) =~= paths_before + Seq::<Seq<char>>::empty());
                assert(texts_of(warnings@) =~= warnings_before + seq![
                    pattern_warning_spec(names[i as int], reason@),
                ]);
            },
            Resolution::Directory(None) => {
                assert(texts_of(paths@) =~= paths_before + Seq::<Seq<char>>::empty());
                assert(texts_of(warnings@) =~= warnings_before + Seq::<Seq<char>>::empty());
            },
        }
        i = i + 1;
    }
    assert(names.take(n as int) =~= names);
    assert(found@.take(n as int) =~= found@);
    Expansion { paths, warnings }
}

/// When every entry is a regular file, all their paths are kept, in order.
proof fn lemma_all_regular(entries: Seq<Entry>)
    requires
        forall|k: int| 0 <= k < entries.len() ==> (#[trigger] entries[k]).is_file,
    ensures
        regular_files(entries) == entries.map_values(|e: Entry| e.path@),
    decreases entries.len(),
{
    if entries.len() > 0 {
        lemma_all_regular(entries.drop_last());
        assert(entries.map_values(|e: Entry| e.path@) =~= entries.drop_last().map_values(
            |e: Entry| e.path@,
        ).push(entries.last().path@));
    } else {
        assert(entries.map_values(|e: Entry| e.path@) =~= Seq::<Seq<char>>::empty());
    }
}

/// A single argument expands to what it alone contributes.
proof fn lemma_single_argument(name: Seq<char>, r: Resolution)
    ensures
        expanded_paths(seq![name], seq![r]) == resolved_paths(name, r),
        expansion_warnings(seq![name], seq![r]) == resolved_warnings(name, r),
{
    let names = seq![name];
    let rs = seq![r];
    assert(names.drop_last() =~= Seq::<Seq<char>>::empty());
    assert(rs.drop_last() =~= Seq::<Resolution>::empty());
    assert(names[0] == name);
    assert(rs[0] == r);
    assert(expanded_paths(names.drop_last(), rs.drop_last()) == Seq::<Seq<char>>::empty());
    assert(expansion_warnings(names.drop_last(), rs.drop_last()) == Seq::<Seq<char>>::empty());
    assert(expanded_paths(names, rs) =~= resolved_paths(name, r));
    assert(expansion_warnings(names, rs) =~= resolved_warnings(name, r));
}

/// An argument that is a regular file expands to exactly itself.
pub proof fn lemma_plain_file_kept(name: Seq<char>)
    ensures
        expanded_paths(seq![name], seq![Resolution::PlainFile]) == seq![name],
        expansion_warnings(seq![name], seq![Resolution::PlainFile]).len() == 0,
{
    lemma_single_argument(name, Resolution::PlainFile);
}

/// A directory whose children are all regular files expands to exactly their
/// paths, each once, in the order listed.
pub proof fn lemma_directory_of_files(name: Seq<char>, entries: Vec<Entry>)
    requires
        forall|k: int| 0 <= k < entries@.len() ==> (#[trigger] entries@[k]).is_file,
    ensures
        expanded_paths(seq![name], seq![Resolution::Directory(Some(entries))])
            == entries@.map_values(|e: Entry| e.path@),
{
    lemma_all_regular(entries@);
    lemma_single_argument(name, Resolution::Directory(Some(entries)));
}

/// A pattern that yields no regular file, because it is invalid or matches
/// none, contributes no path and exactly one warning.
pub proof fn lemma_unmatched_pattern_warns_once(name: Seq<char>, r: Resolution)
    requires
        r is Pattern,
        resolved_paths(name, r).len() == 0,
    ensures
        expanded_paths(seq![name], seq![r]).len() == 0,
        expansion_warnings(seq![name], seq![r]).len() == 1,
{
    lemma_single_argument(name, r);
}

/// An invalid pattern's one warning names the pattern and gives the reason.
pub proof fn lemma_invalid_pattern_warning(name: Seq<char>, reason: String)
    ensures
        expansion_warnings(seq![name], seq![Resolution::Pattern(Err(reason))])
            == seq![pattern_warning_spec(name, reason@)],
{
    lemma_single_argument(name, Resolution::Pattern(Err(reason)));
}

} // verus!
