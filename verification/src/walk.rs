//! Exclusion rules of the tree walker.  The walk itself (directory I/O,
//! symlink handling) happens outside the library; each enumerated entry is
//! handed in as plain values, and the library decides which entries are part
//! of the run: directories never, hidden files by policy, and nothing whose
//! base name matches an ignore pattern.

use vstd::prelude::*;
use vstd::string::*;
use crate::settings::Settings;

verus! {

/// One entry enumerated by the directory walk, reduced to what the
/// exclusion rules read.
pub struct WalkEntry {
    /// Path of the entry as seen on disk.
    pub absolute_filepath: String,
    /// Base name of the entry (the final path component).
    pub file_name: String,
    /// Whether the entry is a directory.
    pub is_dir: bool,
}

/// Whether glob pattern `pattern` matches `name`; a function of the two
/// strings alone.  A pattern that does not parse matches nothing.
pub uninterp spec fn glob_matches(pattern: Seq<char>, name: Seq<char>) -> bool;

/// Relies on glob::Pattern::matches (with default match options): whether a
/// pattern matches a name depends only on the pattern text and the name.
/// A pattern that glob::Pattern::new rejects matches nothing.
#[verifier::external_body]
fn glob_match(pattern: &str, name: &str) -> (r: bool)
    ensures
        r == glob_matches(pattern@, name@),
{
    match glob::Pattern::new(pattern) {
        Ok(p) => p.matches(name),
        Err(_) => false,
    }
}

/// Whether a base name falls under the hidden-file policy.
pub open spec fn spec_is_hidden(name: Seq<char>) -> bool {
    name.len() > 0 && name[0] == '.'
}

/// Whether any configured ignore pattern matches the base name.
pub open spec fn spec_matches_ignore_pattern(patterns: Seq<String>, name: Seq<char>) -> bool {
    exists|i: int| 0 <= i < patterns.len() && glob_matches(patterns[i]@, name)
}

/// Whether the walk excludes `entry`: directories always; hidden files when
/// the policy says so; and any entry whose base name matches an ignore
/// pattern, regardless of the other settings.
pub open spec fn spec_is_ignored(entry: WalkEntry, settings: Settings) -> bool {
    ||| entry.is_dir
    ||| (settings.ignore_hidden && spec_is_hidden(entry.file_name@))
    ||| spec_matches_ignore_pattern(settings.ignore_files@, entry.file_name@)
}

/// Whether the walk excludes this entry under `settings`.
pub fn is_file_ignored(entry: &WalkEntry, settings: &Settings) -> (r: bool)
    ensures
        r == spec_is_ignored(*entry, *settings),
{
    if entry.is_dir {
        return true;
    }
    if settings.ignore_hidden && is_hidden(&entry.file_name) {
        return true;
    }
    let n = settings.ignore_files.len();
    let mut i: usize = 0;
    while i < n
        invariant
            i <= n,
            n == settings.ignore_files@.len(),
            forall|j: int|
                0 <= j < i ==> !glob_matches(settings.ignore_files@[j]@, entry.file_name@),
        decreases n - i,
    {
        if glob_match(settings.ignore_files[i].as_str(), entry.file_name.as_str()) {
            return true;
        }
        i = i + 1;
    }
    false
}

/// Whether a base name starts with the hidden-file marker `.`.
fn is_hidden(name: &String) -> (r: bool)
    ensures
        r == spec_is_hidden(name@),
{
    let s = name.as_str();
    if s.unicode_len() == 0 {
        false
    } else {
        s.get_char(0) == '.'
    }
}

/// The entries of one walk that take part in the run: those not excluded,
/// in the order they were enumerated.
#[verifier::loop_isolation(false)]
pub fn filter_files(entries: Vec<WalkEntry>, settings: &Settings) -> (r: Vec<WalkEntry>)
    ensures
        r@ == entries@.filter(|e: WalkEntry| !spec_is_ignored(e, *settings)),
{
    let mut r: Vec<WalkEntry> = Vec::new();
    let n = entries.len();
    let mut i: usize = 0;
    while i < n
        invariant
            i <= n,
            r@ == entries@.take(i as int).filter(|e: WalkEntry| !spec_is_ignored(e, *settings)),
        decreases n - i,
    {
        let keep = !is_file_ignored(&entries[i], settings);
        proof {
            reveal(Seq::filter);
            assert(entries@.take(i as int + 1).drop_last() =~= entries@.take(i as int));
            assert(entries@.take(i as int + 1).last() == entries@[i as int]);
        }
        if keep {
            let e = copy_entry(&entries[i]);
            r.push(e);
        }
        i = i + 1;
    }
    proof {
        assert(entries@.take(n as int) =~= entries@);
    }
    r
}

/// A copy of a walk entry with the same fields.
fn copy_entry(entry: &WalkEntry) -> (r: WalkEntry)
    ensures
        r == *entry,
{
    WalkEntry {
        absolute_filepath: entry.absolute_filepath.clone(),
        file_name: entry.file_name.clone(),
        is_dir: entry.is_dir,
    }
}

} // verus!
