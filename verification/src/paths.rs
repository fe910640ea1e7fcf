//! Maps an absolute file path to the path relative to its addon root and to
//! the addon name, by a fixed path-segment convention: the relative path
//! starts at the first occurrence of the marker character `@`, and the addon
//! name is the first segment of the relative path, up to the first path
//! separator.  A path without the marker, or a relative path without a
//! separator, is used whole.

use vstd::prelude::*;
use vstd::string::*;

verus! {

/// Marker character that opens an addon root segment.
pub const ADDON_MARKER: char = '@';

/// Path separator the convention splits on.
pub const PATH_SEPARATOR: char = '/';

/// Whether `c` occurs anywhere in `s`.
pub open spec fn contains_char(s: Seq<char>, c: char) -> bool {
    exists|i: int| 0 <= i < s.len() && s[i] == c
}

/// Whether `i` is the index of the first occurrence of `c` in `s`.
pub open spec fn is_first_index_of(s: Seq<char>, c: char, i: int) -> bool {
    &&& 0 <= i < s.len()
    &&& s[i] == c
    &&& forall|j: int| 0 <= j < i ==> s[j] != c
}

/// Index of the first occurrence of `c` in `s`; meaningful only when
/// `contains_char(s, c)` holds.
pub open spec fn first_index_of(s: Seq<char>, c: char) -> int {
    choose|i: int| is_first_index_of(s, c, i)
}

/// A first occurrence is unique, so it is what `first_index_of` denotes.
pub proof fn lemma_first_index_of(s: Seq<char>, c: char, i: int)
    requires
        is_first_index_of(s, c, i),
    ensures
        contains_char(s, c),
        first_index_of(s, c) == i,
{
    assert(contains_char(s, c));
    let k = first_index_of(s, c);
    assert(is_first_index_of(s, c, k));
    if k < i {
        assert(s[k] != c);
    }
    if i < k {
        assert(s[i] != c);
    }
}

/// The suffix of the path from the first `@` on, or the whole path if there
/// is no `@`.
pub open spec fn spec_relative_filepath(path: Seq<char>) -> Seq<char> {
    if contains_char(path, ADDON_MARKER) {
        path.subrange(first_index_of(path, ADDON_MARKER), path.len() as int)
    } else {
        path
    }
}

/// The prefix of the relative path up to (not including) the first path
/// separator, or the whole relative path if there is no separator.
pub open spec fn spec_addon_name(relative: Seq<char>) -> Seq<char> {
    if contains_char(relative, PATH_SEPARATOR) {
        relative.subrange(0, first_index_of(relative, PATH_SEPARATOR))
    } else {
        relative
    }
}

/// Index of the first occurrence of `c` in `s`, scanning left to right.
fn find_char(s: &str, c: char) -> (r: Option<usize>)
    ensures
        match r {
            Some(i) => is_first_index_of(s@, c, i as int),
            None => !contains_char(s@, c),
        },
{
    let n = s.unicode_len();
    let mut i: usize = 0;
    while i < n
        invariant
            i <= n,
            n == s@.len(),
            forall|j: int| 0 <= j < i ==> s@[j] != c,
        decreases n - i,
    {
        if s.get_char(i) == c {
            return Some(i);
        }
        i = i + 1;
    }
    None
}

/// Path of the file relative to its addon root: the substring starting at
/// the first `@` in the absolute path, or the whole path if the marker is
/// absent.
pub fn extract_relative_filepath(absolute_filepath: &String) -> (r: String)
    ensures
        r@ == spec_relative_filepath(absolute_filepath@),
{
    let s = absolute_filepath.as_str();
    match find_char(s, ADDON_MARKER) {
        Some(i) => {
            proof {
                lemma_first_index_of(s@, ADDON_MARKER, i as int);
            }
            let n = s.unicode_len();
            s.substring_char(i, n).to_owned()
        },
        None => absolute_filepath.clone(),
    }
}

/// Name of the addon a relative path belongs to: the first path segment of
/// the relative path, or the whole relative path if it has no separator.
pub fn extract_addon_name(relative_filepath: &String) -> (r: String)
    ensures
        r@ == spec_addon_name(relative_filepath@),
{
    let s = relative_filepath.as_str();
    match find_char(s, PATH_SEPARATOR) {
        Some(i) => {
            proof {
                lemma_first_index_of(s@, PATH_SEPARATOR, i as int);
            }
            s.substring_char(0, i).to_owned()
        },
        None => relative_filepath.clone(),
    }
}

} // verus!
