//! Configuration consumed by the indexer: the scan root, the symlink and
//! hidden-file policies, the ignore patterns and the remote endpoint.  The
//! surrounding program loads and persists it; the library only reads it.

use vstd::prelude::*;

verus! {

/// Run configuration.  `ignore_files` holds glob patterns matched against a
/// file's base name; a matching file is excluded from the walk.
pub struct Settings {
    /// Location of the remote notification service.
    pub api_url: String,
    /// Root directory to scan.
    pub directory: String,
    /// Whether the walk descends into symlinked directories.
    pub follow_links: bool,
    /// Whether files whose base name starts with `.` are excluded.
    pub ignore_hidden: bool,
    /// Glob patterns; a file whose base name matches any of them is excluded.
    pub ignore_files: Vec<String>,
}

impl Settings {
    /// The configured ignore patterns, as written in the configuration.
    pub fn get_ignore_patterns(&self) -> (r: &Vec<String>)
        ensures
            r == &self.ignore_files,
    {
        &self.ignore_files
    }
}

} // verus!
