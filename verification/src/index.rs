//! The index builder: transforms the cache, once a run's walk is complete,
//! into the externally published index.  The index maps each addon name to
//! a summary of the addon; a file appears under its relative path with its
//! size and content hash.  Absolute paths and timestamps stay internal and
//! are never exposed.

use vstd::prelude::*;
use crate::cache::{FileIndexView, FilesCache, LocalAddonView};
use crate::keyed::{find_key, has_key, key_index, keyed_map, keys_unique, Keyed,
    lemma_keyed_map_at, lemma_keyed_map_push, lemma_keyed_map_update};

verus! {

/// One published file: its relative path, size and content hash.
#[derive(Debug, PartialEq)]
pub struct AddonFile {
    /// Path of the file relative to its addon root.
    pub file_path: String,
    /// Size in bytes.
    pub file_size: u64,
    /// Content hash.
    pub file_hash: String,
}

/// Specification-level image of a published file.
pub ghost struct AddonFileView {
    pub file_path: Seq<char>,
    pub file_size: u64,
    pub file_hash: Seq<char>,
}

impl View for AddonFile {
    type V = AddonFileView;

    open spec fn view(&self) -> AddonFileView {
        AddonFileView {
            file_path: self.file_path@,
            file_size: self.file_size,
            file_hash: self.file_hash@,
        }
    }
}

impl Keyed for AddonFile {
    open spec fn key(&self) -> Seq<char> {
        self.file_path@
    }

    fn key_ref(&self) -> (r: &String) {
        &self.file_path
    }
}

/// One published addon summary: name, remote identifier, version tag, and
/// the files keyed by relative path.
#[derive(Debug, PartialEq)]
pub struct Addon {
    /// The addon's name.
    pub addon_name: String,
    /// Remote identifier of the addon.
    pub addon_uuid: String,
    /// Version tag of the addon's last change.
    pub addon_version: String,
    /// Published files, one per relative path.
    pub addon_files: Vec<AddonFile>,
}

/// Specification-level image of a published addon.
pub ghost struct AddonView {
    pub addon_name: Seq<char>,
    pub addon_uuid: Seq<char>,
    pub addon_version: Seq<char>,
    pub addon_files: Map<Seq<char>, AddonFileView>,
}

impl View for Addon {
    type V = AddonView;

    open spec fn view(&self) -> AddonView {
        AddonView {
            addon_name: self.addon_name@,
            addon_uuid: self.addon_uuid@,
            addon_version: self.addon_version@,
            addon_files: keyed_map(self.addon_files@),
        }
    }
}

impl Keyed for Addon {
    open spec fn key(&self) -> Seq<char> {
        self.addon_name@
    }

    fn key_ref(&self) -> (r: &String) {
        &self.addon_name
    }
}

/// The published index: one summary per addon, keyed by addon name.
#[derive(Debug, PartialEq)]
pub struct FilesIndex {
    /// The addon summaries.
    pub addons: Vec<Addon>,
}

impl View for FilesIndex {
    type V = Map<Seq<char>, AddonView>;

    open spec fn view(&self) -> Map<Seq<char>, AddonView> {
        keyed_map(self.addons@)
    }
}

impl FilesIndex {
    /// Distinct addon names, each summary with distinct relative paths.
    pub open spec fn wf(&self) -> bool {
        &&& keys_unique(self.addons@)
        &&& forall|i: int| 0 <= i < self.addons@.len()
            ==> keys_unique((#[trigger] self.addons@[i]).addon_files@)
    }
}

/// What the index publishes of a stored file record.
pub open spec fn spec_published_file(c: FileIndexView) -> AddonFileView {
    AddonFileView { file_path: c.relative_filepath, file_size: c.filesize, file_hash: c.hash }
}

/// Whether `a` is the published summary of the cached addon record `c`: the
/// identity fields are carried over, a relative path is published exactly
/// when some stored record has it, and each published file is the
/// projection of a stored record with that relative path.
pub open spec fn spec_addon_summary_matches(a: AddonView, c: LocalAddonView) -> bool {
    &&& a.addon_name == c.name
    &&& a.addon_uuid == c.uuid
    &&& a.addon_version == c.version
    &&& (forall|rel: Seq<char>| #[trigger] a.addon_files.contains_key(rel) <==> exists|abs: Seq<char>|
        c.files.contains_key(abs) && (#[trigger] c.files[abs]).relative_filepath == rel)
    &&& (forall|rel: Seq<char>| #[trigger] a.addon_files.contains_key(rel) ==> exists|abs: Seq<char>|
        c.files.contains_key(abs) && (#[trigger] c.files[abs]).relative_filepath == rel
            && a.addon_files[rel] == spec_published_file(c.files[abs]))
}

/// The published files of one addon: each stored record projected to its
/// relative path, size and hash.  When two stored records share a relative
/// path, the later one in stored order is published.
fn build_addon_files(files: &Vec<crate::cache::FileIndex>) -> (r: Vec<AddonFile>)
    requires
        keys_unique(files@),
    ensures
        keys_unique(r@),
        forall|rel: Seq<char>| #[trigger] keyed_map(r@).contains_key(rel) <==> exists|abs: Seq<char>|
            keyed_map(files@).contains_key(abs)
                && (#[trigger] keyed_map(files@)[abs]).relative_filepath == rel,
        forall|rel: Seq<char>| #[trigger] keyed_map(r@).contains_key(rel) ==> exists|abs: Seq<char>|
            keyed_map(files@).contains_key(abs)
                && (#[trigger] keyed_map(files@)[abs]).relative_filepath == rel
                && keyed_map(r@)[rel] == spec_published_file(keyed_map(files@)[abs]),
{
    let n = files.len();
    let mut out: Vec<AddonFile> = Vec::new();
    let mut i: usize = 0;
    while i < n
        invariant
            i <= n,
            n == files@.len(),
            keys_unique(files@),
            keys_unique(out@),
            forall|rel: Seq<char>| #[trigger] has_key(out@, rel) <==> exists|t: int|
                0 <= t < i && (#[trigger] files@[t])@.relative_filepath == rel,
            forall|rel: Seq<char>| #[trigger] has_key(out@, rel) ==> exists|t: int|
                0 <= t < i && (#[trigger] files@[t])@.relative_filepath == rel
                    && keyed_map(out@)[rel] == spec_published_file(files@[t]@),
        decreases n - i,
    {
        let ghost pre = out@;
        let e = &files[i];
        let af = AddonFile {
            file_path: e.relative_filepath.clone(),
            file_size: e.filesize,
            file_hash: e.hash.clone(),
        };
        let ghost afk = af.key();
        match find_key(&out, &af.file_path) {
            Some(w) => {
                proof {
                    lemma_keyed_map_update(pre, w as int, af);
                }
                out[w] = af;
            },
            None => {
                proof {
                    lemma_keyed_map_push(pre, af);
                }
                out.push(af);
            },
        }
        proof {
            assert forall|rel: Seq<char>| #[trigger] has_key(out@, rel) implies exists|t: int|
                0 <= t < i + 1 && (#[trigger] files@[t])@.relative_filepath == rel by {
                if rel == afk {
                    assert((files@[i as int])@.relative_filepath == rel);
                } else {
                    assert(keyed_map(out@).contains_key(rel));
                    assert(keyed_map(pre).insert(afk, af@).contains_key(rel));
                    assert(has_key(pre, rel));
                }
            }
            assert forall|rel: Seq<char>| (exists|t: int|
                0 <= t < i + 1 && (#[trigger] files@[t])@.relative_filepath == rel) implies
                #[trigger] has_key(out@, rel) by {
                if rel != afk {
                    let t = choose|t: int| 0 <= t < i + 1
                        && (#[trigger] files@[t])@.relative_filepath == rel;
                    assert(0 <= t < i);
                    assert(has_key(pre, rel));
                    assert(keyed_map(pre).contains_key(rel));
                    assert(keyed_map(out@).contains_key(rel));
                } else {
                    assert(keyed_map(out@).contains_key(afk));
                }
            }
            assert forall|rel: Seq<char>| #[trigger] has_key(out@, rel) implies exists|t: int|
                0 <= t < i + 1 && (#[trigger] files@[t])@.relative_filepath == rel
                    && keyed_map(out@)[rel] == spec_published_file(files@[t]@) by {
                if rel == afk {
                    assert(keyed_map(out@)[rel] == af@);
                    assert((files@[i as int])@.relative_filepath == rel
                        && keyed_map(out@)[rel] == spec_published_file(files@[i as int]@));
                } else {
                    assert(keyed_map(pre).contains_key(rel));
                    assert(has_key(pre, rel));
                    let t = choose|t: int| 0 <= t < i
                        && (#[trigger] files@[t])@.relative_filepath == rel
                        && keyed_map(pre)[rel] == spec_published_file(files@[t]@);
                    assert(keyed_map(out@)[rel] == keyed_map(pre)[rel]);
                }
            }
        }
        i = i + 1;
    }
    proof {
        assert forall|rel: Seq<char>| #[trigger] keyed_map(out@).contains_key(rel) implies
            exists|abs: Seq<char>| keyed_map(files@).contains_key(abs)
                && (#[trigger] keyed_map(files@)[abs]).relative_filepath == rel by {
            let t = choose|t: int| 0 <= t < n && (#[trigger] files@[t])@.relative_filepath == rel;
            lemma_keyed_map_at(files@, t);
            assert(keyed_map(files@)[files@[t].key()].relative_filepath == rel);
        }
        assert forall|rel: Seq<char>| (exists|abs: Seq<char>|
            keyed_map(files@).contains_key(abs)
                && (#[trigger] keyed_map(files@)[abs]).relative_filepath == rel) implies
            #[trigger] keyed_map(out@).contains_key(rel) by {
            let abs = choose|abs: Seq<char>| keyed_map(files@).contains_key(abs)
                && (#[trigger] keyed_map(files@)[abs]).relative_filepath == rel;
            let t = key_index(files@, abs);
            lemma_keyed_map_at(files@, t);
            assert((files@[t])@.relative_filepath == rel);
            assert(has_key(out@, rel));
        }
        assert forall|rel: Seq<char>| #[trigger] keyed_map(out@).contains_key(rel) implies
            exists|abs: Seq<char>| keyed_map(files@).contains_key(abs)
                && (#[trigger] keyed_map(files@)[abs]).relative_filepath == rel
                && keyed_map(out@)[rel] == spec_published_file(keyed_map(files@)[abs]) by {
            let t = choose|t: int| 0 <= t < n && (#[trigger] files@[t])@.relative_filepath == rel
                && keyed_map(out@)[rel] == spec_published_file(files@[t]@);
            lemma_keyed_map_at(files@, t);
            assert(keyed_map(files@).contains_key(files@[t].key())
                && keyed_map(files@)[files@[t].key()].relative_filepath == rel
                && keyed_map(out@)[rel] == spec_published_file(keyed_map(files@)[files@[t].key()]));
        }
    }
    out
}

/// Build the externally published index from the cache: one summary per
/// addon, carrying its name, remote identifier and version tag, and each
/// stored file under its relative path with its size and content hash.
pub fn build_index(cache: &FilesCache) -> (r: FilesIndex)
    requires
        cache.wf(),
    ensures
        r.wf(),
        r@.dom() == cache@.dom(),
        forall|name: Seq<char>| cache@.contains_key(name)
            ==> spec_addon_summary_matches(#[trigger] r@[name], cache@[name]),
{
    let n = cache.addon_count();
    let mut out: Vec<Addon> = Vec::new();
    let mut i: usize = 0;
    while i < n
        invariant
            i <= n,
            cache.wf(),
            n == cache.map@.len(),
            out@.len() == i,
            forall|t: int| 0 <= t < i
                ==> (#[trigger] out@[t]).key() == cache.map@[t].key(),
            forall|t: int| 0 <= t < i
                ==> keys_unique((#[trigger] out@[t]).addon_files@),
            forall|t: int| 0 <= t < i
                ==> spec_addon_summary_matches((#[trigger] out@[t])@, cache.map@[t]@),
        decreases n - i,
    {
        let addon = cache.addon_at(i);
        let files = build_addon_files(&addon.files);
        let summary = Addon {
            addon_name: addon.name.clone(),
            addon_uuid: addon.uuid.clone(),
            addon_version: addon.version.clone(),
            addon_files: files,
        };
        proof {
            assert(summary@.addon_files == keyed_map(summary.addon_files@));
            assert(cache.map@[i as int]@.files == keyed_map(cache.map@[i as int].files@));
            assert(spec_addon_summary_matches(summary@, cache.map@[i as int]@));
        }
        out.push(summary);
        i = i + 1;
    }
    let r = FilesIndex { addons: out };
    proof {
        assert(keys_unique(r.addons@)) by {
            assert forall|p: int, q: int| 0 <= p < q < r.addons@.len() implies
                r.addons@[p].key() != r.addons@[q].key() by {
                assert(cache.map@[p].key() != cache.map@[q].key());
            }
        }
        assert forall|name: Seq<char>| #![auto] true implies
            (r@.contains_key(name) <==> cache@.contains_key(name)) by {
            if has_key(r.addons@, name) {
                let t = key_index(r.addons@, name);
                assert(cache.map@[t].key() == name);
            }
            if has_key(cache.map@, name) {
                let t = key_index(cache.map@, name);
                assert(r.addons@[t].key() == name);
            }
        }
        assert(r@.dom() =~= cache@.dom());
        assert forall|name: Seq<char>| cache@.contains_key(name) implies
            spec_addon_summary_matches(#[trigger] r@[name], cache@[name]) by {
            let t = key_index(cache.map@, name);
            lemma_keyed_map_at(cache.map@, t);
            assert(r.addons@[t].key() == name);
            lemma_keyed_map_at(r.addons@, t);
        }
    }
    r
}

} // verus!
