//! The cache store and the change detector: the durable, addon-keyed record
//! of previously observed file metadata and hashes, and the per-file
//! decision whether a cached entry is still valid.  The store is loaded at
//! process start, mutated in place during one run and persisted at process
//! end by the surrounding program; all mutation goes through the verified
//! methods here.

use vstd::prelude::*;
use crate::keyed::{contains_key_exec, find_key, has_key, key_index, keyed_map, keys_unique, Keyed,
    lemma_keyed_map_at, lemma_keyed_map_empty, lemma_keyed_map_push, lemma_keyed_map_update};
use crate::paths::{extract_addon_name, extract_relative_filepath, spec_addon_name,
    spec_relative_filepath};

verus! {

/// One file of the current walk, reduced to the plain values the change
/// detector reads: its path and the cheap filesystem metadata.  `created`
/// is the file's creation timestamp, in nanoseconds since the epoch.
#[derive(Debug, PartialEq)]
pub struct WalkFile {
    /// Path of the file as seen on disk during this run.
    pub absolute_filepath: String,
    /// Size in bytes, from filesystem metadata.
    pub filesize: u64,
    /// Creation timestamp, from filesystem metadata.
    pub created: u64,
}

/// Specification-level image of a walk file.
pub ghost struct WalkFileView {
    pub absolute_filepath: Seq<char>,
    pub filesize: u64,
    pub created: u64,
}

impl View for WalkFile {
    type V = WalkFileView;

    open spec fn view(&self) -> WalkFileView {
        WalkFileView {
            absolute_filepath: self.absolute_filepath@,
            filesize: self.filesize,
            created: self.created,
        }
    }
}

/// One tracked file: its identity within the addon, the cache lookup key,
/// the metadata the change detector compares, and the content hash.
#[derive(Debug, PartialEq)]
pub struct FileIndex {
    /// Path of the file relative to its addon root.
    pub relative_filepath: String,
    /// Path as seen on disk: the cache lookup key.
    pub absolute_filepath: String,
    /// Creation timestamp from the run that stored the record.
    pub created: u64,
    /// Size in bytes from the run that stored the record.
    pub filesize: u64,
    /// Content hash of the file's bytes.
    pub hash: String,
}

/// Specification-level image of a file record.
pub ghost struct FileIndexView {
    pub relative_filepath: Seq<char>,
    pub absolute_filepath: Seq<char>,
    pub created: u64,
    pub filesize: u64,
    pub hash: Seq<char>,
}

impl View for FileIndex {
    type V = FileIndexView;

    open spec fn view(&self) -> FileIndexView {
        FileIndexView {
            relative_filepath: self.relative_filepath@,
            absolute_filepath: self.absolute_filepath@,
            created: self.created,
            filesize: self.filesize,
            hash: self.hash@,
        }
    }
}

impl Keyed for FileIndex {
    open spec fn key(&self) -> Seq<char> {
        self.absolute_filepath@
    }

    fn key_ref(&self) -> (r: &String) {
        &self.absolute_filepath
    }
}

impl FileIndex {
    /// A resolved record: every stored record carries its hash.
    pub fn new(
        relative_filepath: String,
        absolute_filepath: String,
        created: u64,
        filesize: u64,
        hash: String,
    ) -> (r: FileIndex)
        ensures
            r@ == (FileIndexView {
                relative_filepath: relative_filepath@,
                absolute_filepath: absolute_filepath@,
                created: created,
                filesize: filesize,
                hash: hash@,
            }),
    {
        FileIndex { relative_filepath, absolute_filepath, created, filesize, hash }
    }

}

/// One addon package: its identity, the remote identifier obtained when the
/// addon was first seen, the version tag of its last change, and the map
/// from absolute path to file record.
pub struct LocalAddon {
    /// The addon's identity key within the cache.
    pub name: String,
    /// Remote identifier, immutable once obtained.
    pub uuid: String,
    /// Version tag, regenerated whenever the addon's contents change.
    pub version: String,
    /// File records, one per absolute path.
    pub files: Vec<FileIndex>,
}

/// Specification-level image of an addon record: the file records as a map
/// keyed by absolute path.
pub ghost struct LocalAddonView {
    pub name: Seq<char>,
    pub uuid: Seq<char>,
    pub version: Seq<char>,
    pub files: Map<Seq<char>, FileIndexView>,
}

impl View for LocalAddon {
    type V = LocalAddonView;

    open spec fn view(&self) -> LocalAddonView {
        LocalAddonView {
            name: self.name@,
            uuid: self.uuid@,
            version: self.version@,
            files: keyed_map(self.files@),
        }
    }
}

impl Keyed for LocalAddon {
    open spec fn key(&self) -> Seq<char> {
        self.name@
    }

    fn key_ref(&self) -> (r: &String) {
        &self.name
    }
}

impl LocalAddon {
    /// Distinct absolute paths: each file is recorded at most once.
    pub open spec fn wf(&self) -> bool {
        keys_unique(self.files@)
    }

    /// An addon record with no files yet.
    pub fn new(name: String, uuid: String, version: String) -> (r: LocalAddon)
        ensures
            r.wf(),
            r@ == (LocalAddonView {
                name: name@,
                uuid: uuid@,
                version: version@,
                files: Map::<Seq<char>, FileIndexView>::empty(),
            }),
    {
        let r = LocalAddon { name, uuid, version, files: Vec::new() };
        proof {
            lemma_keyed_map_empty(r.files@);
        }
        r
    }

    /// The record stored for an absolute path, if any.
    pub fn get_file_index(&self, absolute_filepath: &String) -> (r: Option<&FileIndex>)
        requires
            self.wf(),
        ensures
            match r {
                Some(f) => self@.files.contains_key(absolute_filepath@)
                    && self@.files[absolute_filepath@] == f@,
                None => !self@.files.contains_key(absolute_filepath@),
            },
    {
        match find_key(&self.files, absolute_filepath) {
            Some(i) => {
                proof {
                    lemma_keyed_map_at(self.files@, i as int);
                }
                Some(&self.files[i])
            },
            None => None,
        }
    }

    /// Store a file record under its absolute path, replacing any record
    /// that path already had.  Nothing else of the addon changes.
    pub fn add_file_index(&mut self, file_index: FileIndex)
        requires
            old(self).wf(),
        ensures
            final(self).wf(),
            final(self)@.files == old(self)@.files.insert(
                file_index@.absolute_filepath,
                file_index@,
            ),
            final(self)@.name == old(self)@.name,
            final(self)@.uuid == old(self)@.uuid,
            final(self)@.version == old(self)@.version,
    {
        match find_key(&self.files, &file_index.absolute_filepath) {
            Some(i) => {
                proof {
                    lemma_keyed_map_update(self.files@, i as int, file_index);
                }
                self.files[i] = file_index;
            },
            None => {
                proof {
                    lemma_keyed_map_push(self.files@, file_index);
                }
                self.files.push(file_index);
            },
        }
    }
}

/// One entry of the update set: the remote identifier of a changed addon
/// and the version tag assigned to it this run.
pub struct UpdateEntry {
    /// Remote identifier of the addon.
    pub uuid: String,
    /// Version tag the addon now carries.
    pub version: String,
}

/// Specification-level image of an update entry.
pub ghost struct UpdateEntryView {
    pub uuid: Seq<char>,
    pub version: Seq<char>,
}

impl View for UpdateEntry {
    type V = UpdateEntryView;

    open spec fn view(&self) -> UpdateEntryView {
        UpdateEntryView { uuid: self.uuid@, version: self.version@ }
    }
}

impl Keyed for UpdateEntry {
    open spec fn key(&self) -> Seq<char> {
        self.uuid@
    }

    fn key_ref(&self) -> (r: &String) {
        &self.uuid
    }
}

/// The run-scoped set of addons to report as updated: remote identifier to
/// version tag, handed to the notification collaborator once at the end of
/// a run.
pub struct UpdateSet {
    /// The accumulated entries, one per remote identifier.
    pub entries: Vec<UpdateEntry>,
}

impl View for UpdateSet {
    type V = Map<Seq<char>, Seq<char>>;

    open spec fn view(&self) -> Map<Seq<char>, Seq<char>> {
        Map::new(
            |k: Seq<char>| keyed_map(self.entries@).contains_key(k),
            |k: Seq<char>| keyed_map(self.entries@)[k].version,
        )
    }
}

impl UpdateSet {
    /// Distinct remote identifiers.
    pub open spec fn wf(&self) -> bool {
        keys_unique(self.entries@)
    }

    /// An empty update set: how every run starts.
    pub fn new() -> (r: UpdateSet)
        ensures
            r.wf(),
            r@ == Map::<Seq<char>, Seq<char>>::empty(),
    {
        let r = UpdateSet { entries: Vec::new() };
        proof {
            assert(r@ =~= Map::<Seq<char>, Seq<char>>::empty());
        }
        r
    }

    /// Whether an addon with this remote identifier is already recorded.
    pub fn contains_uuid(&self, uuid: &String) -> (r: bool)
        ensures
            r == self@.contains_key(uuid@),
    {
        contains_key_exec(&self.entries, uuid)
    }

    /// The version tag recorded for a remote identifier, if any.
    pub fn get_version(&self, uuid: &String) -> (r: Option<&String>)
        requires
            self.wf(),
        ensures
            match r {
                Some(v) => self@.contains_key(uuid@) && self@[uuid@] == v@,
                None => !self@.contains_key(uuid@),
            },
    {
        match find_key(&self.entries, uuid) {
            Some(i) => {
                proof {
                    lemma_keyed_map_at(self.entries@, i as int);
                }
                Some(&self.entries[i].version)
            },
            None => None,
        }
    }

    /// Whether no addon changed this run.
    pub fn is_empty(&self) -> (r: bool)
        ensures
            r == (self@ == Map::<Seq<char>, Seq<char>>::empty()),
    {
        let r = self.entries.len() == 0;
        proof {
            if self.entries@.len() == 0 {
                assert(self@ =~= Map::<Seq<char>, Seq<char>>::empty());
            } else {
                assert(self@.contains_key(self.entries@[0].key()));
            }
        }
        r
    }

    /// Record the version tag under a remote identifier, replacing the tag
    /// that identifier already had.
    pub fn insert(&mut self, uuid: String, version: String)
        requires
            old(self).wf(),
        ensures
            final(self).wf(),
            final(self)@ == old(self)@.insert(uuid@, version@),
    {
        let entry = UpdateEntry { uuid, version };
        let ghost k = entry@.uuid;
        let ghost v = entry@.version;
        match find_key(&self.entries, &entry.uuid) {
            Some(i) => {
                proof {
                    lemma_keyed_map_update(self.entries@, i as int, entry);
                }
                self.entries[i] = entry;
            },
            None => {
                proof {
                    lemma_keyed_map_push(self.entries@, entry);
                }
                self.entries.push(entry);
            },
        }
        proof {
            assert(self@ =~= old(self)@.insert(k, v));
        }
    }
}

/// Version tag for an addon that was created or changed this run.
/// Relies on chrono (Utc::now, DateTime::format): a label derived from the
/// current time.  Nothing is assumed of its value.
#[verifier::external_body]
fn generate_version() -> String {
    let now: chrono::DateTime<chrono::Utc> = chrono::Utc::now();
    format!("{}", now.format("%Y%m%d-%H%M%S"))
}

/// The durable cache: every addon record, keyed by addon name.  Loaded once
/// at process start, mutated in place during the walk, persisted once at
/// process end.
pub struct FilesCache {
    /// The addon records, one per addon name.
    pub map: Vec<LocalAddon>,
}

impl View for FilesCache {
    type V = Map<Seq<char>, LocalAddonView>;

    open spec fn view(&self) -> Map<Seq<char>, LocalAddonView> {
        keyed_map(self.map@)
    }
}

/// Name of the addon owning a file at this absolute path, by the fixed
/// path-segment convention.
pub open spec fn spec_addon_of_path(path: Seq<char>) -> Seq<char> {
    spec_addon_name(spec_relative_filepath(path))
}

/// Whether a file must be (re)hashed against this cache: there is no record
/// for its absolute path, or the record's size or creation time differs
/// from the current metadata.  This is the change detector's fast-path
/// filter; hashing is skipped exactly when it returns false.
pub open spec fn spec_needs_hash(cache: Map<Seq<char>, LocalAddonView>, file: WalkFileView) -> bool {
    let name = spec_addon_of_path(file.absolute_filepath);
    ||| !cache.contains_key(name)
    ||| !cache[name].files.contains_key(file.absolute_filepath)
    ||| cache[name].files[file.absolute_filepath].filesize != file.filesize
    ||| cache[name].files[file.absolute_filepath].created != file.created
}

impl FilesCache {
    /// Distinct addon names, and each addon well-formed.
    pub open spec fn wf(&self) -> bool {
        &&& keys_unique(self.map@)
        &&& forall|i: int| 0 <= i < self.map@.len() ==> (#[trigger] self.map@[i]).wf()
    }

    /// An empty cache: the state when no prior run has been persisted.
    pub fn new() -> (r: FilesCache)
        ensures
            r.wf(),
            r@ == Map::<Seq<char>, LocalAddonView>::empty(),
    {
        let r = FilesCache { map: Vec::new() };
        proof {
            lemma_keyed_map_empty(r.map@);
        }
        r
    }

    /// Number of addon records.
    pub fn addon_count(&self) -> (r: usize)
        ensures
            r == self.map@.len(),
    {
        self.map.len()
    }

    /// The addon record at a position, which the view holds under its name.
    pub fn addon_at(&self, i: usize) -> (r: &LocalAddon)
        requires
            self.wf(),
            i < self.map@.len(),
        ensures
            *r == self.map@[i as int],
            r.wf(),
            self@.contains_key(r@.name),
            self@[r@.name] == r@,
    {
        proof {
            lemma_keyed_map_at(self.map@, i as int);
        }
        &self.map[i]
    }

    /// Whether the cache holds a record for this addon name.
    pub fn contains_addon(&self, addon_name: &String) -> (r: bool)
        ensures
            r == self@.contains_key(addon_name@),
    {
        contains_key_exec(&self.map, addon_name)
    }

    /// The addon record under a name the cache is known to hold.
    pub fn get_addon_index(&self, addon_name: &String) -> (r: &LocalAddon)
        requires
            self.wf(),
            self@.contains_key(addon_name@),
        ensures
            r@ == self@[addon_name@],
            r.wf(),
    {
        match find_key(&self.map, addon_name) {
            Some(i) => {
                proof {
                    lemma_keyed_map_at(self.map@, i as int);
                }
                &self.map[i]
            },
            None => vstd::pervasive::unreached(),
        }
    }

    /// Store an addon record under its name, replacing any record that name
    /// already had.  This is how a persisted cache is rebuilt at load time.
    pub fn insert_addon(&mut self, addon: LocalAddon)
        requires
            old(self).wf(),
            addon.wf(),
        ensures
            final(self).wf(),
            final(self)@ == old(self)@.insert(addon@.name, addon@),
    {
        match find_key(&self.map, &addon.name) {
            Some(i) => {
                proof {
                    lemma_keyed_map_update(self.map@, i as int, addon);
                }
                self.map[i] = addon;
            },
            None => {
                proof {
                    lemma_keyed_map_push(self.map@, addon);
                }
                self.map.push(addon);
            },
        }
    }

    /// Create a record for a newly seen addon: its remote identifier as the
    /// collaborator returned it, a fresh version tag, and no files yet.  An
    /// addon the cache already holds is left untouched and `uuid` is
    /// discarded: the stored remote identifier is never replaced.  Returns
    /// whether a record was created.
    pub fn create_addon_index(&mut self, addon_name: &String, uuid: String) -> (created: bool)
        requires
            old(self).wf(),
        ensures
            final(self).wf(),
            created == !old(self)@.contains_key(addon_name@),
            !created ==> final(self)@ == old(self)@,
            created ==> {
                &&& final(self)@ == old(self)@.insert(addon_name@, final(self)@[addon_name@])
                &&& final(self)@[addon_name@].name == addon_name@
                &&& final(self)@[addon_name@].uuid == uuid@
                &&& final(self)@[addon_name@].files == Map::<Seq<char>, FileIndexView>::empty()
            },
    {
        if !self.contains_addon(addon_name) {
            let addon = LocalAddon::new(addon_name.clone(), uuid, generate_version());
            proof {
                lemma_keyed_map_push(self.map@, addon);
            }
            self.map.push(addon);
            proof {
                lemma_keyed_map_at(self.map@, self.map@.len() - 1);
            }
            true
        } else {
            false
        }
    }
}

/// The set of absolute paths present in a walk's result.
pub open spec fn walk_path_set(files: Seq<WalkFile>) -> Set<Seq<char>> {
    Set::new(|p: Seq<char>| exists|i: int| 0 <= i < files.len() && files[i]@.absolute_filepath == p)
}

/// Every addon's file map speaks only of paths in `paths`.
pub open spec fn pruned_within(cache: Map<Seq<char>, LocalAddonView>, paths: Set<Seq<char>>) -> bool {
    forall|name: Seq<char>| cache.contains_key(name)
        ==> (#[trigger] cache[name]).files.dom().subset_of(paths)
}

/// Whether this walk saw the path.
fn walk_contains(files: &Vec<WalkFile>, path: &String) -> (r: bool)
    ensures
        r == walk_path_set(files@).contains(path@),
{
    let n = files.len();
    let mut i: usize = 0;
    while i < n
        invariant
            i <= n,
            n == files@.len(),
            forall|j: int| 0 <= j < i ==> files@[j]@.absolute_filepath != path@,
        decreases n - i,
    {
        if crate::keyed::string_equal(&files[i].absolute_filepath, path) {
            return true;
        }
        i = i + 1;
    }
    false
}

/// The file records whose absolute paths this walk saw, in stored order.
fn retain_walk_files(files: Vec<FileIndex>, walk: &Vec<WalkFile>) -> (r: Vec<FileIndex>)
    requires
        keys_unique(files@),
    ensures
        keys_unique(r@),
        keyed_map(r@) == keyed_map(files@).restrict(walk_path_set(walk@)),
{
    let ghost orig = files@;
    let ghost paths = walk_path_set(walk@);
    let mut rest = files;
    let mut kept: Vec<FileIndex> = Vec::new();
    while rest.len() > 0
        invariant
            keys_unique(orig),
            rest@.len() <= orig.len(),
            rest@ =~= orig.subrange(orig.len() - rest@.len(), orig.len() as int),
            keys_unique(kept@),
            paths == walk_path_set(walk@),
            forall|k: Seq<char>| has_key(kept@, k) <==> (exists|t: int|
                0 <= t < orig.len() - rest@.len() && orig[t].key() == k && paths.contains(k)),
            forall|k: Seq<char>| has_key(kept@, k)
                ==> #[trigger] keyed_map(kept@)[k] == keyed_map(orig)[k],
        decreases rest@.len(),
    {
        let ghost j: int = orig.len() - rest@.len();
        let ghost pre_rest = rest@;
        let ghost pre_kept = kept@;
        let rec = rest.remove(0);
        proof {
            assert(pre_rest[0] == orig.subrange(j, orig.len() as int)[0]);
            assert(rec == orig[j]);
            assert(rest@ =~= orig.subrange(orig.len() - rest@.len(), orig.len() as int));
        }
        let keep = walk_contains(walk, &rec.absolute_filepath);
        if keep {
            proof {
                assert(!has_key(pre_kept, rec.key()));
                lemma_keyed_map_push(pre_kept, rec);
                lemma_keyed_map_at(orig, j);
            }
            kept.push(rec);
            proof {
                assert forall|k: Seq<char>| has_key(kept@, k) implies
                    #[trigger] keyed_map(kept@)[k] == keyed_map(orig)[k] by {
                    if k == orig[j].key() {
                        lemma_keyed_map_at(kept@, kept@.len() - 1);
                    } else {
                        assert(has_key(pre_kept, k));
                    }
                }
                assert forall|k: Seq<char>| has_key(kept@, k) implies (exists|t: int|
                    0 <= t < j + 1 && orig[t].key() == k && paths.contains(k)) by {
                    let w = choose|w: int| 0 <= w < kept@.len() && kept@[w].key() == k;
                    if w < pre_kept.len() {
                        assert(pre_kept[w].key() == k);
                        assert(has_key(pre_kept, k));
                    } else {
                        assert(kept@[w] == rec);
                        assert(orig[j].key() == k && paths.contains(k));
                    }
                }
                assert forall|k: Seq<char>| (exists|t: int|
                    0 <= t < j + 1 && orig[t].key() == k && paths.contains(k)) implies
                    has_key(kept@, k) by {
                    let t = choose|t: int| 0 <= t < j + 1 && orig[t].key() == k
                        && paths.contains(k);
                    if t < j {
                        assert(has_key(pre_kept, k));
                        let w = choose|w: int| 0 <= w < pre_kept.len() && pre_kept[w].key() == k;
                        assert(kept@[w].key() == k);
                    } else {
                        assert(kept@[kept@.len() - 1].key() == k);
                    }
                }
            }
        } else {
            proof {
                assert forall|k: Seq<char>| (exists|t: int|
                    0 <= t < j + 1 && orig[t].key() == k && paths.contains(k)) implies
                    has_key(kept@, k) by {
                    let t = choose|t: int| 0 <= t < j + 1 && orig[t].key() == k
                        && paths.contains(k);
                    assert(t < j || !paths.contains(orig[j].key()));
                }
            }
        }
    }
    proof {
        assert forall|k: Seq<char>| #![auto] true implies
            (keyed_map(kept@).contains_key(k)
                <==> keyed_map(orig).restrict(paths).contains_key(k)) by {
            if has_key(orig, k) {
                let t = choose|t: int| 0 <= t < orig.len() && orig[t].key() == k;
                assert(0 <= t < orig.len() - rest@.len());
            }
        }
        assert(keyed_map(kept@) =~= keyed_map(orig).restrict(paths));
    }
    kept
}

impl FilesCache {
    /// Drop from every addon's file map the records whose absolute paths the
    /// current walk did not see.  The addons themselves, their identities and
    /// version tags all stay; only file records are pruned.
    pub fn remove_old_files(&mut self, files: &Vec<WalkFile>)
        requires
            old(self).wf(),
        ensures
            final(self).wf(),
            final(self)@.dom() == old(self)@.dom(),
            forall|name: Seq<char>| old(self)@.contains_key(name) ==> {
                let a = #[trigger] final(self)@[name];
                let b = old(self)@[name];
                &&& a.name == b.name
                &&& a.uuid == b.uuid
                &&& a.version == b.version
                &&& a.files == b.files.restrict(walk_path_set(files@))
            },
            pruned_within(final(self)@, walk_path_set(files@)),
    {
        let ghost paths = walk_path_set(files@);
        let n = self.map.len();
        let mut i: usize = 0;
        while i < n
            invariant
                i <= n,
                n == self.map@.len(),
                n == old(self).map@.len(),
                old(self).wf(),
                paths == walk_path_set(files@),
                forall|t: int| 0 <= t < n
                    ==> (#[trigger] self.map@[t]).key() == old(self).map@[t].key(),
                forall|t: int| i <= t < n ==> #[trigger] self.map@[t] == old(self).map@[t],
                forall|t: int| 0 <= t < i ==> {
                    let a = (#[trigger] self.map@[t])@;
                    let b = old(self).map@[t]@;
                    &&& self.map@[t].wf()
                    &&& a.name == b.name
                    &&& a.uuid == b.uuid
                    &&& a.version == b.version
                    &&& a.files == b.files.restrict(paths)
                },
            decreases n - i,
        {
            let ghost pre = self.map@;
            let addon = self.map.remove(i);
            let LocalAddon { name, uuid, version, files: own_files } = addon;
            proof {
                assert(pre[i as int].wf());
            }
            let kept = retain_walk_files(own_files, files);
            let new_addon = LocalAddon { name, uuid, version, files: kept };
            self.map.insert(i, new_addon);
            proof {
                assert(self.map@ =~= pre.update(i as int, self.map@[i as int]));
            }
            i = i + 1;
        }
        proof {
            assert(keys_unique(self.map@)) by {
                assert forall|p: int, q: int| 0 <= p < q < self.map@.len() implies
                    self.map@[p].key() != self.map@[q].key() by {
                    assert(old(self).map@[p].key() != old(self).map@[q].key());
                }
            }
            assert forall|name: Seq<char>| #![auto] true implies
                (self@.contains_key(name) <==> old(self)@.contains_key(name)) by {
                if has_key(self.map@, name) {
                    let t = key_index(self.map@, name);
                    assert(old(self).map@[t].key() == name);
                }
                if has_key(old(self).map@, name) {
                    let t = key_index(old(self).map@, name);
                    assert(self.map@[t].key() == name);
                }
            }
            assert(self@.dom() =~= old(self)@.dom());
            assert forall|name: Seq<char>| old(self)@.contains_key(name) implies {
                let a = #[trigger] self@[name];
                let b = old(self)@[name];
                &&& a.name == b.name
                &&& a.uuid == b.uuid
                &&& a.version == b.version
                &&& a.files == b.files.restrict(paths)
            } by {
                let t = key_index(old(self).map@, name);
                lemma_keyed_map_at(old(self).map@, t);
                assert(self.map@[t].key() == name);
                lemma_keyed_map_at(self.map@, t);
            }
        }
    }
}

impl FilesCache {
    /// Whether the file must be (re)hashed: its addon or its record is
    /// missing, or the record's size or creation time differs from the
    /// current metadata.  When this returns false the stored hash is reused
    /// and the hasher is never invoked.
    pub fn needs_hash(&self, file: &WalkFile) -> (r: bool)
        requires
            self.wf(),
        ensures
            r == spec_needs_hash(self@, file@),
    {
        let relative_filepath = extract_relative_filepath(&file.absolute_filepath);
        let addon_name = extract_addon_name(&relative_filepath);
        match find_key(&self.map, &addon_name) {
            None => true,
            Some(i) => {
                proof {
                    lemma_keyed_map_at(self.map@, i as int);
                }
                let addon = &self.map[i];
                match find_key(&addon.files, &file.absolute_filepath) {
                    None => true,
                    Some(j) => {
                        proof {
                            lemma_keyed_map_at(addon.files@, j as int);
                        }
                        let existing = &addon.files[j];
                        existing.filesize != file.filesize || existing.created != file.created
                    },
                }
            },
        }
    }

    /// Record a created or changed file under an addon the cache holds: on
    /// the addon's first change this run a fresh version tag is generated,
    /// the update set receives the addon's remote identifier with that tag,
    /// and the file record is stored under its absolute path, replacing any
    /// old record.
    fn record_changed_file(
        &mut self,
        updates: &mut UpdateSet,
        addon_name: &String,
        file: &WalkFile,
        relative_filepath: String,
        hash: String,
    )
        requires
            old(self).wf(),
            old(updates).wf(),
            old(self)@.contains_key(addon_name@),
        ensures
            final(self).wf(),
            final(updates).wf(),
            final(self)@.dom() == old(self)@.dom(),
            forall|k: Seq<char>| k != addon_name@ && old(self)@.contains_key(k)
                ==> final(self)@[k] == old(self)@[k],
            final(self)@[addon_name@].name == old(self)@[addon_name@].name,
            final(self)@[addon_name@].uuid == old(self)@[addon_name@].uuid,
            final(self)@[addon_name@].files == old(self)@[addon_name@].files.insert(
                file@.absolute_filepath,
                FileIndexView {
                    relative_filepath: relative_filepath@,
                    absolute_filepath: file@.absolute_filepath,
                    created: file@.created,
                    filesize: file@.filesize,
                    hash: hash@,
                },
            ),
            old(updates)@.contains_key(old(self)@[addon_name@].uuid)
                ==> final(self)@[addon_name@].version == old(self)@[addon_name@].version,
            final(updates)@ == old(updates)@.insert(
                old(self)@[addon_name@].uuid,
                final(self)@[addon_name@].version,
            ),
    {
        let i: usize = match find_key(&self.map, addon_name) {
            Some(i) => i,
            None => vstd::pervasive::unreached(),
        };
        let ghost pre = self.map@;
        proof {
            lemma_keyed_map_at(pre, i as int);
        }
        let mut addon = self.map.remove(i);
        if !updates.contains_uuid(&addon.uuid) {
            addon.version = generate_version();
        }
        let uuid = addon.uuid.clone();
        let version = addon.version.clone();
        let record = FileIndex::new(
            relative_filepath,
            file.absolute_filepath.clone(),
            file.created,
            file.filesize,
            hash,
        );
        addon.add_file_index(record);
        self.map.insert(i, addon);
        updates.insert(uuid, version);
        proof {
            assert(self.map@ =~= pre.update(i as int, self.map@[i as int]));
            lemma_keyed_map_update(pre, i as int, self.map@[i as int]);
            assert(self@.dom() =~= old(self)@.dom());
        }
    }

    /// Process one file of the walk against the cache, as the walk hands the
    /// files over.  `uuid` carries the remote identifier obtained for a
    /// newly seen addon, exactly when the cache does not know the addon yet;
    /// `hash` carries the freshly computed content hash, exactly when
    /// `needs_hash` asked for one.  On a cache hit nothing changes; on a
    /// miss or a change the file's record is created or replaced and the
    /// owning addon enters the update set, with a version tag regenerated
    /// the first time the addon is marked updated this run.
    pub fn process_file(
        &mut self,
        updates: &mut UpdateSet,
        file: &WalkFile,
        uuid: Option<String>,
        hash: Option<String>,
    )
        requires
            old(self).wf(),
            old(updates).wf(),
            uuid is Some <==> !old(self)@.contains_key(spec_addon_of_path(file@.absolute_filepath)),
            hash is Some <==> spec_needs_hash(old(self)@, file@),
        ensures
            final(self).wf(),
            final(updates).wf(),
            ({
                let name = spec_addon_of_path(file@.absolute_filepath);
                let abs = file@.absolute_filepath;
                &&& final(self)@.contains_key(name)
                &&& final(self)@.dom() == old(self)@.dom().insert(name)
                &&& (forall|k: Seq<char>| k != name && old(self)@.contains_key(k)
                    ==> final(self)@[k] == old(self)@[k])
                &&& final(self)@[name].name == name
                &&& (uuid is Some ==> final(self)@[name].uuid == uuid->0@)
                &&& (uuid is None ==> final(self)@[name].uuid == old(self)@[name].uuid)
                &&& (hash is None ==> final(self)@ == old(self)@
                    && final(updates)@ == old(updates)@)
                &&& (hash is Some ==> {
                    let base = if old(self)@.contains_key(name) {
                        old(self)@[name].files
                    } else {
                        Map::<Seq<char>, FileIndexView>::empty()
                    };
                    &&& final(self)@[name].files == base.insert(
                        abs,
                        FileIndexView {
                            relative_filepath: spec_relative_filepath(abs),
                            absolute_filepath: abs,
                            created: file@.created,
                            filesize: file@.filesize,
                            hash: hash->0@,
                        },
                    )
                    &&& final(updates)@ == old(updates)@.insert(
                        final(self)@[name].uuid,
                        final(self)@[name].version,
                    )
                    &&& final(updates)@.contains_key(final(self)@[name].uuid)
                })
                &&& (uuid is Some ==> final(updates)@.contains_key(uuid->0@))
                &&& (uuid is None && old(updates)@.contains_key(old(self)@[name].uuid)
                    ==> final(self)@[name].version == old(self)@[name].version)
                &&& (forall|k: Seq<char>| final(self)@.contains_key(k)
                    ==> (#[trigger] final(self)@[k]).files.dom().subset_of(
                        (if old(self)@.contains_key(k) {
                            old(self)@[k].files.dom()
                        } else {
                            Set::<Seq<char>>::empty()
                        }).insert(abs),
                    ))
            }),
    {
        let relative_filepath = extract_relative_filepath(&file.absolute_filepath);
        let addon_name = extract_addon_name(&relative_filepath);
        match uuid {
            Some(u) => {
                self.create_addon_index(&addon_name, u);
                let addon = self.get_addon_index(&addon_name);
                let addon_uuid = addon.uuid.clone();
                let addon_version = addon.version.clone();
                updates.insert(addon_uuid, addon_version);
            },
            None => {},
        }
        match hash {
            Some(h) => {
                self.record_changed_file(updates, &addon_name, file, relative_filepath, h);
            },
            None => {},
        }
        proof {
            let name = spec_addon_of_path(file@.absolute_filepath);
            assert(final(self)@.dom() =~= old(self)@.dom().insert(name));
            assert forall|k: Seq<char>| final(self)@.contains_key(k) implies
                (#[trigger] final(self)@[k]).files.dom().subset_of(
                    (if old(self)@.contains_key(k) {
                        old(self)@[k].files.dom()
                    } else {
                        Set::<Seq<char>>::empty()
                    }).insert(file@.absolute_filepath),
                ) by {
                if k != name && old(self)@.contains_key(k) {
                    assert(final(self)@[k] == old(self)@[k]);
                }
            }
        }
    }
}

} // verus!
