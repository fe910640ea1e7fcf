//! The change-detection laws, stated over the specification model and
//! proved once for all inputs: when hashing is owed, when the stored hash
//! is reused, what pruning guarantees, and why a run over an unchanged tree
//! leaves everything as it was.

use vstd::prelude::*;
use crate::cache::{pruned_within, spec_addon_of_path, spec_needs_hash, walk_path_set,
    LocalAddonView, WalkFile, WalkFileView};
use crate::index::{spec_addon_summary_matches, spec_published_file, AddonView};

verus! {

/// A walked file whose addon is cached and whose record matches the current
/// metadata: the unchanged case.
pub open spec fn spec_file_unchanged(
    cache: Map<Seq<char>, LocalAddonView>,
    file: WalkFileView,
) -> bool {
    let name = spec_addon_of_path(file.absolute_filepath);
    &&& cache.contains_key(name)
    &&& cache[name].files.contains_key(file.absolute_filepath)
    &&& cache[name].files[file.absolute_filepath].filesize == file.filesize
    &&& cache[name].files[file.absolute_filepath].created == file.created
}

/// A file with no record in its addon's file map — in particular any file of
/// a newly seen addon — is always hashed: the change detector never reuses a
/// hash it does not hold.
pub proof fn lemma_cache_miss_forces_hash(
    cache: Map<Seq<char>, LocalAddonView>,
    file: WalkFileView,
)
    requires
        cache.contains_key(spec_addon_of_path(file.absolute_filepath)) ==> !cache[
            spec_addon_of_path(file.absolute_filepath)
        ].files.contains_key(file.absolute_filepath),
    ensures
        spec_needs_hash(cache, file),
{
}

/// A file whose stored size and creation time both match the current
/// metadata is a cache hit: the hasher is not invoked and the stored record
/// — its hash included — is carried through unchanged.
pub proof fn lemma_metadata_match_skips_hash(
    cache: Map<Seq<char>, LocalAddonView>,
    file: WalkFileView,
)
    requires
        ({
            let name = spec_addon_of_path(file.absolute_filepath);
            &&& cache.contains_key(name)
            &&& cache[name].files.contains_key(file.absolute_filepath)
            &&& cache[name].files[file.absolute_filepath].filesize == file.filesize
            &&& cache[name].files[file.absolute_filepath].created == file.created
        }),
    ensures
        !spec_needs_hash(cache, file),
{
}

/// A file whose stored size or creation time differs from the current
/// metadata is treated as changed: the old record is discarded and a fresh
/// hash is computed.
pub proof fn lemma_metadata_change_forces_hash(
    cache: Map<Seq<char>, LocalAddonView>,
    file: WalkFileView,
)
    requires
        ({
            let name = spec_addon_of_path(file.absolute_filepath);
            &&& cache.contains_key(name)
            &&& cache[name].files.contains_key(file.absolute_filepath)
            &&& (cache[name].files[file.absolute_filepath].filesize != file.filesize
                || cache[name].files[file.absolute_filepath].created != file.created)
        }),
    ensures
        spec_needs_hash(cache, file),
{
}

/// Pruning is preserved by processing a file of the walk: if every addon's
/// file map speaks only of walked paths and one file of the walk is
/// recorded, every addon's file map still speaks only of walked paths.
/// Together with the pruning `remove_old_files` establishes, no addon ever
/// holds a path the current walk did not see.
pub proof fn lemma_processing_preserves_pruning(
    pre: Map<Seq<char>, LocalAddonView>,
    post: Map<Seq<char>, LocalAddonView>,
    abs: Seq<char>,
    paths: Set<Seq<char>>,
)
    requires
        pruned_within(pre, paths),
        paths.contains(abs),
        forall|k: Seq<char>| post.contains_key(k)
            ==> (#[trigger] post[k]).files.dom().subset_of(
                (if pre.contains_key(k) {
                    pre[k].files.dom()
                } else {
                    Set::<Seq<char>>::empty()
                }).insert(abs),
            ),
    ensures
        pruned_within(post, paths),
{
    assert forall|name: Seq<char>| post.contains_key(name) implies
        (#[trigger] post[name]).files.dom().subset_of(paths) by {
        assert(post[name].files.dom().subset_of(
            (if pre.contains_key(name) {
                pre[name].files.dom()
            } else {
                Set::<Seq<char>>::empty()
            }).insert(abs),
        ));
    }
}

/// Pruning against a walk that still holds every recorded path removes
/// nothing: over an unchanged tree the cache leaves `remove_old_files`
/// exactly as it entered.  With the cache-hit case of `process_file`, which
/// changes neither the cache nor the update set, a second run over an
/// unchanged tree keeps every addon record — version tag included — and
/// reports nothing.
pub proof fn lemma_prune_of_full_walk_is_noop(
    cache: Map<Seq<char>, LocalAddonView>,
    paths: Set<Seq<char>>,
    name: Seq<char>,
)
    requires
        pruned_within(cache, paths),
        cache.contains_key(name),
    ensures
        cache[name].files.restrict(paths) == cache[name].files,
{
    assert(cache[name].files.restrict(paths) =~= cache[name].files);
}

/// The index never invents or drops a file: every stored record's relative
/// path is published, and when a relative path identifies one stored record
/// — the expected layout — what is published under it is exactly that
/// record's relative path, size and content hash.  A cache hit's stored
/// hash therefore reaches the new index unchanged.
pub proof fn lemma_index_carries_stored_records(
    a: AddonView,
    c: LocalAddonView,
    abs: Seq<char>,
)
    requires
        spec_addon_summary_matches(a, c),
        c.files.contains_key(abs),
        forall|o: Seq<char>| c.files.contains_key(o)
            && (#[trigger] c.files[o]).relative_filepath == c.files[abs].relative_filepath
            ==> o == abs,
    ensures
        a.addon_files.contains_key(c.files[abs].relative_filepath),
        a.addon_files[c.files[abs].relative_filepath] == spec_published_file(c.files[abs]),
{
    let rel = c.files[abs].relative_filepath;
    assert(a.addon_files.contains_key(rel));
    let o = choose|o: Seq<char>| c.files.contains_key(o)
        && (#[trigger] c.files[o]).relative_filepath == rel
        && a.addon_files[rel] == spec_published_file(c.files[o]);
    assert(o == abs);
}

/// A run over an unchanged tree is a no-op: when every recorded path is
/// still in the walk and every walked file matches its record, pruning
/// keeps every record and no file needs hashing — so each `process_file`
/// call, whose contract makes the no-hash case leave the cache and the
/// update set untouched, changes nothing, the version tags survive, the
/// rebuilt index equals the previous one and the update set stays empty.
pub proof fn lemma_unchanged_tree_run_is_noop(
    cache: Map<Seq<char>, LocalAddonView>,
    files: Seq<WalkFile>,
)
    requires
        pruned_within(cache, walk_path_set(files)),
        forall|i: int| 0 <= i < files.len()
            ==> spec_file_unchanged(cache, (#[trigger] files[i])@),
    ensures
        forall|name: Seq<char>| cache.contains_key(name)
            ==> (#[trigger] cache[name]).files.restrict(walk_path_set(files))
                == cache[name].files,
        forall|i: int| 0 <= i < files.len()
            ==> !spec_needs_hash(cache, (#[trigger] files[i])@),
{
    assert forall|name: Seq<char>| cache.contains_key(name) implies
        (#[trigger] cache[name]).files.restrict(walk_path_set(files)) == cache[name].files by {
        lemma_prune_of_full_walk_is_noop(cache, walk_path_set(files), name);
    }
}

} // verus!

