//! End-to-end exercises of the indexing engine: path classification,
//! hashing, walk filtering, change detection, pruning, the update set and
//! the published index.

use kellerkompanie_sync::cache::{FilesCache, UpdateSet, WalkFile};
use kellerkompanie_sync::index::build_index;
use kellerkompanie_sync::walk::WalkEntry;
use kellerkompanie_sync::web_api::endpoint_url;
use kellerkompanie_sync::{
    extract_addon_name, extract_relative_filepath, filter_files, hash_bytes, is_file_ignored,
    Settings,
};

fn settings_with(ignore_hidden: bool, patterns: &[&str]) -> Settings {
    Settings {
        api_url: String::from("http://localhost/"),
        directory: String::from("/srv/mods"),
        follow_links: false,
        ignore_hidden,
        ignore_files: patterns.iter().map(|p| p.to_string()).collect(),
    }
}

fn walk_file(path: &str, filesize: u64, created: u64) -> WalkFile {
    WalkFile { absolute_filepath: String::from(path), filesize, created }
}

fn entry(path: &str, name: &str, is_dir: bool) -> WalkEntry {
    WalkEntry {
        absolute_filepath: String::from(path),
        file_name: String::from(name),
        is_dir,
    }
}

/// One full pass of the engine over a walk result: prune, then process each
/// file, fetching a deterministic fake remote id for new addons and hashing
/// the given bytes on demand, exactly as the surrounding program does.
fn run_pass(cache: &mut FilesCache, files: &Vec<WalkFile>, bytes_of: &dyn Fn(&str) -> Vec<u8>) -> UpdateSet {
    let mut updates = UpdateSet::new();
    cache.remove_old_files(files);
    for file in files.iter() {
        let relative = extract_relative_filepath(&file.absolute_filepath);
        let name = extract_addon_name(&relative);
        let uuid = if !cache.contains_addon(&name) {
            Some(format!("uuid-{}", name))
        } else {
            None
        };
        let hash = if cache.needs_hash(file) {
            Some(hash_bytes(&bytes_of(file.absolute_filepath.as_str())))
        } else {
            None
        };
        cache.process_file(&mut updates, file, uuid, hash);
    }
    updates
}

#[test]
fn addon_name_derivation() {
    let p = String::from("/srv/mods/@myAddon/addons/core/config.cpp");
    let rel = extract_relative_filepath(&p);
    assert_eq!(rel, "@myAddon/addons/core/config.cpp");
    let name = extract_addon_name(&rel);
    assert_eq!(name, "@myAddon");
}

#[test]
fn relative_path_without_marker_is_whole_path() {
    let p = String::from("/srv/mods/plain/readme.txt");
    let rel = extract_relative_filepath(&p);
    assert_eq!(rel, "/srv/mods/plain/readme.txt");
}

#[test]
fn addon_name_without_separator_is_whole_relative_path() {
    let rel = String::from("@solo");
    assert_eq!(extract_addon_name(&rel), "@solo");
}

#[test]
fn hash_bytes_known_digest() {
    let h = hash_bytes(b"abc");
    assert_eq!(h, "BA7816BF8F01CFEA414140DE5DAE2223B00361A396177A9CB410FF61F20015AD");
}

#[test]
fn hash_bytes_empty_input() {
    let h = hash_bytes(b"");
    assert_eq!(h, "E3B0C44298FC1C149AFBF4C8996FB92427AE41E4649B934CA495991B7852B855");
    assert_eq!(h.len(), 64);
}

#[test]
fn ignore_pattern_excludes_matching_files() {
    // The pattern excludes matching files whatever the other settings say.
    for ignore_hidden in [false, true] {
        let mut settings = settings_with(ignore_hidden, &["*.log"]);
        settings.follow_links = ignore_hidden;
        let entries = vec![
            entry("/srv/mods/@a/server.log", "server.log", false),
            entry("/srv/mods/@a/readme.txt", "readme.txt", false),
        ];
        let kept = filter_files(entries, &settings);
        assert_eq!(kept.len(), 1);
        assert_eq!(kept[0].file_name, "readme.txt");
    }
}

#[test]
fn directories_are_never_yielded() {
    let settings = settings_with(false, &[]);
    let entries = vec![
        entry("/srv/mods/@a", "@a", true),
        entry("/srv/mods/@a/readme.txt", "readme.txt", false),
    ];
    let kept = filter_files(entries, &settings);
    assert_eq!(kept.len(), 1);
    assert!(!kept[0].is_dir);
}

#[test]
fn hidden_files_follow_the_policy() {
    let hidden = entry("/srv/mods/@a/.secret", ".secret", false);
    assert!(is_file_ignored(&hidden, &settings_with(true, &[])));
    assert!(!is_file_ignored(&hidden, &settings_with(false, &[])));
}

#[test]
fn fresh_cache_hashes_and_reports() {
    let mut cache = FilesCache::new();
    let files = vec![walk_file("/srv/mods/@alpha/readme.txt", 10, 1000)];
    let updates = run_pass(&mut cache, &files, &|_| b"0123456789".to_vec());

    let name = String::from("@alpha");
    assert!(cache.contains_addon(&name));
    let addon = cache.get_addon_index(&name);
    assert_eq!(addon.name, "@alpha");
    assert_eq!(addon.uuid, "uuid-@alpha");
    let record = addon
        .get_file_index(&String::from("/srv/mods/@alpha/readme.txt"))
        .expect("record stored");
    assert_eq!(record.relative_filepath, "@alpha/readme.txt");
    assert_eq!(record.filesize, 10);
    assert_eq!(record.created, 1000);
    assert_eq!(record.hash, hash_bytes(b"0123456789"));

    assert!(!updates.is_empty());
    let version = updates
        .get_version(&String::from("uuid-@alpha"))
        .expect("new addon reported");
    assert_eq!(version, &addon.version);
}

#[test]
fn second_run_over_unchanged_tree_changes_nothing() {
    let mut cache = FilesCache::new();
    let files = vec![walk_file("/srv/mods/@alpha/readme.txt", 10, 1000)];
    let first = run_pass(&mut cache, &files, &|_| b"0123456789".to_vec());
    assert!(!first.is_empty());
    let index_one = build_index(&cache);
    let version_one = cache.get_addon_index(&String::from("@alpha")).version.clone();

    // Hashing anything on the second pass would be visible as a changed
    // record, because the bytes provider now returns different content.
    let files_again = vec![walk_file("/srv/mods/@alpha/readme.txt", 10, 1000)];
    let second = run_pass(&mut cache, &files_again, &|_| b"XXXXXXXXXX".to_vec());
    assert!(second.is_empty());
    let index_two = build_index(&cache);
    assert_eq!(index_one, index_two);
    assert_eq!(cache.get_addon_index(&String::from("@alpha")).version, version_one);
}

#[test]
fn changed_metadata_discards_record_and_rehashes() {
    let mut cache = FilesCache::new();
    let files = vec![walk_file("/srv/mods/@alpha/data.bin", 10, 1000)];
    run_pass(&mut cache, &files, &|_| b"0123456789".to_vec());
    let old_hash = cache
        .get_addon_index(&String::from("@alpha"))
        .get_file_index(&String::from("/srv/mods/@alpha/data.bin"))
        .unwrap()
        .hash
        .clone();

    // Same path, larger file: size differs, so the record must be replaced.
    let grown = vec![walk_file("/srv/mods/@alpha/data.bin", 11, 1000)];
    let updates = run_pass(&mut cache, &grown, &|_| b"0123456789X".to_vec());
    let record = cache
        .get_addon_index(&String::from("@alpha"))
        .get_file_index(&String::from("/srv/mods/@alpha/data.bin"))
        .unwrap();
    assert_eq!(record.filesize, 11);
    assert_ne!(record.hash, old_hash);
    assert_eq!(record.hash, hash_bytes(b"0123456789X"));
    assert!(updates.get_version(&String::from("uuid-@alpha")).is_some());
}

#[test]
fn changed_creation_time_also_rehashes() {
    let mut cache = FilesCache::new();
    run_pass(
        &mut cache,
        &vec![walk_file("/srv/mods/@alpha/data.bin", 10, 1000)],
        &|_| b"0123456789".to_vec(),
    );
    let touched = vec![walk_file("/srv/mods/@alpha/data.bin", 10, 2000)];
    assert!(cache.needs_hash(&touched[0]));
    let updates = run_pass(&mut cache, &touched, &|_| b"9876543210".to_vec());
    assert!(!updates.is_empty());
    let record = cache
        .get_addon_index(&String::from("@alpha"))
        .get_file_index(&String::from("/srv/mods/@alpha/data.bin"))
        .unwrap();
    assert_eq!(record.created, 2000);
    assert_eq!(record.hash, hash_bytes(b"9876543210"));
}

#[test]
fn matching_metadata_is_a_cache_hit_even_for_new_content() {
    // The documented heuristic limitation: content replaced in place with
    // the same size and creation time produces a false cache hit.
    let mut cache = FilesCache::new();
    run_pass(
        &mut cache,
        &vec![walk_file("/srv/mods/@alpha/readme.txt", 10, 1000)],
        &|_| b"0123456789".to_vec(),
    );
    let old_hash = hash_bytes(b"0123456789");

    let same_metadata = vec![walk_file("/srv/mods/@alpha/readme.txt", 10, 1000)];
    assert!(!cache.needs_hash(&same_metadata[0]));
    let updates = run_pass(&mut cache, &same_metadata, &|_| b"ABCDEFGHIJ".to_vec());
    assert!(updates.is_empty());
    let record = cache
        .get_addon_index(&String::from("@alpha"))
        .get_file_index(&String::from("/srv/mods/@alpha/readme.txt"))
        .unwrap();
    assert_eq!(record.hash, old_hash);
}

#[test]
fn pruning_drops_paths_the_walk_did_not_see() {
    let mut cache = FilesCache::new();
    let files = vec![
        walk_file("/srv/mods/@alpha/a.txt", 1, 10),
        walk_file("/srv/mods/@alpha/b.txt", 2, 20),
    ];
    run_pass(&mut cache, &files, &|_| b"x".to_vec());

    // b.txt disappears from disk; the next walk only sees a.txt.
    let files = vec![walk_file("/srv/mods/@alpha/a.txt", 1, 10)];
    let updates = run_pass(&mut cache, &files, &|_| b"x".to_vec());
    assert!(updates.is_empty());
    let addon = cache.get_addon_index(&String::from("@alpha"));
    assert!(addon.get_file_index(&String::from("/srv/mods/@alpha/a.txt")).is_some());
    assert!(addon.get_file_index(&String::from("/srv/mods/@alpha/b.txt")).is_none());
}

#[test]
fn pruning_keeps_the_addon_itself() {
    let mut cache = FilesCache::new();
    run_pass(
        &mut cache,
        &vec![walk_file("/srv/mods/@alpha/a.txt", 1, 10)],
        &|_| b"x".to_vec(),
    );
    let uuid = cache.get_addon_index(&String::from("@alpha")).uuid.clone();

    // The whole addon directory vanished: its files go, its record stays.
    let updates = run_pass(&mut cache, &Vec::new(), &|_| b"x".to_vec());
    assert!(updates.is_empty());
    assert!(cache.contains_addon(&String::from("@alpha")));
    let addon = cache.get_addon_index(&String::from("@alpha"));
    assert_eq!(addon.uuid, uuid);
    assert_eq!(addon.files.len(), 0);
}

#[test]
fn remote_id_is_never_refetched() {
    let mut cache = FilesCache::new();
    let created = cache.create_addon_index(&String::from("@alpha"), String::from("uuid-1"));
    assert!(created);
    let again = cache.create_addon_index(&String::from("@alpha"), String::from("uuid-2"));
    assert!(!again);
    assert_eq!(cache.get_addon_index(&String::from("@alpha")).uuid, "uuid-1");
}

#[test]
fn update_set_replaces_by_remote_id() {
    let mut updates = UpdateSet::new();
    assert!(updates.is_empty());
    updates.insert(String::from("u1"), String::from("v1"));
    updates.insert(String::from("u1"), String::from("v2"));
    updates.insert(String::from("u2"), String::from("v3"));
    assert!(!updates.is_empty());
    assert_eq!(updates.get_version(&String::from("u1")).unwrap(), "v2");
    assert_eq!(updates.get_version(&String::from("u2")).unwrap(), "v3");
    assert!(updates.get_version(&String::from("u3")).is_none());
}

#[test]
fn index_publishes_relative_paths_only() {
    let mut cache = FilesCache::new();
    let files = vec![
        walk_file("/srv/mods/@alpha/a.txt", 1, 10),
        walk_file("/srv/mods/@alpha/sub/b.txt", 2, 20),
        walk_file("/srv/mods/@beta/c.txt", 3, 30),
    ];
    run_pass(&mut cache, &files, &|p| p.as_bytes().to_vec());

    let index = build_index(&cache);
    assert_eq!(index.addons.len(), 2);
    let alpha = index.addons.iter().find(|a| a.addon_name == "@alpha").unwrap();
    assert_eq!(alpha.addon_uuid, "uuid-@alpha");
    assert_eq!(alpha.addon_files.len(), 2);
    let a = alpha.addon_files.iter().find(|f| f.file_path == "@alpha/a.txt").unwrap();
    assert_eq!(a.file_size, 1);
    assert_eq!(a.file_hash, hash_bytes(b"/srv/mods/@alpha/a.txt"));
    let b = alpha.addon_files.iter().find(|f| f.file_path == "@alpha/sub/b.txt").unwrap();
    assert_eq!(b.file_size, 2);
    let beta = index.addons.iter().find(|a| a.addon_name == "@beta").unwrap();
    assert_eq!(beta.addon_version, cache.get_addon_index(&String::from("@beta")).version);
    assert_eq!(beta.addon_files.len(), 1);
}

#[test]
fn two_addons_are_classified_and_reported_separately() {
    let mut cache = FilesCache::new();
    let files = vec![
        walk_file("/srv/mods/@alpha/a.txt", 1, 10),
        walk_file("/srv/mods/@beta/b.txt", 2, 20),
    ];
    let updates = run_pass(&mut cache, &files, &|_| b"x".to_vec());
    assert!(updates.get_version(&String::from("uuid-@alpha")).is_some());
    assert!(updates.get_version(&String::from("uuid-@beta")).is_some());

    // Touch only @beta: @alpha must stay out of the next update set.
    let files = vec![
        walk_file("/srv/mods/@alpha/a.txt", 1, 10),
        walk_file("/srv/mods/@beta/b.txt", 5, 20),
    ];
    let updates = run_pass(&mut cache, &files, &|_| b"longer".to_vec());
    assert!(updates.get_version(&String::from("uuid-@alpha")).is_none());
    assert!(updates.get_version(&String::from("uuid-@beta")).is_some());
}

#[test]
fn endpoint_urls_get_exactly_one_separator() {
    let with_slash = String::from("http://localhost:5000/");
    assert_eq!(endpoint_url(&with_slash, "addon_groups"), "http://localhost:5000/addon_groups");
    let without_slash = String::from("http://localhost:5000");
    assert_eq!(endpoint_url(&without_slash, "addon_groups"), "http://localhost:5000/addon_groups");
    let empty = String::from("");
    assert_eq!(endpoint_url(&empty, "x"), "/x");
}

#[test]
fn settings_expose_their_ignore_patterns() {
    let settings = settings_with(false, &["*.log", "*.tmp"]);
    let patterns = settings.get_ignore_patterns();
    assert_eq!(patterns.len(), 2);
    assert_eq!(patterns[0], "*.log");
    assert_eq!(patterns[1], "*.tmp");
}
