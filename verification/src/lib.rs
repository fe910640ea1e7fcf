//! Incremental indexing and change detection for a tree of addon packages.
//!
//! The library computes a stable content identity per file and keeps a
//! durable cache so that repeated scans skip re-hashing unchanged files.
//! Directory walking, cache persistence and the remote notification calls
//! are left to the surrounding program; everything that decides, parses or
//! transforms lives here, with verified contracts.

pub mod cache;
pub mod hashing;
pub mod index;
pub mod keyed;
pub mod laws;
pub mod paths;
pub mod settings;
pub mod walk;
pub mod web_api;

pub use cache::FileIndex;
pub use cache::FilesCache;
pub use cache::LocalAddon;
pub use cache::UpdateSet;
pub use cache::WalkFile;
pub use hashing::hash_bytes;
pub use index::build_index;
pub use index::Addon;
pub use index::AddonFile;
pub use index::FilesIndex;
pub use paths::extract_addon_name;
pub use paths::extract_relative_filepath;
pub use settings::Settings;
pub use walk::filter_files;
pub use walk::is_file_ignored;
pub use walk::WalkEntry;
pub use web_api::WebAddon;
pub use web_api::WebAddonGroup;
pub use web_api::WebAddonGroupInfo;
