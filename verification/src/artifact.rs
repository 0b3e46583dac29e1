//! The two registry artifacts that the timeline is built from.

use vstd::prelude::*;
use crate::time::Timestamp;

verus! {

/// What a shimcache record describes.
#[derive(Debug, Clone, PartialEq, Eq)]
pub enum EntryType {
    /// An executable file, by its absolute path.
    File { path: String },
    /// An installed program, by its display name. Publisher and version
    /// are carried along and never consulted.
    Program { program_name: String, publisher: Option<String>, version: Option<String> },
}

/// One record of the shimcache.
#[derive(Debug, Clone, PartialEq, Eq)]
pub struct ShimcacheEntry {
    pub entry_type: EntryType,
    /// The file's modification time when the record was inserted. This is
    /// not an execution time.
    pub last_modified_ts: Option<Timestamp>,
    /// Position of the record in the cache; 0 is the newest.
    pub insertion_index: usize,
}

/// The parsed shimcache. `entries` run from the most recently inserted
/// record to the oldest.
#[derive(Debug, Clone, PartialEq, Eq)]
pub struct ShimcacheArtifact {
    /// Format of the cache, which names the Windows build family.
    pub version: String,
    /// Last write time of the registry key that holds the cache.
    pub last_update_ts: Timestamp,
    pub entries: Vec<ShimcacheEntry>,
}

/// A file record of the Amcache.
#[derive(Debug, Clone, PartialEq, Eq)]
pub struct FileEntry {
    pub path: String,
    /// Last write time of the record's registry key.
    pub key_last_modified_ts: Timestamp,
    pub sha1_hash: Option<String>,
}

/// A program record of the Amcache.
#[derive(Debug, Clone, PartialEq, Eq)]
pub struct ProgramEntry {
    pub program_name: String,
    /// Last write time of the record's registry key.
    pub key_last_modified_ts: Timestamp,
    pub version: Option<String>,
}

/// The parsed Amcache.
#[derive(Debug, Clone, PartialEq, Eq)]
pub struct AmcacheArtifact {
    pub file_entries: Vec<FileEntry>,
    pub program_entries: Vec<ProgramEntry>,
}

impl ShimcacheEntry {
    /// Whether the record describes a file.
    pub open spec fn is_file(&self) -> bool {
        self.entry_type is File
    }

    /// Whether the record describes a program.
    pub open spec fn is_program(&self) -> bool {
        self.entry_type is Program
    }
}

} // verus!
