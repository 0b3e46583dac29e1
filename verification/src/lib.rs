//! Reconstruction of an approximate execution timeline from the shimcache
//! and the Amcache of a Windows host.

pub mod analyzer;
pub mod artifact;
pub mod builder;
pub mod invariants;
pub mod join;
pub mod order;
pub mod pattern;
pub mod ranges;
pub mod report;
pub mod resolver;
pub mod time;
pub mod timeline;

pub use analyzer::{analyse, compile_patterns, Analysis, AnalysisError, ShimcacheAnalyzer};
pub use artifact::{AmcacheArtifact, EntryType, FileEntry, ProgramEntry, ShimcacheArtifact, ShimcacheEntry};
pub use time::Timestamp;
pub use timeline::{TimelineEntity, TimelineTimestamp, TimestampType};
