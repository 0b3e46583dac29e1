//! Timeline entities and the timestamps they carry.

use vstd::prelude::*;
use crate::artifact::{FileEntry, ProgramEntry, ShimcacheEntry};
use crate::time::Timestamp;

verus! {

/// How an exact timestamp was established.
#[derive(Debug, Clone, Copy, PartialEq, Eq, Structural)]
pub enum TimestampType {
    /// The Amcache timestamp lies inside the range that the shimcache
    /// order allows.
    AmcacheRangeMatch,
    /// The shimcache and the Amcache timestamps lie close together.
    NearTSMatch,
    /// An analyst's pattern matched the record.
    PatternMatch,
    /// The last update of the shimcache itself.
    ShimcacheLastUpdate,
}

/// What is known of the time at which an entity was executed.
#[derive(Debug, Clone, Copy, PartialEq, Eq, Structural)]
pub enum TimelineTimestamp {
    /// A single point in time.
    Exact(Timestamp, TimestampType),
    /// Strictly after `from` and strictly before `to`.
    Range { from: Timestamp, to: Timestamp },
    /// Strictly before the given time.
    RangeEnd(Timestamp),
    /// Strictly after the given time.
    RangeStart(Timestamp),
}

/// One row of the timeline.
#[derive(Debug, Clone, PartialEq, Eq)]
pub struct TimelineEntity {
    pub amcache_file: Option<FileEntry>,
    pub amcache_program: Option<ProgramEntry>,
    /// Absent only on the entity that stands for the cache's last update.
    pub shimcache_entry: Option<ShimcacheEntry>,
    pub timestamp: Option<TimelineTimestamp>,
}

impl TimelineEntity {
    /// An entity for a shimcache record, with no timestamp and nothing
    /// attached from the Amcache.
    pub fn with_shimcache_entry(shimcache_entry: ShimcacheEntry) -> (entity: TimelineEntity)
        ensures
            entity.amcache_file is None,
            entity.amcache_program is None,
            entity.shimcache_entry == Some(shimcache_entry),
            entity.timestamp is None,
    {
        TimelineEntity {
            amcache_file: None,
            amcache_program: None,
            shimcache_entry: Some(shimcache_entry),
            timestamp: None,
        }
    }

    /// Whether the entity carries an exact timestamp.
    pub open spec fn is_anchor(&self) -> bool {
        self.timestamp matches Some(TimelineTimestamp::Exact(_, _))
    }

    /// The exact timestamp of an anchor.
    pub open spec fn anchor_ts(&self) -> Timestamp
        recommends
            self.is_anchor(),
    {
        match self.timestamp {
            Some(TimelineTimestamp::Exact(ts, _)) => ts,
            _ => arbitrary(),
        }
    }
}

} // verus!
