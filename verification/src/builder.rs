//! The timeline builder: one entity for each shimcache record, below a
//! first entity that stands for the last update of the cache.

use vstd::prelude::*;
use crate::artifact::{ShimcacheArtifact, ShimcacheEntry};
use crate::time::Timestamp;
use crate::timeline::{TimelineEntity, TimelineTimestamp, TimestampType};

verus! {

/// The entity at the head of every timeline: no shimcache record, and the
/// last update of the cache as its exact timestamp.
pub open spec fn head_entity(last_update_ts: Timestamp) -> TimelineEntity {
    TimelineEntity {
        amcache_file: None,
        amcache_program: None,
        shimcache_entry: None,
        timestamp: Some(TimelineTimestamp::Exact(last_update_ts, TimestampType::ShimcacheLastUpdate)),
    }
}

/// The entity that a shimcache record starts as.
pub open spec fn entry_entity(entry: ShimcacheEntry) -> TimelineEntity {
    TimelineEntity {
        amcache_file: None,
        amcache_program: None,
        shimcache_entry: Some(entry),
        timestamp: None,
    }
}

/// The timeline that a shimcache starts as: the head, then the records in
/// the order of the cache, newest first.
pub open spec fn initial_timeline(last_update_ts: Timestamp, entries: Seq<ShimcacheEntry>) -> Seq<TimelineEntity> {
    seq![head_entity(last_update_ts)] + Seq::new(entries.len(), |i: int| entry_entity(entries[i]))
}

/// Builds the timeline that a shimcache starts as.
pub fn build_timeline(shimcache: ShimcacheArtifact) -> (timeline_entities: Vec<TimelineEntity>)
    ensures
        timeline_entities@ == initial_timeline(shimcache.last_update_ts, shimcache.entries@),
{
    let ghost entries = shimcache.entries@;
    let mut timeline_entities: Vec<TimelineEntity> = Vec::new();
    for entry in it: shimcache.entries
        invariant
            it.seq() == entries,
            timeline_entities@ == Seq::new(it.index() as nat, |i: int| entry_entity(entries[i])),
    {
        timeline_entities.push(TimelineEntity::with_shimcache_entry(entry));
    }
    timeline_entities.insert(
        0,
        TimelineEntity {
            amcache_file: None,
            amcache_program: None,
            shimcache_entry: None,
            timestamp: Some(
                TimelineTimestamp::Exact(shimcache.last_update_ts, TimestampType::ShimcacheLastUpdate),
            ),
        },
    );
    timeline_entities
}

} // verus!
