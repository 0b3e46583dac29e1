//! The anchor resolver: passes that promote an entity to an exact
//! timestamp. No pass gives an entity anything but an exact timestamp,
//! and an entity that a pass does not promote stays as it is.

use vstd::prelude::*;
use regex::Regex;
use crate::artifact::EntryType;
use crate::pattern::{any_match, entry_matches, match_text};
use crate::ranges::with_timestamp;
use crate::time::{near, Timestamp};
use crate::timeline::{TimelineEntity, TimelineTimestamp, TimestampType};

verus! {

/// How many of `flags` are set.
pub open spec fn count_set(flags: Seq<bool>) -> nat
    decreases flags.len(),
{
    if flags.len() == 0 {
        0
    } else {
        count_set(flags.drop_last()) + if flags.last() {
            1nat
        } else {
            0nat
        }
    }
}

/// Counting one flag further.
proof fn lemma_count_set_step(flags: Seq<bool>, i: int)
    requires
        0 <= i < flags.len(),
    ensures
        count_set(flags.take(i + 1)) == count_set(flags.take(i)) + if flags[i] {
            1nat
        } else {
            0nat
        },
        count_set(flags.take(i)) <= i,
    decreases i,
{
    assert(flags.take(i + 1).drop_last() =~= flags.take(i));
    if i > 0 {
        lemma_count_set_step(flags, i - 1);
    }
}

/// Whether one of `regexes` matches the shimcache record of `e`. An
/// entity without a record matches nothing.
pub open spec fn pattern_matches(e: TimelineEntity, regexes: Seq<Regex>) -> bool {
    e.shimcache_entry matches Some(entry) && any_match(regexes, match_text(entry))
}

/// The timestamp that a pattern match gives to `e`: the modification time
/// of its shimcache record. A record without one gives no anchor, and
/// neither does an entity without a record.
pub open spec fn pattern_anchor(e: TimelineEntity, matched: bool) -> Option<Timestamp> {
    match e.shimcache_entry {
        Some(entry) => if matched {
            entry.last_modified_ts
        } else {
            None
        },
        None => None,
    }
}

/// `e` after the pattern pass, where `matched` says whether a pattern
/// matched its record.
pub open spec fn pattern_anchored(e: TimelineEntity, matched: bool) -> TimelineEntity {
    match pattern_anchor(e, matched) {
        Some(ts) => with_timestamp(e, Some(TimelineTimestamp::Exact(ts, TimestampType::PatternMatch))),
        None => e,
    }
}

/// The timeline after the pattern pass.
pub open spec fn with_pattern_anchors(s: Seq<TimelineEntity>, regexes: Seq<Regex>) -> Seq<TimelineEntity> {
    Seq::new(s.len(), |i: int| pattern_anchored(s[i], pattern_matches(s[i], regexes)))
}

/// For each entity, whether the pattern pass promotes it.
pub open spec fn pattern_promotions(s: Seq<TimelineEntity>, regexes: Seq<Regex>) -> Seq<bool> {
    Seq::new(s.len(), |i: int| pattern_anchor(s[i], pattern_matches(s[i], regexes)) is Some)
}

/// Anchors one entity whose record a pattern matched, or leaves it as it
/// is where none did. Tells whether the entity was promoted.
pub fn anchor_on_match(entity: &mut TimelineEntity, matched: bool) -> (promoted: bool)
    ensures
        *final(entity) == pattern_anchored(*old(entity), matched),
        promoted == pattern_anchor(*old(entity), matched) is Some,
{
    if !matched {
        return false;
    }
    let ts = match &entity.shimcache_entry {
        Some(entry) => entry.last_modified_ts,
        None => None,
    };
    match ts {
        Some(ts) => {
            entity.timestamp = Some(TimelineTimestamp::Exact(ts, TimestampType::PatternMatch));
            true
        },
        None => false,
    }
}

/// The pattern pass. Every entity whose shimcache record is matched by
/// one of `regexes`, and carries a modification time, gets that time as
/// its exact timestamp. Returns how many entities were promoted.
pub fn anchor_pattern_matches(timeline_entities: &mut Vec<TimelineEntity>, regexes: &Vec<Regex>) -> (count: usize)
    ensures
        final(timeline_entities)@ == with_pattern_anchors(old(timeline_entities)@, regexes@),
        count == count_set(pattern_promotions(old(timeline_entities)@, regexes@)),
{
    let ghost s0 = timeline_entities@;
    let ghost flags = pattern_promotions(s0, regexes@);
    let n: usize = timeline_entities.len();
    let mut count: usize = 0;
    let mut i: usize = 0;
    while i < n
        invariant
            timeline_entities@.len() == n == s0.len(),
            flags == pattern_promotions(s0, regexes@),
            0 <= i <= n,
            count == count_set(flags.take(i as int)),
            count <= i,
            forall|k: int| 0 <= k < i ==> #[trigger] timeline_entities@[k] == with_pattern_anchors(s0, regexes@)[k],
            forall|k: int| i <= k < n ==> #[trigger] timeline_entities@[k] == s0[k],
        decreases n - i,
    {
        let matched = match &timeline_entities[i].shimcache_entry {
            Some(entry) => entry_matches(regexes, entry),
            None => false,
        };
        let promoted = anchor_on_match(&mut timeline_entities[i], matched);
        proof {
            lemma_count_set_step(flags, i as int);
        }
        if promoted {
            count += 1;
        }
        i += 1;
    }
    proof {
        assert(flags.take(n as int) =~= flags);
        assert(timeline_entities@ =~= with_pattern_anchors(s0, regexes@));
    }
    count
}

/// The Amcache timestamp that the near-timestamp pass gives to `e`: the
/// last write time of the attached file record's key, where `e` has a
/// shimcache record with a modification time, a file record attached,
/// and the two times lie near to each other.
pub open spec fn near_anchor(e: TimelineEntity) -> Option<Timestamp> {
    match (e.shimcache_entry, e.amcache_file) {
        (Some(entry), Some(file)) => match entry.last_modified_ts {
            Some(shimcache_ts) => if near(shimcache_ts, file.key_last_modified_ts) {
                Some(file.key_last_modified_ts)
            } else {
                None
            },
            None => None,
        },
        _ => None,
    }
}

/// `e` after the near-timestamp pass.
pub open spec fn near_anchored(e: TimelineEntity) -> TimelineEntity {
    match near_anchor(e) {
        Some(ts) => with_timestamp(e, Some(TimelineTimestamp::Exact(ts, TimestampType::NearTSMatch))),
        None => e,
    }
}

/// The timeline after the near-timestamp pass.
pub open spec fn with_near_anchors(s: Seq<TimelineEntity>) -> Seq<TimelineEntity> {
    Seq::new(s.len(), |i: int| near_anchored(s[i]))
}

/// For each entity, whether the near-timestamp pass promotes it.
pub open spec fn near_promotions(s: Seq<TimelineEntity>) -> Seq<bool> {
    Seq::new(s.len(), |i: int| near_anchor(s[i]) is Some)
}

/// Promotes one entity whose shimcache and Amcache timestamps lie near to
/// each other. The Amcache timestamp is taken, whatever timestamp the
/// entity had. Tells whether the entity was promoted.
pub fn anchor_if_near(entity: &mut TimelineEntity) -> (promoted: bool)
    ensures
        *final(entity) == near_anchored(*old(entity)),
        promoted == near_anchor(*old(entity)) is Some,
{
    let found = match (&entity.shimcache_entry, &entity.amcache_file) {
        (Some(shimcache_entry), Some(amcache_entry)) => match shimcache_entry.last_modified_ts {
            Some(shimcache_ts) => if shimcache_ts.is_near(&amcache_entry.key_last_modified_ts) {
                Some(amcache_entry.key_last_modified_ts)
            } else {
                None
            },
            None => None,
        },
        _ => None,
    };
    match found {
        Some(ts) => {
            entity.timestamp = Some(TimelineTimestamp::Exact(ts, TimestampType::NearTSMatch));
            true
        },
        None => false,
    }
}

/// The near-timestamp pass. Returns how many entities were promoted.
pub fn anchor_near_timestamps(timeline_entities: &mut Vec<TimelineEntity>) -> (count: usize)
    ensures
        final(timeline_entities)@ == with_near_anchors(old(timeline_entities)@),
        count == count_set(near_promotions(old(timeline_entities)@)),
{
    let ghost s0 = timeline_entities@;
    let ghost flags = near_promotions(s0);
    let n: usize = timeline_entities.len();
    let mut count: usize = 0;
    let mut i: usize = 0;
    while i < n
        invariant
            timeline_entities@.len() == n == s0.len(),
            flags == near_promotions(s0),
            0 <= i <= n,
            count == count_set(flags.take(i as int)),
            count <= i,
            forall|k: int| 0 <= k < i ==> #[trigger] timeline_entities@[k] == with_near_anchors(s0)[k],
            forall|k: int| i <= k < n ==> #[trigger] timeline_entities@[k] == s0[k],
        decreases n - i,
    {
        let promoted = anchor_if_near(&mut timeline_entities[i]);
        proof {
            lemma_count_set_step(flags, i as int);
        }
        if promoted {
            count += 1;
        }
        i += 1;
    }
    proof {
        assert(flags.take(n as int) =~= flags);
        assert(timeline_entities@ =~= with_near_anchors(s0));
    }
    count
}

/// Whether the near-timestamp pass promotes `e` although a pattern match
/// had anchored it before.
pub open spec fn near_replaces_pattern(e: TimelineEntity) -> bool {
    near_anchor(e) is Some && e.timestamp matches Some(TimelineTimestamp::Exact(_, TimestampType::PatternMatch))
}

/// For each entity, whether the near-timestamp pass promotes it although a
/// pattern match had anchored it before.
pub open spec fn near_replacements(s: Seq<TimelineEntity>) -> Seq<bool> {
    Seq::new(s.len(), |i: int| near_replaces_pattern(s[i]))
}

/// How many entities the near-timestamp pass is going to promote although
/// a pattern match has anchored them. The timeline stays as it is.
pub fn count_near_replacements(timeline_entities: &Vec<TimelineEntity>) -> (count: usize)
    ensures
        count == count_set(near_replacements(timeline_entities@)),
{
    let ghost flags = near_replacements(timeline_entities@);
    let n: usize = timeline_entities.len();
    let mut count: usize = 0;
    let mut i: usize = 0;
    while i < n
        invariant
            n == timeline_entities@.len(),
            flags == near_replacements(timeline_entities@),
            0 <= i <= n,
            count == count_set(flags.take(i as int)),
            count <= i,
        decreases n - i,
    {
        let entity = &timeline_entities[i];
        let anchored_by_pattern = match &entity.timestamp {
            Some(TimelineTimestamp::Exact(_, TimestampType::PatternMatch)) => true,
            _ => false,
        };
        let is_near = match (&entity.shimcache_entry, &entity.amcache_file) {
            (Some(shimcache_entry), Some(amcache_entry)) => match shimcache_entry.last_modified_ts {
                Some(shimcache_ts) => shimcache_ts.is_near(&amcache_entry.key_last_modified_ts),
                None => false,
            },
            _ => false,
        };
        proof {
            lemma_count_set_step(flags, i as int);
        }
        if anchored_by_pattern && is_near {
            count += 1;
        }
        i += 1;
    }
    proof {
        assert(flags.take(n as int) =~= flags);
    }
    count
}

/// The Amcache timestamp that the in-range pass gives to `e`: the last
/// write time of the attached file record's key, where `e` stands for a
/// file, still carries a range, and that time lies strictly inside it.
pub open spec fn range_anchor(e: TimelineEntity) -> Option<Timestamp> {
    match (e.shimcache_entry, e.amcache_file, e.timestamp) {
        (Some(entry), Some(file), Some(TimelineTimestamp::Range { from, to })) => if entry.is_file() && from@
            < file.key_last_modified_ts@ < to@ {
            Some(file.key_last_modified_ts)
        } else {
            None
        },
        _ => None,
    }
}

/// `e` after the in-range pass.
pub open spec fn range_anchored(e: TimelineEntity) -> TimelineEntity {
    match range_anchor(e) {
        Some(ts) => with_timestamp(e, Some(TimelineTimestamp::Exact(ts, TimestampType::AmcacheRangeMatch))),
        None => e,
    }
}

/// The timeline after the in-range pass.
pub open spec fn with_range_anchors(s: Seq<TimelineEntity>) -> Seq<TimelineEntity> {
    Seq::new(s.len(), |i: int| range_anchored(s[i]))
}

/// For each entity, whether the in-range pass promotes it.
pub open spec fn range_promotions(s: Seq<TimelineEntity>) -> Seq<bool> {
    Seq::new(s.len(), |i: int| range_anchor(s[i]) is Some)
}

/// Promotes one entity whose Amcache timestamp lies strictly inside its
/// range. Tells whether the entity was promoted.
pub fn anchor_if_in_range(entity: &mut TimelineEntity) -> (promoted: bool)
    ensures
        *final(entity) == range_anchored(*old(entity)),
        promoted == range_anchor(*old(entity)) is Some,
{
    let found = match (&entity.shimcache_entry, &entity.amcache_file, &entity.timestamp) {
        (Some(shimcache_entry), Some(amcache_file_entry), Some(TimelineTimestamp::Range { from, to })) => {
            let amcache_ts = amcache_file_entry.key_last_modified_ts;
            match &shimcache_entry.entry_type {
                EntryType::File { .. } => if from.is_before(&amcache_ts) && amcache_ts.is_before(to) {
                    Some(amcache_ts)
                } else {
                    None
                },
                EntryType::Program { .. } => None,
            }
        },
        _ => None,
    };
    match found {
        Some(ts) => {
            entity.timestamp = Some(TimelineTimestamp::Exact(ts, TimestampType::AmcacheRangeMatch));
            true
        },
        None => false,
    }
}

/// The in-range pass. Returns how many entities were promoted.
pub fn anchor_range_matches(timeline_entities: &mut Vec<TimelineEntity>) -> (count: usize)
    ensures
        final(timeline_entities)@ == with_range_anchors(old(timeline_entities)@),
        count == count_set(range_promotions(old(timeline_entities)@)),
{
    let ghost s0 = timeline_entities@;
    let ghost flags = range_promotions(s0);
    let n: usize = timeline_entities.len();
    let mut count: usize = 0;
    let mut i: usize = 0;
    while i < n
        invariant
            timeline_entities@.len() == n == s0.len(),
            flags == range_promotions(s0),
            0 <= i <= n,
            count == count_set(flags.take(i as int)),
            count <= i,
            forall|k: int| 0 <= k < i ==> #[trigger] timeline_entities@[k] == with_range_anchors(s0)[k],
            forall|k: int| i <= k < n ==> #[trigger] timeline_entities@[k] == s0[k],
        decreases n - i,
    {
        let promoted = anchor_if_in_range(&mut timeline_entities[i]);
        proof {
            lemma_count_set_step(flags, i as int);
        }
        if promoted {
            count += 1;
        }
        i += 1;
    }
    proof {
        assert(flags.take(n as int) =~= flags);
        assert(timeline_entities@ =~= with_range_anchors(s0));
    }
    count
}

/// No pass takes an exact timestamp away, and no pass gives anything but
/// an exact timestamp: an anchor stays an anchor, the in-range pass leaves
/// every anchor as it is, and an entity that a pass has changed is an
/// anchor.
pub proof fn lemma_passes_only_promote(e: TimelineEntity, matched: bool)
    ensures
        e.is_anchor() ==> pattern_anchored(e, matched).is_anchor() && near_anchored(e).is_anchor()
            && range_anchored(e) == e,
        pattern_anchored(e, matched) == e || pattern_anchored(e, matched).is_anchor(),
        near_anchored(e) == e || near_anchored(e).is_anchor(),
        range_anchored(e) == e || range_anchored(e).is_anchor(),
        pattern_anchored(e, matched) == with_timestamp(e, pattern_anchored(e, matched).timestamp),
        near_anchored(e) == with_timestamp(e, near_anchored(e).timestamp),
        range_anchored(e) == with_timestamp(e, range_anchored(e).timestamp),
{
}

} // verus!
