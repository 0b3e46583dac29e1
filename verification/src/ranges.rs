//! The range filler: between and around the anchors of a timeline, every
//! other entity gets the interval that the order of the shimcache allows.

use vstd::prelude::*;
use crate::time::Timestamp;
use crate::timeline::{TimelineEntity, TimelineTimestamp};

verus! {

/// The index of the nearest anchor above position `i` in the timeline,
/// that is, the greatest `j < i` at which `s` holds an anchor.
pub open spec fn anchor_before(s: Seq<TimelineEntity>, i: int) -> Option<int>
    decreases i,
{
    if i <= 0 {
        None
    } else if s[i - 1].is_anchor() {
        Some(i - 1)
    } else {
        anchor_before(s, i - 1)
    }
}

/// The index of the nearest anchor below position `i` in the timeline,
/// that is, the least `k > i` at which `s` holds an anchor.
pub open spec fn anchor_after(s: Seq<TimelineEntity>, i: int) -> Option<int>
    decreases s.len() - i,
{
    if i + 1 >= s.len() {
        None
    } else if s[i + 1].is_anchor() {
        Some(i + 1)
    } else {
        anchor_after(s, i + 1)
    }
}

/// The interval that the anchors around position `i` leave for the entity
/// there. The anchor below is older and bounds the interval from below;
/// the anchor above is newer and bounds it from above. Where `s` holds no
/// anchor at all, the entity's timestamp stays as it is.
pub open spec fn range_for(s: Seq<TimelineEntity>, i: int) -> Option<TimelineTimestamp> {
    match (anchor_before(s, i), anchor_after(s, i)) {
        (Some(j), Some(k)) => Some(
            TimelineTimestamp::Range { from: s[k].anchor_ts(), to: s[j].anchor_ts() },
        ),
        (Some(j), None) => Some(TimelineTimestamp::RangeEnd(s[j].anchor_ts())),
        (None, Some(k)) => Some(TimelineTimestamp::RangeStart(s[k].anchor_ts())),
        (None, None) => s[i].timestamp,
    }
}

/// The timestamp of the entity at `i` once the ranges are filled in:
/// an anchor keeps its own, every other entity gets `range_for`.
pub open spec fn filled_timestamp(s: Seq<TimelineEntity>, i: int) -> Option<TimelineTimestamp> {
    if s[i].is_anchor() {
        s[i].timestamp
    } else {
        range_for(s, i)
    }
}

/// The entity `e` with its timestamp replaced.
pub open spec fn with_timestamp(e: TimelineEntity, timestamp: Option<TimelineTimestamp>) -> TimelineEntity {
    TimelineEntity { timestamp, ..e }
}

/// The timeline `s` with its ranges filled in. Only timestamps change.
pub open spec fn filled(s: Seq<TimelineEntity>) -> Seq<TimelineEntity> {
    Seq::new(s.len(), |i: int| with_timestamp(s[i], filled_timestamp(s, i)))
}

/// Whether `s` holds an anchor at some position.
pub open spec fn has_anchor(s: Seq<TimelineEntity>) -> bool {
    exists|i: int| 0 <= i < s.len() && #[trigger] s[i].is_anchor()
}

/// Whether `indices` lists the positions of all anchors of `s`, and only
/// those, in ascending order.
pub open spec fn lists_anchors(indices: Seq<usize>, s: Seq<TimelineEntity>) -> bool {
    &&& forall|a: int, b: int| 0 <= a < b < indices.len() ==> indices[a] < indices[b]
    &&& forall|a: int| 0 <= a < indices.len() ==> indices[a] < s.len() && s[indices[a] as int].is_anchor()
    &&& forall|i: int|
        0 <= i < s.len() && #[trigger] s[i].is_anchor() ==> exists|a: int|
            0 <= a < indices.len() && #[trigger] indices[a] == i
}

/// What `anchor_before` says when it finds an anchor, and when it finds none.
pub proof fn lemma_anchor_before(s: Seq<TimelineEntity>, i: int)
    requires
        0 <= i <= s.len(),
    ensures
        match anchor_before(s, i) {
            Some(j) => 0 <= j < i && s[j].is_anchor() && forall|k: int| j < k < i ==> !(#[trigger] s[k].is_anchor()),
            None => forall|k: int| 0 <= k < i ==> !(#[trigger] s[k].is_anchor()),
        },
    decreases i,
{
    if i > 0 && !s[i - 1].is_anchor() {
        lemma_anchor_before(s, i - 1);
    }
}

/// What `anchor_after` says when it finds an anchor, and when it finds none.
pub proof fn lemma_anchor_after(s: Seq<TimelineEntity>, i: int)
    requires
        -1 <= i < s.len(),
    ensures
        match anchor_after(s, i) {
            Some(k) => i < k < s.len() && s[k].is_anchor() && forall|m: int| i < m < k ==> !(#[trigger] s[m].is_anchor()),
            None => forall|m: int| i < m < s.len() ==> !(#[trigger] s[m].is_anchor()),
        },
    decreases s.len() - i,
{
    if i + 1 < s.len() && !s[i + 1].is_anchor() {
        lemma_anchor_after(s, i + 1);
    }
}

/// The nearest anchor above `i` is `j` when `j` holds one and nothing
/// between `j` and `i` does.
pub proof fn lemma_anchor_before_is(s: Seq<TimelineEntity>, i: int, j: int)
    requires
        0 <= j < i <= s.len(),
        s[j].is_anchor(),
        forall|k: int| j < k < i ==> !(#[trigger] s[k].is_anchor()),
    ensures
        anchor_before(s, i) == Some(j),
{
    lemma_anchor_before(s, i);
}

/// There is no anchor above `i` when nothing before `i` holds one.
pub proof fn lemma_anchor_before_none(s: Seq<TimelineEntity>, i: int)
    requires
        0 <= i <= s.len(),
        forall|k: int| 0 <= k < i ==> !(#[trigger] s[k].is_anchor()),
    ensures
        anchor_before(s, i) is None,
{
    lemma_anchor_before(s, i);
}

/// The nearest anchor below `i` is `k` when `k` holds one and nothing
/// between `i` and `k` does.
pub proof fn lemma_anchor_after_is(s: Seq<TimelineEntity>, i: int, k: int)
    requires
        -1 <= i < k < s.len(),
        s[k].is_anchor(),
        forall|m: int| i < m < k ==> !(#[trigger] s[m].is_anchor()),
    ensures
        anchor_after(s, i) == Some(k),
{
    lemma_anchor_after(s, i);
}

/// There is no anchor below `i` when nothing after `i` holds one.
pub proof fn lemma_anchor_after_none(s: Seq<TimelineEntity>, i: int)
    requires
        -1 <= i < s.len(),
        forall|m: int| i < m < s.len() ==> !(#[trigger] s[m].is_anchor()),
    ensures
        anchor_after(s, i) is None,
{
    lemma_anchor_after(s, i);
}

/// The exact timestamp of an anchor.
pub fn extract_ts_from_entity(entity: &TimelineEntity) -> (ts: Timestamp)
    requires
        entity.is_anchor(),
    ensures
        ts == entity.anchor_ts(),
{
    match &entity.timestamp {
        Some(TimelineTimestamp::Exact(timestamp, _)) => *timestamp,
        _ => unreached(),
    }
}

/// The positions of the anchors of a timeline, in ascending order.
pub fn get_exact_ts_indices(timeline_entities: &Vec<TimelineEntity>) -> (indices: Vec<usize>)
    ensures
        lists_anchors(indices@, timeline_entities@),
        indices@.len() > 0 <==> has_anchor(timeline_entities@),
{
    let mut indices: Vec<usize> = Vec::new();
    let n: usize = timeline_entities.len();
    let mut i: usize = 0;
    while i < n
        invariant
            n == timeline_entities@.len(),
            0 <= i <= n,
            lists_anchors(indices@, timeline_entities@.take(i as int)),
        decreases n - i,
    {
        let ghost before = indices@;
        let ghost s = timeline_entities@;
        if let Some(TimelineTimestamp::Exact(_, _)) = &timeline_entities[i].timestamp {
            indices.push(i);
            proof {
                assert forall|m: int| 0 <= m < i + 1 && #[trigger] s.take(i + 1)[m].is_anchor() implies exists|a: int|
                    0 <= a < indices@.len() && #[trigger] indices@[a] == m by {
                    if m < i {
                        assert(s.take(i as int)[m].is_anchor());
                        let a = choose|a: int| 0 <= a < before.len() && #[trigger] before[a] == m;
                        assert(indices@[a] == m);
                    } else {
                        assert(indices@[before.len() as int] == i);
                    }
                }
            }
        } else {
            proof {
                assert forall|m: int| 0 <= m < i + 1 && #[trigger] s.take(i + 1)[m].is_anchor() implies exists|a: int|
                    0 <= a < indices@.len() && #[trigger] indices@[a] == m by {
                    assert(s.take(i as int)[m].is_anchor());
                }
            }
        }
        i += 1;
    }
    proof {
        assert(timeline_entities@.take(n as int) =~= timeline_entities@);
        if indices@.len() > 0 {
            assert(timeline_entities@[indices@[0] as int].is_anchor());
        }
    }
    indices
}

/// `lists_anchors`, kept folded where only single gaps are looked at.
#[verifier::opaque]
spec fn anchors_listed(indices: Seq<usize>, s: Seq<TimelineEntity>) -> bool {
    lists_anchors(indices, s)
}

/// Every anchor of `s` stands between the first and the last listed position.
proof fn lemma_anchors_within_list(indices: Seq<usize>, s: Seq<TimelineEntity>, k: int)
    requires
        lists_anchors(indices, s),
        0 <= k < s.len(),
        s[k].is_anchor(),
    ensures
        indices.len() > 0,
        indices[0] <= k <= indices.last(),
{
    let a = choose|a: int| 0 <= a < indices.len() && #[trigger] indices[a] == k;
    assert(0 < a ==> indices[0] < indices[a]);
    assert(a < indices.len() - 1 ==> indices[a] < indices[indices.len() - 1]);
}

/// Before the first listed anchor a timeline holds no anchor.
proof fn lemma_first_anchor(indices: Seq<usize>, s: Seq<TimelineEntity>)
    requires
        anchors_listed(indices, s),
        indices.len() > 0,
    ensures
        indices[0] < s.len(),
        s[indices[0] as int].is_anchor(),
        forall|m: int| 0 <= m < indices[0] ==> !(#[trigger] s[m].is_anchor()),
{
    reveal(anchors_listed);
    assert forall|m: int| 0 <= m < indices[0] implies !(#[trigger] s[m].is_anchor()) by {
        if s[m].is_anchor() {
            lemma_anchors_within_list(indices, s, m);
        }
    }
}

/// After the last listed anchor a timeline holds no anchor.
proof fn lemma_last_anchor(indices: Seq<usize>, s: Seq<TimelineEntity>)
    requires
        anchors_listed(indices, s),
        indices.len() > 0,
    ensures
        indices.last() < s.len(),
        s[indices.last() as int].is_anchor(),
        forall|m: int| indices.last() < m < s.len() ==> !(#[trigger] s[m].is_anchor()),
{
    reveal(anchors_listed);
    assert forall|m: int| indices.last() < m < s.len() implies !(#[trigger] s[m].is_anchor()) by {
        if s[m].is_anchor() {
            lemma_anchors_within_list(indices, s, m);
        }
    }
}

/// Between two neighbours of the list a timeline holds no anchor.
proof fn lemma_neighbour_anchors(indices: Seq<usize>, s: Seq<TimelineEntity>, w: int)
    requires
        anchors_listed(indices, s),
        0 <= w < indices.len() - 1,
    ensures
        indices[w] < indices[w + 1] < s.len(),
        s[indices[w] as int].is_anchor(),
        s[indices[w + 1] as int].is_anchor(),
        forall|m: int| indices[w] < m < indices[w + 1] ==> !(#[trigger] s[m].is_anchor()),
{
    reveal(anchors_listed);
    assert forall|m: int| indices[w] < m < indices[w + 1] implies !(#[trigger] s[m].is_anchor()) by {
        if s[m].is_anchor() {
            let a = choose|a: int| 0 <= a < indices.len() && #[trigger] indices[a] == m;
            assert(a <= w ==> indices[a] <= indices[w]);
            assert(w + 1 <= a ==> indices[w + 1] <= indices[a]);
        }
    }
}

/// Whether `cur` is `s` with the ranges filled in before position `done`
/// and untouched from there on.
spec fn filled_up_to(cur: Seq<TimelineEntity>, s: Seq<TimelineEntity>, done: int) -> bool {
    &&& cur.len() == s.len()
    &&& forall|k: int| 0 <= k < done && k < s.len() ==> #[trigger] cur[k] == filled(s)[k]
    &&& forall|k: int| done <= k < s.len() ==> #[trigger] cur[k] == s[k]
}

/// Filling in ranges leaves an anchor as it is.
proof fn lemma_filled_keeps_anchor(s: Seq<TimelineEntity>, i: int)
    requires
        0 <= i < s.len(),
        s[i].is_anchor(),
    ensures
        filled(s)[i] == s[i],
{
}

/// The filled-in entity between the anchors at `j` and `k`.
proof fn lemma_filled_between(s: Seq<TimelineEntity>, j: int, k: int, i: int)
    requires
        0 <= j < i < k < s.len(),
        s[j].is_anchor(),
        s[k].is_anchor(),
        forall|m: int| j < m < k ==> !(#[trigger] s[m].is_anchor()),
    ensures
        filled(s)[i] == with_timestamp(
            s[i],
            Some(TimelineTimestamp::Range { from: s[k].anchor_ts(), to: s[j].anchor_ts() }),
        ),
{
    lemma_anchor_before_is(s, i, j);
    lemma_anchor_after_is(s, i, k);
}

/// The filled-in entity before the first anchor, which stands at `k`.
proof fn lemma_filled_head(s: Seq<TimelineEntity>, k: int, i: int)
    requires
        0 <= i < k < s.len(),
        s[k].is_anchor(),
        forall|m: int| 0 <= m < k ==> !(#[trigger] s[m].is_anchor()),
    ensures
        filled(s)[i] == with_timestamp(s[i], Some(TimelineTimestamp::RangeStart(s[k].anchor_ts()))),
{
    lemma_anchor_before_none(s, i);
    lemma_anchor_after_is(s, i, k);
}

/// The filled-in entity after the last anchor, which stands at `j`.
proof fn lemma_filled_tail(s: Seq<TimelineEntity>, j: int, i: int)
    requires
        0 <= j < i < s.len(),
        s[j].is_anchor(),
        forall|m: int| j < m < s.len() ==> !(#[trigger] s[m].is_anchor()),
    ensures
        filled(s)[i] == with_timestamp(s[i], Some(TimelineTimestamp::RangeEnd(s[j].anchor_ts()))),
{
    lemma_anchor_before_is(s, i, j);
    lemma_anchor_after_none(s, i);
}

/// Gives the entities at the positions `lo..hi` the timestamp `ts`.
fn set_span(timeline_entities: &mut Vec<TimelineEntity>, lo: usize, hi: usize, ts: TimelineTimestamp)
    requires
        lo <= hi <= old(timeline_entities)@.len(),
    ensures
        final(timeline_entities)@.len() == old(timeline_entities)@.len(),
        forall|k: int|
            lo <= k < hi ==> #[trigger] final(timeline_entities)@[k] == with_timestamp(
                old(timeline_entities)@[k],
                Some(ts),
            ),
        forall|k: int|
            0 <= k < lo || hi <= k < old(timeline_entities)@.len() ==> #[trigger] final(timeline_entities)@[k]
                == old(timeline_entities)@[k],
{
    let ghost s0 = timeline_entities@;
    let mut i: usize = lo;
    while i < hi
        invariant
            timeline_entities@.len() == s0.len(),
            lo <= i <= hi <= s0.len(),
            forall|k: int| lo <= k < i ==> #[trigger] timeline_entities@[k] == with_timestamp(s0[k], Some(ts)),
            forall|k: int| 0 <= k < lo || i <= k < s0.len() ==> #[trigger] timeline_entities@[k] == s0[k],
        decreases hi - i,
    {
        timeline_entities[i].timestamp = Some(ts);
        i += 1;
    }
}

/// Marks the entities before the first anchor as newer than it.
fn fill_head(timeline_entities: &mut Vec<TimelineEntity>, first_index: usize, Ghost(s0): Ghost<Seq<TimelineEntity>>)
    requires
        old(timeline_entities)@ == s0,
        first_index < s0.len(),
        s0[first_index as int].is_anchor(),
        forall|m: int| 0 <= m < first_index ==> !(#[trigger] s0[m].is_anchor()),
    ensures
        filled_up_to(final(timeline_entities)@, s0, first_index + 1),
{
    if first_index > 0 {
        let ts = TimelineTimestamp::RangeStart(extract_ts_from_entity(&timeline_entities[first_index]));
        set_span(timeline_entities, 0, first_index, ts);
    }
    proof {
        let cur = timeline_entities@;
        assert forall|k: int| 0 <= k < first_index + 1 implies #[trigger] cur[k] == filled(s0)[k] by {
            if k < first_index {
                lemma_filled_head(s0, first_index as int, k);
            } else {
                lemma_filled_keeps_anchor(s0, k);
            }
        }
    }
}

/// Gives the entities between two neighbouring anchors the range that
/// the two span.
fn fill_between(
    timeline_entities: &mut Vec<TimelineEntity>,
    start_i: usize,
    end_i: usize,
    Ghost(s0): Ghost<Seq<TimelineEntity>>,
)
    requires
        filled_up_to(old(timeline_entities)@, s0, start_i + 1),
        start_i < end_i < s0.len(),
        s0[start_i as int].is_anchor(),
        s0[end_i as int].is_anchor(),
        forall|m: int| start_i < m < end_i ==> !(#[trigger] s0[m].is_anchor()),
    ensures
        filled_up_to(final(timeline_entities)@, s0, end_i + 1),
{
    let ghost before = timeline_entities@;
    proof {
        lemma_filled_keeps_anchor(s0, start_i as int);
        assert(before[start_i as int] == s0[start_i as int]);
        assert(before[end_i as int] == s0[end_i as int]);
    }
    let ts = TimelineTimestamp::Range {
        from: extract_ts_from_entity(&timeline_entities[end_i]),
        to: extract_ts_from_entity(&timeline_entities[start_i]),
    };
    set_span(timeline_entities, start_i + 1, end_i, ts);
    proof {
        let cur = timeline_entities@;
        assert forall|k: int| 0 <= k < end_i + 1 implies #[trigger] cur[k] == filled(s0)[k] by {
            if k <= start_i {
                assert(cur[k] == before[k]);
            } else if k < end_i {
                assert(before[k] == s0[k]);
                lemma_filled_between(s0, start_i as int, end_i as int, k);
            } else {
                assert(cur[k] == before[k]);
                lemma_filled_keeps_anchor(s0, k);
            }
        }
        assert forall|k: int| end_i + 1 <= k < s0.len() implies #[trigger] cur[k] == s0[k] by {
            assert(cur[k] == before[k]);
        }
    }
}

/// Marks the entities after the last anchor as older than it.
fn fill_tail(timeline_entities: &mut Vec<TimelineEntity>, last_index: usize, Ghost(s0): Ghost<Seq<TimelineEntity>>)
    requires
        filled_up_to(old(timeline_entities)@, s0, last_index + 1),
        last_index < s0.len(),
        s0[last_index as int].is_anchor(),
        forall|m: int| last_index < m < s0.len() ==> !(#[trigger] s0[m].is_anchor()),
    ensures
        final(timeline_entities)@ == filled(s0),
{
    let ghost before = timeline_entities@;
    let n: usize = timeline_entities.len();
    proof {
        lemma_filled_keeps_anchor(s0, last_index as int);
        assert(before[last_index as int] == s0[last_index as int]);
    }
    if last_index + 1 < n {
        let ts = TimelineTimestamp::RangeEnd(extract_ts_from_entity(&timeline_entities[last_index]));
        set_span(timeline_entities, last_index + 1, n, ts);
    }
    proof {
        let cur = timeline_entities@;
        assert forall|k: int| 0 <= k < s0.len() implies cur[k] == filled(s0)[k] by {
            if k <= last_index {
                assert(cur[k] == before[k]);
            } else {
                assert(before[k] == s0[k]);
                lemma_filled_tail(s0, last_index as int, k);
            }
        }
        assert(cur =~= filled(s0));
    }
}

/// Fills in the ranges of a timeline whose anchors stand at `range_indices`.
///
/// Entities before the first anchor are newer than it, entities between
/// two anchors lie between their timestamps, and entities after the last
/// anchor are older than it. Anchors stay as they are. A range whose lower
/// bound is not below its upper bound is written as computed.
pub fn set_timestamp_ranges(range_indices: &Vec<usize>, timeline_entities: &mut Vec<TimelineEntity>)
    requires
        range_indices@.len() > 0,
        lists_anchors(range_indices@, old(timeline_entities)@),
    ensures
        final(timeline_entities)@ == filled(old(timeline_entities)@),
{
    let ghost s0 = timeline_entities@;
    let ghost idx = range_indices@;
    let count: usize = range_indices.len();
    proof {
        reveal(anchors_listed);
        assert(anchors_listed(idx, s0));
        lemma_first_anchor(idx, s0);
    }
    fill_head(timeline_entities, range_indices[0], Ghost(s0));
    let mut w: usize = 0;
    while w + 1 < count
        invariant
            count == idx.len(),
            idx == range_indices@,
            0 <= w < count,
            anchors_listed(idx, s0),
            filled_up_to(timeline_entities@, s0, idx[w as int] + 1),
        decreases count - w,
    {
        proof {
            lemma_neighbour_anchors(idx, s0, w as int);
        }
        fill_between(timeline_entities, range_indices[w], range_indices[w + 1], Ghost(s0));
        w += 1;
    }
    proof {
        lemma_last_anchor(idx, s0);
    }
    fill_tail(timeline_entities, range_indices[count - 1], Ghost(s0));
}

/// Whether the entity carries a range whose lower bound is not below its
/// upper bound. Such a range shows that the timestamps of two anchors came
/// out of order.
pub open spec fn is_inconsistent(e: TimelineEntity) -> bool {
    e.timestamp matches Some(TimelineTimestamp::Range { from, to }) && from@ >= to@
}

/// Whether `indices` lists the positions of all inconsistent ranges of
/// `s`, and only those, in ascending order.
pub open spec fn lists_inconsistent(indices: Seq<usize>, s: Seq<TimelineEntity>) -> bool {
    &&& forall|a: int, b: int| 0 <= a < b < indices.len() ==> indices[a] < indices[b]
    &&& forall|a: int| 0 <= a < indices.len() ==> indices[a] < s.len() && is_inconsistent(s[indices[a] as int])
    &&& forall|i: int|
        0 <= i < s.len() && is_inconsistent(#[trigger] s[i]) ==> exists|a: int|
            0 <= a < indices.len() && #[trigger] indices[a] == i
}

/// The positions of the ranges whose bounds are the wrong way round, in
/// ascending order. Each of them calls for a warning.
pub fn inconsistent_ranges(timeline_entities: &Vec<TimelineEntity>) -> (indices: Vec<usize>)
    ensures
        lists_inconsistent(indices@, timeline_entities@),
{
    let mut indices: Vec<usize> = Vec::new();
    let n: usize = timeline_entities.len();
    let mut i: usize = 0;
    while i < n
        invariant
            n == timeline_entities@.len(),
            0 <= i <= n,
            lists_inconsistent(indices@, timeline_entities@.take(i as int)),
        decreases n - i,
    {
        let ghost before = indices@;
        let ghost s = timeline_entities@;
        let inconsistent = match &timeline_entities[i].timestamp {
            Some(TimelineTimestamp::Range { from, to }) => !from.is_before(to),
            _ => false,
        };
        if inconsistent {
            indices.push(i);
        }
        proof {
            assert forall|m: int| 0 <= m < i + 1 && is_inconsistent(#[trigger] s.take(i + 1)[m]) implies exists|
                a: int,
            |
                0 <= a < indices@.len() && #[trigger] indices@[a] == m by {
                if m < i {
                    assert(is_inconsistent(s.take(i as int)[m]));
                    let a = choose|a: int| 0 <= a < before.len() && #[trigger] before[a] == m;
                    assert(indices@[a] == m);
                } else {
                    assert(indices@[before.len() as int] == i);
                }
            }
        }
        i += 1;
    }
    proof {
        assert(timeline_entities@.take(n as int) =~= timeline_entities@);
    }
    indices
}

/// Fills in the ranges of a timeline. A timeline without an anchor is
/// left as it is.
pub fn fill_ranges(timeline_entities: &mut Vec<TimelineEntity>)
    ensures
        final(timeline_entities)@ == filled(old(timeline_entities)@),
{
    let indices = get_exact_ts_indices(timeline_entities);
    if indices.len() > 0 {
        set_timestamp_ranges(&indices, timeline_entities);
    } else {
        proof {
            let s = timeline_entities@;
            assert forall|i: int| 0 <= i < s.len() implies filled_timestamp(s, i) == s[i].timestamp by {
                lemma_anchor_before_none(s, i);
                lemma_anchor_after_none(s, i);
            }
            assert(s =~= filled(s));
        }
    }
}

} // verus!
