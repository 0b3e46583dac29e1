//! What holds of every timeline that the range filler has worked on.

use vstd::prelude::*;
use crate::order::anchors_descend;
use crate::ranges::{
    anchor_after,
    anchor_before,
    filled,
    has_anchor,
    lemma_anchor_after,
    lemma_anchor_after_is,
    lemma_anchor_after_none,
    lemma_anchor_before,
    lemma_anchor_before_is,
    lemma_anchor_before_none,
    with_timestamp,
};
use crate::time::Timestamp;
use crate::timeline::{TimelineEntity, TimelineTimestamp, TimestampType};

verus! {

/// Whether `j` is the position of the nearest anchor above `i`.
pub open spec fn nearest_anchor_above(s: Seq<TimelineEntity>, i: int, j: int) -> bool {
    &&& 0 <= j < i
    &&& s[j].is_anchor()
    &&& forall|m: int| j < m < i ==> !(#[trigger] s[m].is_anchor())
}

/// Whether `k` is the position of the nearest anchor below `i`.
pub open spec fn nearest_anchor_below(s: Seq<TimelineEntity>, i: int, k: int) -> bool {
    &&& i < k < s.len()
    &&& s[k].is_anchor()
    &&& forall|m: int| i < m < k ==> !(#[trigger] s[m].is_anchor())
}

/// The range filler moves no anchor: a timeline and its filled-in form
/// have their anchors at the same positions, and the entities there are
/// the same.
pub proof fn lemma_filled_keeps_anchors(s: Seq<TimelineEntity>)
    ensures
        filled(s).len() == s.len(),
        forall|i: int| 0 <= i < s.len() ==> (#[trigger] filled(s)[i]).is_anchor() == s[i].is_anchor(),
        forall|i: int| 0 <= i < s.len() && s[i].is_anchor() ==> #[trigger] filled(s)[i] == s[i],
        has_anchor(filled(s)) == has_anchor(s),
{
    let t = filled(s);
    if has_anchor(s) {
        let i = choose|i: int| 0 <= i < s.len() && #[trigger] s[i].is_anchor();
        assert(t[i].is_anchor());
    }
    if has_anchor(t) {
        let i = choose|i: int| 0 <= i < t.len() && #[trigger] t[i].is_anchor();
        assert(s[i].is_anchor());
    }
}

/// Two timelines with their anchors at the same positions have the same
/// nearest anchors.
pub proof fn lemma_same_anchors_same_neighbours(s: Seq<TimelineEntity>, t: Seq<TimelineEntity>, i: int)
    requires
        s.len() == t.len(),
        forall|m: int| 0 <= m < s.len() ==> (#[trigger] s[m]).is_anchor() == (#[trigger] t[m]).is_anchor(),
        0 <= i < s.len(),
    ensures
        anchor_before(s, i) == anchor_before(t, i),
        anchor_after(s, i) == anchor_after(t, i),
{
    lemma_anchor_before(s, i);
    lemma_anchor_after(s, i);
    match anchor_before(s, i) {
        Some(j) => {
            assert(t[j].is_anchor());
            assert forall|m: int| j < m < i implies !(#[trigger] t[m].is_anchor()) by {
                assert(!s[m].is_anchor());
            }
            lemma_anchor_before_is(t, i, j);
        },
        None => {
            assert forall|m: int| 0 <= m < i implies !(#[trigger] t[m].is_anchor()) by {
                assert(!s[m].is_anchor());
            }
            lemma_anchor_before_none(t, i);
        },
    }
    match anchor_after(s, i) {
        Some(k) => {
            assert(t[k].is_anchor());
            assert forall|m: int| i < m < k implies !(#[trigger] t[m].is_anchor()) by {
                assert(!s[m].is_anchor());
            }
            lemma_anchor_after_is(t, i, k);
        },
        None => {
            assert forall|m: int| i < m < t.len() implies !(#[trigger] t[m].is_anchor()) by {
                assert(!s[m].is_anchor());
            }
            lemma_anchor_after_none(t, i);
        },
    }
}

/// Filling in the ranges a second time changes nothing.
pub proof fn lemma_fill_is_idempotent(s: Seq<TimelineEntity>)
    ensures
        filled(filled(s)) == filled(s),
{
    let t = filled(s);
    lemma_filled_keeps_anchors(s);
    assert forall|i: int| 0 <= i < s.len() implies filled(t)[i] == t[i] by {
        lemma_same_anchors_same_neighbours(s, t, i);
        lemma_anchor_before(s, i);
        lemma_anchor_after(s, i);
    }
    assert(filled(t) =~= t);
}

/// Whether the entity at `i` carries what its nearest anchors in `t` say:
/// it is an anchor itself; or it carries a range between the anchors on
/// either side, the upper bound from the nearest anchor above and the
/// lower bound from the nearest anchor below; or, with an anchor on one
/// side only, the half-open range that this anchor bounds.
pub open spec fn enclosed_at(t: Seq<TimelineEntity>, i: int) -> bool {
    match t[i].timestamp {
        Some(TimelineTimestamp::Exact(_, _)) => true,
        Some(TimelineTimestamp::Range { from, to }) => exists|j: int, k: int|
            #![trigger t[j], t[k]]
            nearest_anchor_above(t, i, j) && t[j].anchor_ts() == to && nearest_anchor_below(t, i, k)
                && t[k].anchor_ts() == from,
        Some(TimelineTimestamp::RangeEnd(to)) => (exists|j: int|
            nearest_anchor_above(t, i, j) && (#[trigger] t[j]).anchor_ts() == to) && forall|m: int|
            i <= m < t.len() ==> !(#[trigger] t[m]).is_anchor(),
        Some(TimelineTimestamp::RangeStart(from)) => (exists|k: int|
            nearest_anchor_below(t, i, k) && (#[trigger] t[k]).anchor_ts() == from) && forall|m: int|
            0 <= m <= i ==> !(#[trigger] t[m]).is_anchor(),
        None => false,
    }
}

/// Ranges are enclosed. In the filled-in form of a timeline that holds an
/// anchor, every entity carries what its nearest anchors say, and the
/// exact timestamps are those that the timeline had before.
pub proof fn lemma_ranges_are_enclosed(s: Seq<TimelineEntity>, i: int)
    requires
        has_anchor(s),
        0 <= i < s.len(),
    ensures
        enclosed_at(filled(s), i),
        filled(s)[i].is_anchor() ==> filled(s)[i] == s[i],
{
    let t = filled(s);
    lemma_filled_keeps_anchors(s);
    lemma_same_anchors_same_neighbours(s, t, i);
    lemma_anchor_before(t, i);
    lemma_anchor_after(t, i);
    lemma_anchor_before(s, i);
    lemma_anchor_after(s, i);
    if !s[i].is_anchor() {
        let w = choose|w: int| 0 <= w < s.len() && #[trigger] s[w].is_anchor();
        assert(w != i);
        match (anchor_before(s, i), anchor_after(s, i)) {
            (Some(j), Some(k)) => {
                assert(nearest_anchor_above(t, i, j) && t[j].anchor_ts() == s[j].anchor_ts());
                assert(nearest_anchor_below(t, i, k) && t[k].anchor_ts() == s[k].anchor_ts());
            },
            (Some(j), None) => {
                assert(nearest_anchor_above(t, i, j) && t[j].anchor_ts() == s[j].anchor_ts());
            },
            (None, Some(k)) => {
                assert(nearest_anchor_below(t, i, k) && t[k].anchor_ts() == s[k].anchor_ts());
            },
            (None, None) => {
                assert(false);
            },
        }
    }
}

/// The range filler keeps the order of the anchors: their timestamps
/// descend in the filled-in timeline exactly when they did before.
pub proof fn lemma_fill_keeps_anchor_order(s: Seq<TimelineEntity>)
    ensures
        anchors_descend(filled(s)) == anchors_descend(s),
{
    let t = filled(s);
    lemma_filled_keeps_anchors(s);
    if anchors_descend(s) {
        assert forall|i: int, j: int|
            0 <= i < j < t.len() && #[trigger] t[i].is_anchor() && #[trigger] t[j].is_anchor() implies t[i].anchor_ts()@
            >= t[j].anchor_ts()@ by {
            assert(s[i].is_anchor() && s[j].is_anchor());
        }
    }
    if anchors_descend(t) {
        assert forall|i: int, j: int|
            0 <= i < j < s.len() && #[trigger] s[i].is_anchor() && #[trigger] s[j].is_anchor() implies s[i].anchor_ts()@
            >= s[j].anchor_ts()@ by {
            assert(t[i].is_anchor() && t[j].is_anchor());
        }
    }
}

/// Where the anchors descend, no range that the filler writes has its
/// lower bound above its upper bound. So a range with its bounds the
/// wrong way round shows that the timestamps of two anchors came out of
/// order.
pub proof fn lemma_ordered_anchors_give_ordered_ranges(s: Seq<TimelineEntity>, i: int)
    requires
        has_anchor(s),
        anchors_descend(s),
        0 <= i < s.len(),
    ensures
        filled(s)[i].timestamp matches Some(TimelineTimestamp::Range { from, to }) ==> from@ <= to@,
{
    lemma_anchor_before(s, i);
    lemma_anchor_after(s, i);
}

/// The bound from above that a timestamp sets, if it sets one.
pub open spec fn upper_bound(timestamp: Option<TimelineTimestamp>) -> Option<int> {
    match timestamp {
        Some(TimelineTimestamp::Exact(ts, _)) => Some(ts@),
        Some(TimelineTimestamp::Range { from, to }) => Some(to@),
        Some(TimelineTimestamp::RangeEnd(to)) => Some(to@),
        Some(TimelineTimestamp::RangeStart(_)) => None,
        None => None,
    }
}

/// The bound from below that a timestamp sets, if it sets one.
pub open spec fn lower_bound(timestamp: Option<TimelineTimestamp>) -> Option<int> {
    match timestamp {
        Some(TimelineTimestamp::Exact(ts, _)) => Some(ts@),
        Some(TimelineTimestamp::Range { from, to }) => Some(from@),
        Some(TimelineTimestamp::RangeEnd(_)) => None,
        Some(TimelineTimestamp::RangeStart(from)) => Some(from@),
        None => None,
    }
}

/// Whether `ts` lies within the bounds that `timestamp` sets, the bounds
/// themselves included.
pub open spec fn within_bounds(timestamp: Option<TimelineTimestamp>, ts: Timestamp) -> bool {
    &&& lower_bound(timestamp) matches Some(l) ==> l <= ts@
    &&& upper_bound(timestamp) matches Some(u) ==> ts@ <= u
}

/// Whether `new` leaves no more room than `old`: every bound that `old`
/// sets, `new` sets as well, and at least as tightly.
pub open spec fn no_wider(new: Option<TimelineTimestamp>, old: Option<TimelineTimestamp>) -> bool {
    &&& upper_bound(old) matches Some(u) ==> (upper_bound(new) matches Some(v) && v <= u)
    &&& lower_bound(old) matches Some(l) ==> (lower_bound(new) matches Some(m) && m >= l)
}

/// The timeline `s` with the entity at `p` promoted to an anchor.
pub open spec fn with_anchor_at(s: Seq<TimelineEntity>, p: int, ts: Timestamp, kind: TimestampType) -> Seq<
    TimelineEntity,
> {
    s.update(p, with_timestamp(s[p], Some(TimelineTimestamp::Exact(ts, kind))))
}

/// A new anchor only narrows. Where an entity of a filled-in timeline is
/// promoted to a timestamp within the bounds that it had, and the ranges
/// are filled in again, no other entity is left with more room than
/// before.
pub proof fn lemma_new_anchor_narrows(s: Seq<TimelineEntity>, p: int, ts: Timestamp, kind: TimestampType, i: int)
    requires
        has_anchor(s),
        0 <= p < s.len(),
        !s[p].is_anchor(),
        within_bounds(filled(s)[p].timestamp, ts),
        0 <= i < s.len(),
        i != p,
    ensures
        no_wider(filled(with_anchor_at(s, p, ts, kind))[i].timestamp, filled(s)[i].timestamp),
{
    let promoted = with_anchor_at(s, p, ts, kind);
    assert(promoted[p].is_anchor() && promoted[p].anchor_ts() == ts);
    assert forall|m: int| 0 <= m < s.len() && m != p implies #[trigger] promoted[m] == s[m] by {}
    lemma_anchor_before(s, i);
    lemma_anchor_after(s, i);
    lemma_anchor_before(s, p);
    lemma_anchor_after(s, p);
    lemma_anchor_before(promoted, i);
    lemma_anchor_after(promoted, i);
    if s[i].is_anchor() {
    } else {
        let w = choose|w: int| 0 <= w < s.len() && #[trigger] s[w].is_anchor();
        // the nearest anchor above
        match anchor_before(s, i) {
            Some(j) => {
                if j < p < i {
                    lemma_anchor_before_is(promoted, i, p);
                    assert forall|m: int| j < m < p implies !(#[trigger] s[m].is_anchor()) by {}
                    lemma_anchor_before_is(s, p, j);
                } else {
                    assert(promoted[j].is_anchor());
                    assert forall|m: int| j < m < i implies !(#[trigger] promoted[m].is_anchor()) by {
                        assert(!s[m].is_anchor());
                    }
                    lemma_anchor_before_is(promoted, i, j);
                }
            },
            None => {},
        }
        // the nearest anchor below
        match anchor_after(s, i) {
            Some(k) => {
                if i < p < k {
                    lemma_anchor_after_is(promoted, i, p);
                    assert forall|m: int| p < m < k implies !(#[trigger] s[m].is_anchor()) by {}
                    lemma_anchor_after_is(s, p, k);
                } else {
                    assert(promoted[k].is_anchor());
                    assert forall|m: int| i < m < k implies !(#[trigger] promoted[m].is_anchor()) by {
                        assert(!s[m].is_anchor());
                    }
                    lemma_anchor_after_is(promoted, i, k);
                }
            },
            None => {},
        }
    }
}

} // verus!
