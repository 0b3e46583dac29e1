//! The order of the anchors: a timeline runs from the newest entity to
//! the oldest, and so should the exact timestamps on it.

use vstd::prelude::*;
use crate::ranges::{anchor_before, lemma_anchor_before};
use crate::time::Timestamp;
use crate::timeline::{TimelineEntity, TimelineTimestamp};

verus! {

/// Whether the exact timestamps of a timeline never grow from one anchor
/// to a later one: newer first.
pub open spec fn anchors_descend(s: Seq<TimelineEntity>) -> bool {
    forall|i: int, j: int|
        0 <= i < j < s.len() && #[trigger] s[i].is_anchor() && #[trigger] s[j].is_anchor() ==> s[i].anchor_ts()@
            >= s[j].anchor_ts()@
}

/// Whether the exact timestamps of the first `n` entities descend.
spec fn descend_up_to(s: Seq<TimelineEntity>, n: int) -> bool {
    forall|i: int, j: int|
        0 <= i < j < n && #[trigger] s[i].is_anchor() && #[trigger] s[j].is_anchor() ==> s[i].anchor_ts()@
            >= s[j].anchor_ts()@
}

/// Whether the exact timestamps of a timeline descend. Where they do not,
/// the records of the shimcache were not in the order of their times.
pub fn anchors_in_order(timeline_entities: &Vec<TimelineEntity>) -> (in_order: bool)
    ensures
        in_order == anchors_descend(timeline_entities@),
{
    let ghost s = timeline_entities@;
    let n: usize = timeline_entities.len();
    let mut last: Option<Timestamp> = None;
    let mut i: usize = 0;
    while i < n
        invariant
            s == timeline_entities@,
            n == s.len(),
            0 <= i <= n,
            descend_up_to(s, i as int),
            match anchor_before(s, i as int) {
                Some(j) => last == Some(s[j].anchor_ts()),
                None => last is None,
            },
        decreases n - i,
    {
        proof {
            lemma_anchor_before(s, i as int);
        }
        if let Some(TimelineTimestamp::Exact(ts, _)) = timeline_entities[i].timestamp {
            if let Some(previous) = last {
                if previous.is_before(&ts) {
                    proof {
                        let j = anchor_before(s, i as int)->Some_0;
                        assert(s[j].is_anchor() && s[i as int].is_anchor());
                    }
                    return false;
                }
            }
            proof {
                assert forall|a: int, b: int|
                    0 <= a < b < i + 1 && #[trigger] s[a].is_anchor() && #[trigger] s[b].is_anchor() implies s[a].anchor_ts()@
                    >= s[b].anchor_ts()@ by {
                    if b == i {
                        let j = anchor_before(s, i as int)->Some_0;
                        assert(s[j].is_anchor());
                        if a < j {
                            assert(s[a].anchor_ts()@ >= s[j].anchor_ts()@);
                        }
                    }
                }
            }
            last = Some(ts);
        }
        i += 1;
    }
    true
}

} // verus!
