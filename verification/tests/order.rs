use shimcache_timeline::order::anchors_in_order;
use shimcache_timeline::ranges::fill_ranges;
use shimcache_timeline::time::Timestamp;
use shimcache_timeline::timeline::{TimelineEntity, TimelineTimestamp, TimestampType};

fn exact(secs: i64) -> Option<TimelineTimestamp> {
    Some(TimelineTimestamp::Exact(Timestamp::new(secs, 0), TimestampType::PatternMatch))
}

fn timeline(stamps: Vec<Option<TimelineTimestamp>>) -> Vec<TimelineEntity> {
    stamps
        .into_iter()
        .map(|timestamp| TimelineEntity {
            amcache_file: None,
            amcache_program: None,
            shimcache_entry: None,
            timestamp,
        })
        .collect()
}

#[test]
fn descending_anchors_are_in_order() {
    assert!(anchors_in_order(&timeline(vec![exact(300), None, exact(200), exact(200), None, exact(100)])));
    assert!(anchors_in_order(&timeline(vec![None, None])));
    assert!(anchors_in_order(&timeline(vec![exact(1)])));
    assert!(anchors_in_order(&Vec::new()));
}

#[test]
fn a_growing_pair_is_out_of_order() {
    assert!(!anchors_in_order(&timeline(vec![exact(300), None, exact(100), None, exact(200)])));
    assert!(!anchors_in_order(&timeline(vec![exact(100), exact(101)])));
}

#[test]
fn ranges_do_not_count_as_anchors() {
    let range = Some(TimelineTimestamp::Range { from: Timestamp::new(900, 0), to: Timestamp::new(950, 0) });
    assert!(anchors_in_order(&timeline(vec![exact(300), range, exact(200)])));
}

#[test]
fn filling_keeps_the_order_of_the_anchors() {
    let mut ordered = timeline(vec![exact(300), None, exact(200), None]);
    fill_ranges(&mut ordered);
    assert!(anchors_in_order(&ordered));
    let mut disordered = timeline(vec![exact(100), None, exact(200), None]);
    fill_ranges(&mut disordered);
    assert!(!anchors_in_order(&disordered));
}
