use shimcache_timeline::artifact::{EntryType, ShimcacheEntry};
use shimcache_timeline::ranges::{
    extract_ts_from_entity, fill_ranges, get_exact_ts_indices, inconsistent_ranges, set_timestamp_ranges,
};
use shimcache_timeline::time::Timestamp;
use shimcache_timeline::timeline::{TimelineEntity, TimelineTimestamp, TimestampType};

fn at(secs: i64) -> Timestamp {
    Timestamp::new(secs, 0)
}

fn bare(timestamp: Option<TimelineTimestamp>) -> TimelineEntity {
    TimelineEntity { amcache_file: None, amcache_program: None, shimcache_entry: None, timestamp }
}

fn exact(secs: i64) -> Option<TimelineTimestamp> {
    Some(TimelineTimestamp::Exact(at(secs), TimestampType::PatternMatch))
}

fn timeline(stamps: Vec<Option<TimelineTimestamp>>) -> Vec<TimelineEntity> {
    stamps.into_iter().map(bare).collect()
}

fn stamps(entities: &[TimelineEntity]) -> Vec<Option<TimelineTimestamp>> {
    entities.iter().map(|e| e.timestamp).collect()
}

#[test]
fn head_gap_interior_gap_and_tail_gap() {
    let mut entities = timeline(vec![None, None, exact(300), None, exact(200), exact(100), None, None]);
    assert_eq!(get_exact_ts_indices(&entities), vec![2, 4, 5]);
    fill_ranges(&mut entities);
    assert_eq!(
        stamps(&entities),
        vec![
            Some(TimelineTimestamp::RangeStart(at(300))),
            Some(TimelineTimestamp::RangeStart(at(300))),
            exact(300),
            Some(TimelineTimestamp::Range { from: at(200), to: at(300) }),
            exact(200),
            exact(100),
            Some(TimelineTimestamp::RangeEnd(at(100))),
            Some(TimelineTimestamp::RangeEnd(at(100))),
        ]
    );
}

#[test]
fn set_timestamp_ranges_with_the_listed_anchors() {
    let mut entities = timeline(vec![exact(300), None, None, exact(100)]);
    let indices = get_exact_ts_indices(&entities);
    assert_eq!(indices, vec![0, 3]);
    set_timestamp_ranges(&indices, &mut entities);
    assert_eq!(
        stamps(&entities),
        vec![
            exact(300),
            Some(TimelineTimestamp::Range { from: at(100), to: at(300) }),
            Some(TimelineTimestamp::Range { from: at(100), to: at(300) }),
            exact(100),
        ]
    );
}

#[test]
fn a_timeline_without_anchor_stays_as_it_is() {
    let stale = Some(TimelineTimestamp::RangeEnd(at(7)));
    let mut entities = timeline(vec![None, stale, None]);
    assert!(get_exact_ts_indices(&entities).is_empty());
    fill_ranges(&mut entities);
    assert_eq!(stamps(&entities), vec![None, stale, None]);
}

#[test]
fn an_empty_timeline_stays_empty() {
    let mut entities: Vec<TimelineEntity> = Vec::new();
    fill_ranges(&mut entities);
    assert!(entities.is_empty());
    assert!(inconsistent_ranges(&entities).is_empty());
}

#[test]
fn a_single_anchor_alone() {
    let mut entities = timeline(vec![exact(5)]);
    fill_ranges(&mut entities);
    assert_eq!(stamps(&entities), vec![exact(5)]);
}

#[test]
fn stale_ranges_are_overwritten() {
    let mut entities = timeline(vec![
        exact(300),
        Some(TimelineTimestamp::RangeEnd(at(300))),
        exact(100),
        Some(TimelineTimestamp::Range { from: at(1), to: at(2) }),
    ]);
    fill_ranges(&mut entities);
    assert_eq!(
        stamps(&entities),
        vec![
            exact(300),
            Some(TimelineTimestamp::Range { from: at(100), to: at(300) }),
            exact(100),
            Some(TimelineTimestamp::RangeEnd(at(100))),
        ]
    );
}

#[test]
fn filling_twice_changes_nothing() {
    let mut entities = timeline(vec![None, exact(300), None, None, exact(100), None]);
    fill_ranges(&mut entities);
    let once = entities.clone();
    fill_ranges(&mut entities);
    assert_eq!(entities, once);
}

#[test]
fn anchors_out_of_order_give_a_range_as_computed() {
    let mut entities = timeline(vec![exact(100), None, exact(300), None, exact(300), None, exact(200)]);
    fill_ranges(&mut entities);
    assert_eq!(entities[1].timestamp, Some(TimelineTimestamp::Range { from: at(300), to: at(100) }));
    assert_eq!(entities[3].timestamp, Some(TimelineTimestamp::Range { from: at(300), to: at(300) }));
    assert_eq!(entities[5].timestamp, Some(TimelineTimestamp::Range { from: at(200), to: at(300) }));
    assert_eq!(inconsistent_ranges(&entities), vec![1, 3]);
}

#[test]
fn anchors_in_order_give_no_inconsistent_range() {
    let mut entities = timeline(vec![exact(300), None, exact(200), None, exact(100), None]);
    fill_ranges(&mut entities);
    assert!(inconsistent_ranges(&entities).is_empty());
    let anchors: Vec<i64> = get_exact_ts_indices(&entities)
        .into_iter()
        .map(|i| extract_ts_from_entity(&entities[i]).secs)
        .collect();
    assert_eq!(anchors, vec![300, 200, 100]);
}

#[test]
fn a_new_anchor_narrows_its_neighbours() {
    let mut before = timeline(vec![exact(400), None, None, None, exact(100), None]);
    fill_ranges(&mut before);
    assert_eq!(before[2].timestamp, Some(TimelineTimestamp::Range { from: at(100), to: at(400) }));

    let mut after = before.clone();
    after[2].timestamp = Some(TimelineTimestamp::Exact(at(250), TimestampType::AmcacheRangeMatch));
    fill_ranges(&mut after);
    assert_eq!(
        stamps(&after),
        vec![
            exact(400),
            Some(TimelineTimestamp::Range { from: at(250), to: at(400) }),
            Some(TimelineTimestamp::Exact(at(250), TimestampType::AmcacheRangeMatch)),
            Some(TimelineTimestamp::Range { from: at(100), to: at(250) }),
            exact(100),
            Some(TimelineTimestamp::RangeEnd(at(100))),
        ]
    );
}

#[test]
fn a_new_anchor_below_the_last_closes_the_tail() {
    let mut entities = timeline(vec![exact(400), None, None, None]);
    fill_ranges(&mut entities);
    assert_eq!(entities[1].timestamp, Some(TimelineTimestamp::RangeEnd(at(400))));
    entities[2].timestamp = exact(150);
    fill_ranges(&mut entities);
    assert_eq!(
        stamps(&entities),
        vec![
            exact(400),
            Some(TimelineTimestamp::Range { from: at(150), to: at(400) }),
            exact(150),
            Some(TimelineTimestamp::RangeEnd(at(150))),
        ]
    );
}

#[test]
fn ranges_take_their_bounds_from_the_nearest_anchors() {
    let mut entities = timeline(vec![exact(500), exact(400), None, exact(300), exact(200), None, exact(100)]);
    fill_ranges(&mut entities);
    assert_eq!(entities[2].timestamp, Some(TimelineTimestamp::Range { from: at(300), to: at(400) }));
    assert_eq!(entities[5].timestamp, Some(TimelineTimestamp::Range { from: at(100), to: at(200) }));
}

#[test]
fn only_timestamps_change() {
    let entry = ShimcacheEntry {
        entry_type: EntryType::File { path: "C:\\a.exe".to_string() },
        last_modified_ts: None,
        insertion_index: 0,
    };
    let mut entities = vec![bare(exact(9)), TimelineEntity::with_shimcache_entry(entry.clone())];
    fill_ranges(&mut entities);
    assert_eq!(entities[1].shimcache_entry, Some(entry));
    assert!(entities[1].amcache_file.is_none());
    assert!(entities[1].amcache_program.is_none());
    assert_eq!(entities[1].timestamp, Some(TimelineTimestamp::RangeEnd(at(9))));
}
