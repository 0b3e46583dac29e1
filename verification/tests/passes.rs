use shimcache_timeline::analyzer::compile_patterns;
use shimcache_timeline::artifact::{EntryType, FileEntry, ShimcacheArtifact, ShimcacheEntry};
use shimcache_timeline::builder::build_timeline;
use shimcache_timeline::resolver::{
    anchor_if_in_range, anchor_if_near, anchor_near_timestamps, anchor_on_match, anchor_pattern_matches,
    anchor_range_matches,
};
use shimcache_timeline::time::Timestamp;
use shimcache_timeline::timeline::{TimelineEntity, TimelineTimestamp, TimestampType};

fn at(secs: i64) -> Timestamp {
    Timestamp::new(secs, 0)
}

fn file_entry(path: &str, ts: Option<i64>) -> ShimcacheEntry {
    ShimcacheEntry {
        entry_type: EntryType::File { path: path.to_string() },
        last_modified_ts: ts.map(at),
        insertion_index: 0,
    }
}

fn program_entry(name: &str, ts: Option<i64>) -> ShimcacheEntry {
    ShimcacheEntry {
        entry_type: EntryType::Program { program_name: name.to_string(), publisher: None, version: None },
        last_modified_ts: ts.map(at),
        insertion_index: 0,
    }
}

fn record(path: &str, secs: i64) -> FileEntry {
    FileEntry { path: path.to_string(), key_last_modified_ts: at(secs), sha1_hash: None }
}

fn entity(
    entry: Option<ShimcacheEntry>,
    amcache_file: Option<FileEntry>,
    timestamp: Option<TimelineTimestamp>,
) -> TimelineEntity {
    TimelineEntity { amcache_file, amcache_program: None, shimcache_entry: entry, timestamp }
}

#[test]
fn the_timeline_starts_with_the_head() {
    let cache = ShimcacheArtifact {
        version: "Windows 7".to_string(),
        last_update_ts: at(900),
        entries: vec![file_entry("C:\\a.exe", Some(1)), program_entry("P", None)],
    };
    let entities = build_timeline(cache);
    assert_eq!(entities.len(), 3);
    assert_eq!(
        entities[0],
        entity(None, None, Some(TimelineTimestamp::Exact(at(900), TimestampType::ShimcacheLastUpdate)))
    );
    assert_eq!(entities[1], entity(Some(file_entry("C:\\a.exe", Some(1))), None, None));
    assert_eq!(entities[2], entity(Some(program_entry("P", None)), None, None));
}

#[test]
fn an_empty_shimcache_gives_the_head_alone() {
    let cache = ShimcacheArtifact { version: String::new(), last_update_ts: at(900), entries: vec![] };
    let entities = build_timeline(cache);
    assert_eq!(entities.len(), 1);
    assert!(entities[0].shimcache_entry.is_none());
}

#[test]
fn a_match_needs_a_modification_time() {
    let mut with_time = entity(Some(file_entry("a", Some(5))), None, None);
    assert!(anchor_on_match(&mut with_time, true));
    assert_eq!(with_time.timestamp, Some(TimelineTimestamp::Exact(at(5), TimestampType::PatternMatch)));

    let mut without_time = entity(Some(file_entry("a", None)), None, None);
    assert!(!anchor_on_match(&mut without_time, true));
    assert_eq!(without_time.timestamp, None);

    let mut unmatched = entity(Some(file_entry("a", Some(5))), None, None);
    assert!(!anchor_on_match(&mut unmatched, false));
    assert_eq!(unmatched.timestamp, None);

    let head = Some(TimelineTimestamp::Exact(at(9), TimestampType::ShimcacheLastUpdate));
    let mut no_record = entity(None, None, head);
    assert!(!anchor_on_match(&mut no_record, true));
    assert_eq!(no_record.timestamp, head);
}

#[test]
fn the_pattern_pass_counts_what_it_promotes() {
    let regexes = compile_patterns(&vec!["evil".to_string(), "agent$".to_string()]).unwrap();
    let head = Some(TimelineTimestamp::Exact(at(9), TimestampType::ShimcacheLastUpdate));
    let mut entities = vec![
        entity(None, None, head),
        entity(Some(file_entry("C:\\EVIL.exe", Some(5))), None, None),
        entity(Some(file_entry("C:\\evil2.exe", None)), None, None),
        entity(Some(file_entry("C:\\good.exe", Some(4))), None, None),
        entity(Some(program_entry("agent", Some(3))), None, None),
        entity(Some(program_entry("Agent", Some(2))), None, None),
    ];
    assert_eq!(anchor_pattern_matches(&mut entities, &regexes), 2);
    let stamps: Vec<_> = entities.iter().map(|e| e.timestamp).collect();
    assert_eq!(
        stamps,
        vec![
            head,
            Some(TimelineTimestamp::Exact(at(5), TimestampType::PatternMatch)),
            None,
            None,
            Some(TimelineTimestamp::Exact(at(3), TimestampType::PatternMatch)),
            None,
        ]
    );
}

#[test]
fn near_takes_the_amcache_timestamp() {
    let mut e = entity(
        Some(file_entry("a", Some(1000))),
        Some(record("a", 1060)),
        Some(TimelineTimestamp::Exact(at(1000), TimestampType::PatternMatch)),
    );
    assert!(anchor_if_near(&mut e));
    assert_eq!(e.timestamp, Some(TimelineTimestamp::Exact(at(1060), TimestampType::NearTSMatch)));

    let mut far = entity(Some(file_entry("a", Some(1000))), Some(record("a", 1061)), None);
    assert!(!anchor_if_near(&mut far));
    assert_eq!(far.timestamp, None);

    let mut earlier = entity(Some(file_entry("a", Some(1000))), Some(record("a", 940)), None);
    assert!(anchor_if_near(&mut earlier));
    assert_eq!(earlier.timestamp, Some(TimelineTimestamp::Exact(at(940), TimestampType::NearTSMatch)));

    let mut no_time = entity(Some(file_entry("a", None)), Some(record("a", 1000)), None);
    assert!(!anchor_if_near(&mut no_time));

    let mut no_record = entity(Some(file_entry("a", Some(1000))), None, None);
    assert!(!anchor_if_near(&mut no_record));
}

#[test]
fn the_near_pass_counts_what_it_promotes() {
    let mut entities = vec![
        entity(None, None, Some(TimelineTimestamp::Exact(at(9000), TimestampType::ShimcacheLastUpdate))),
        entity(Some(file_entry("a", Some(1000))), Some(record("a", 1001)), None),
        entity(Some(file_entry("b", Some(1000))), Some(record("b", 5000)), None),
        entity(Some(file_entry("c", Some(500))), Some(record("c", 500)), None),
    ];
    assert_eq!(anchor_near_timestamps(&mut entities), 2);
    assert_eq!(entities[1].timestamp, Some(TimelineTimestamp::Exact(at(1001), TimestampType::NearTSMatch)));
    assert_eq!(entities[2].timestamp, None);
    assert_eq!(entities[3].timestamp, Some(TimelineTimestamp::Exact(at(500), TimestampType::NearTSMatch)));
}

#[test]
fn in_range_is_strict_on_both_sides() {
    let range = Some(TimelineTimestamp::Range { from: at(100), to: at(200) });
    let mut inside = entity(Some(file_entry("a", Some(1))), Some(record("a", 150)), range);
    assert!(anchor_if_in_range(&mut inside));
    assert_eq!(inside.timestamp, Some(TimelineTimestamp::Exact(at(150), TimestampType::AmcacheRangeMatch)));

    let mut at_lower = entity(Some(file_entry("a", Some(1))), Some(record("a", 100)), range);
    assert!(!anchor_if_in_range(&mut at_lower));
    assert_eq!(at_lower.timestamp, range);

    let mut at_upper = entity(Some(file_entry("a", Some(1))), Some(record("a", 200)), range);
    assert!(!anchor_if_in_range(&mut at_upper));
    assert_eq!(at_upper.timestamp, range);
}

#[test]
fn in_range_takes_files_with_a_range_only() {
    let range = Some(TimelineTimestamp::Range { from: at(100), to: at(200) });
    let mut a_program = entity(Some(program_entry("p", Some(1))), Some(record("p", 150)), range);
    assert!(!anchor_if_in_range(&mut a_program));
    assert_eq!(a_program.timestamp, range);

    let open = Some(TimelineTimestamp::RangeEnd(at(200)));
    let mut open_ended = entity(Some(file_entry("a", Some(1))), Some(record("a", 150)), open);
    assert!(!anchor_if_in_range(&mut open_ended));
    assert_eq!(open_ended.timestamp, open);

    let near = Some(TimelineTimestamp::Exact(at(150), TimestampType::NearTSMatch));
    let mut anchored = entity(Some(file_entry("a", Some(1))), Some(record("a", 150)), near);
    assert!(!anchor_if_in_range(&mut anchored));
    assert_eq!(anchored.timestamp, near);

    let mut nothing_attached = entity(Some(file_entry("a", Some(1))), None, range);
    assert!(!anchor_if_in_range(&mut nothing_attached));
}

#[test]
fn the_in_range_pass_counts_what_it_promotes() {
    let range = Some(TimelineTimestamp::Range { from: at(100), to: at(200) });
    let mut entities = vec![
        entity(None, None, Some(TimelineTimestamp::Exact(at(200), TimestampType::ShimcacheLastUpdate))),
        entity(Some(file_entry("a", None)), Some(record("a", 150)), range),
        entity(Some(file_entry("b", None)), Some(record("b", 250)), range),
        entity(Some(file_entry("c", None)), Some(record("c", 101)), range),
    ];
    assert_eq!(anchor_range_matches(&mut entities), 2);
    assert_eq!(entities[1].timestamp, Some(TimelineTimestamp::Exact(at(150), TimestampType::AmcacheRangeMatch)));
    assert_eq!(entities[2].timestamp, range);
    assert_eq!(entities[3].timestamp, Some(TimelineTimestamp::Exact(at(101), TimestampType::AmcacheRangeMatch)));
}
