use shimcache_timeline::artifact::{EntryType, FileEntry, ProgramEntry, ShimcacheEntry};
use shimcache_timeline::report::{
    provenance_label, to_record, to_records, EntryKind, Record, TimestampKind, COLUMNS,
};
use shimcache_timeline::time::Timestamp;
use shimcache_timeline::timeline::{TimelineEntity, TimelineTimestamp, TimestampType};

fn at(secs: i64) -> Timestamp {
    Timestamp::new(secs, 0)
}

#[test]
fn the_columns_stand_in_their_order() {
    assert_eq!(
        COLUMNS,
        [
            "shimcache_index",
            "entry_kind",
            "path_or_name",
            "shimcache_last_modified",
            "amcache_file_key_last_modified",
            "amcache_program_key_last_modified",
            "timeline_timestamp_kind",
            "timeline_ts_or_from",
            "timeline_ts_or_to",
            "provenance",
        ]
    );
}

#[test]
fn labels_are_the_words_of_the_report() {
    assert_eq!(EntryKind::File.label(), "file");
    assert_eq!(EntryKind::Program.label(), "program");
    assert_eq!(TimestampKind::Exact.label(), "exact");
    assert_eq!(TimestampKind::Range.label(), "range");
    assert_eq!(TimestampKind::RangeStart.label(), "range_start");
    assert_eq!(TimestampKind::RangeEnd.label(), "range_end");
    assert_eq!(TimestampKind::Unknown.label(), "none");
    assert_eq!(provenance_label(&None), "none");
    assert_eq!(provenance_label(&Some(TimestampType::ShimcacheLastUpdate)), "shimcache_last_update");
    assert_eq!(provenance_label(&Some(TimestampType::PatternMatch)), "pattern");
    assert_eq!(provenance_label(&Some(TimestampType::NearTSMatch)), "near_ts");
    assert_eq!(provenance_label(&Some(TimestampType::AmcacheRangeMatch)), "amcache_range");
}

#[test]
fn the_head_has_a_timestamp_and_nothing_else() {
    let head = TimelineEntity {
        amcache_file: None,
        amcache_program: None,
        shimcache_entry: None,
        timestamp: Some(TimelineTimestamp::Exact(at(9), TimestampType::ShimcacheLastUpdate)),
    };
    assert_eq!(
        to_record(&head),
        Record {
            shimcache_index: None,
            entry_kind: None,
            path_or_name: None,
            shimcache_last_modified: None,
            amcache_file_key_last_modified: None,
            amcache_program_key_last_modified: None,
            timeline_timestamp_kind: TimestampKind::Exact,
            timeline_ts_or_from: Some(at(9)),
            timeline_ts_or_to: Some(at(9)),
            provenance: Some(TimestampType::ShimcacheLastUpdate),
        }
    );
}

#[test]
fn a_file_with_a_range_and_both_attachments() {
    let entity = TimelineEntity {
        amcache_file: Some(FileEntry {
            path: "c:\\a.exe".to_string(),
            key_last_modified_ts: at(5),
            sha1_hash: None,
        }),
        amcache_program: Some(ProgramEntry {
            program_name: "A".to_string(),
            key_last_modified_ts: at(6),
            version: None,
        }),
        shimcache_entry: Some(ShimcacheEntry {
            entry_type: EntryType::File { path: "C:\\A.exe".to_string() },
            last_modified_ts: Some(at(4)),
            insertion_index: 17,
        }),
        timestamp: Some(TimelineTimestamp::Range { from: at(1), to: at(8) }),
    };
    assert_eq!(
        to_record(&entity),
        Record {
            shimcache_index: Some(17),
            entry_kind: Some(EntryKind::File),
            path_or_name: Some("C:\\A.exe".to_string()),
            shimcache_last_modified: Some(at(4)),
            amcache_file_key_last_modified: Some(at(5)),
            amcache_program_key_last_modified: Some(at(6)),
            timeline_timestamp_kind: TimestampKind::Range,
            timeline_ts_or_from: Some(at(1)),
            timeline_ts_or_to: Some(at(8)),
            provenance: None,
        }
    );
}

fn program_with(timestamp: Option<TimelineTimestamp>) -> TimelineEntity {
    TimelineEntity {
        amcache_file: None,
        amcache_program: None,
        shimcache_entry: Some(ShimcacheEntry {
            entry_type: EntryType::Program {
                program_name: "Acme Agent".to_string(),
                publisher: Some("Acme".to_string()),
                version: None,
            },
            last_modified_ts: None,
            insertion_index: 0,
        }),
        timestamp,
    }
}

#[test]
fn half_open_ranges_fill_one_of_the_two_columns() {
    let newer = to_record(&program_with(Some(TimelineTimestamp::RangeStart(at(3)))));
    assert_eq!(newer.timeline_timestamp_kind, TimestampKind::RangeStart);
    assert_eq!(newer.timeline_ts_or_from, Some(at(3)));
    assert_eq!(newer.timeline_ts_or_to, None);
    assert_eq!(newer.provenance, None);

    let older = to_record(&program_with(Some(TimelineTimestamp::RangeEnd(at(3)))));
    assert_eq!(older.timeline_timestamp_kind, TimestampKind::RangeEnd);
    assert_eq!(older.timeline_ts_or_from, None);
    assert_eq!(older.timeline_ts_or_to, Some(at(3)));

    let unknown = to_record(&program_with(None));
    assert_eq!(unknown.timeline_timestamp_kind, TimestampKind::Unknown);
    assert_eq!(unknown.timeline_ts_or_from, None);
    assert_eq!(unknown.timeline_ts_or_to, None);
    assert_eq!(unknown.entry_kind, Some(EntryKind::Program));
    assert_eq!(unknown.path_or_name, Some("Acme Agent".to_string()));
    assert_eq!(unknown.shimcache_index, Some(0));
    assert_eq!(unknown.shimcache_last_modified, None);
}

#[test]
fn records_come_one_for_each_entity_in_order() {
    let entities = vec![
        program_with(Some(TimelineTimestamp::Exact(at(2), TimestampType::PatternMatch))),
        program_with(None),
    ];
    let records = to_records(&entities);
    assert_eq!(records, vec![to_record(&entities[0]), to_record(&entities[1])]);
    assert_eq!(records[0].provenance, Some(TimestampType::PatternMatch));
    assert!(to_records(&Vec::new()).is_empty());
}
