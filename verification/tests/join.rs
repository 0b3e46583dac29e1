use shimcache_timeline::artifact::{EntryType, FileEntry, ProgramEntry, ShimcacheEntry};
use shimcache_timeline::join::{
    attach_file_entries, attach_program_entries, file_keys_of, find_first_key, program_keys_of,
};
use shimcache_timeline::time::Timestamp;
use shimcache_timeline::timeline::TimelineEntity;

fn file(path: &str) -> TimelineEntity {
    TimelineEntity::with_shimcache_entry(ShimcacheEntry {
        entry_type: EntryType::File { path: path.to_string() },
        last_modified_ts: None,
        insertion_index: 0,
    })
}

fn program(name: &str) -> TimelineEntity {
    TimelineEntity::with_shimcache_entry(ShimcacheEntry {
        entry_type: EntryType::Program { program_name: name.to_string(), publisher: None, version: None },
        last_modified_ts: None,
        insertion_index: 0,
    })
}

fn head() -> TimelineEntity {
    TimelineEntity { amcache_file: None, amcache_program: None, shimcache_entry: None, timestamp: None }
}

fn file_record(path: &str, secs: i64) -> FileEntry {
    FileEntry { path: path.to_string(), key_last_modified_ts: Timestamp::new(secs, 0), sha1_hash: None }
}

fn program_record(name: &str, secs: i64) -> ProgramEntry {
    ProgramEntry { program_name: name.to_string(), key_last_modified_ts: Timestamp::new(secs, 0), version: None }
}

#[test]
fn keys_are_lowercased_paths_and_plain_names() {
    let entities = vec![head(), file("C:\\Dir\\A.EXE"), program("Acme Agent")];
    assert_eq!(file_keys_of(&entities), vec![None, Some("c:\\dir\\a.exe".to_string()), None]);
    assert_eq!(program_keys_of(&entities), vec![None, None, Some("Acme Agent".to_string())]);
}

#[test]
fn the_first_key_wins() {
    let keys = vec![None, Some("b".to_string()), Some("a".to_string()), Some("b".to_string())];
    assert_eq!(find_first_key(&keys, &"b".to_string()), Some(1));
    assert_eq!(find_first_key(&keys, &"a".to_string()), Some(2));
    assert_eq!(find_first_key(&keys, &"c".to_string()), None);
    assert_eq!(find_first_key(&Vec::new(), &"a".to_string()), None);
}

#[test]
fn a_file_record_goes_to_the_first_of_two_equal_paths() {
    let mut entities = vec![head(), file("C:\\a.exe"), file("C:\\b.exe"), file("c:\\A.EXE")];
    attach_file_entries(&mut entities, vec![file_record("C:\\A.exe", 5)]);
    assert_eq!(entities[1].amcache_file, Some(file_record("C:\\A.exe", 5)));
    assert!(entities[0].amcache_file.is_none());
    assert!(entities[2].amcache_file.is_none());
    assert!(entities[3].amcache_file.is_none());
}

#[test]
fn a_later_record_takes_the_place_of_an_earlier_one() {
    let mut entities = vec![head(), file("C:\\a.exe")];
    attach_file_entries(&mut entities, vec![file_record("c:\\a.exe", 5), file_record("C:\\A.EXE", 6)]);
    assert_eq!(entities[1].amcache_file, Some(file_record("C:\\A.EXE", 6)));
}

#[test]
fn a_record_without_an_entity_is_dropped() {
    let mut entities = vec![head(), file("C:\\a.exe"), program("C:\\z.exe")];
    let before = entities.clone();
    attach_file_entries(&mut entities, vec![file_record("C:\\z.exe", 5)]);
    assert_eq!(entities, before);
}

#[test]
fn program_records_go_by_the_exact_name() {
    let mut entities = vec![head(), program("Acme Agent"), file("Acme Agent"), program("Acme Agent")];
    attach_program_entries(
        &mut entities,
        vec![program_record("acme agent", 1), program_record("Acme Agent", 2), program_record("Other", 3)],
    );
    assert_eq!(entities[1].amcache_program, Some(program_record("Acme Agent", 2)));
    assert!(entities[2].amcache_program.is_none());
    assert!(entities[3].amcache_program.is_none());
}

#[test]
fn the_join_leaves_records_and_timestamps_alone() {
    let mut entities = vec![head(), file("C:\\a.exe")];
    let before = entities.clone();
    attach_file_entries(&mut entities, vec![file_record("C:\\a.exe", 5)]);
    assert_eq!(entities[1].shimcache_entry, before[1].shimcache_entry);
    assert_eq!(entities[1].timestamp, before[1].timestamp);
    assert_eq!(entities[0], before[0]);
}
