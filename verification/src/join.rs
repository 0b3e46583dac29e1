//! The Amcache join: every record of the Amcache is attached to the first
//! entity of the timeline that stands for the same file or program.

use vstd::prelude::*;
use crate::artifact::{EntryType, FileEntry, ProgramEntry};
use crate::pattern::str_to_lowercase;
use crate::timeline::TimelineEntity;

verus! {

/// The key under which an entity is found for a file record: the
/// lowercased path of its shimcache record, where that record describes a
/// file.
pub open spec fn file_key(e: TimelineEntity) -> Option<Seq<char>> {
    match e.shimcache_entry {
        Some(entry) => match entry.entry_type {
            EntryType::File { path } => Some(str_to_lowercase(path@)),
            EntryType::Program { .. } => None,
        },
        None => None,
    }
}

/// The key under which an entity is found for a program record: the name
/// of its shimcache record as it stands, where that record describes a
/// program.
pub open spec fn program_key(e: TimelineEntity) -> Option<Seq<char>> {
    match e.shimcache_entry {
        Some(entry) => match entry.entry_type {
            EntryType::File { .. } => None,
            EntryType::Program { program_name, .. } => Some(program_name@),
        },
        None => None,
    }
}

/// The file keys of a timeline, entity by entity.
pub open spec fn file_keys(s: Seq<TimelineEntity>) -> Seq<Option<Seq<char>>> {
    Seq::new(s.len(), |i: int| file_key(s[i]))
}

/// The program keys of a timeline, entity by entity.
pub open spec fn program_keys(s: Seq<TimelineEntity>) -> Seq<Option<Seq<char>>> {
    Seq::new(s.len(), |i: int| program_key(s[i]))
}

/// What a list of keys holds, each string taken by its characters.
pub open spec fn key_views(keys: Seq<Option<String>>) -> Seq<Option<Seq<char>>> {
    Seq::new(
        keys.len(),
        |i: int|
            match keys[i] {
                Some(k) => Some(k@),
                None => None,
            },
    )
}

/// The first position at or after `from` whose key is `key`.
pub open spec fn first_with_key(keys: Seq<Option<Seq<char>>>, key: Seq<char>, from: int) -> Option<int>
    decreases keys.len() - from,
{
    if from < 0 || from >= keys.len() {
        None
    } else if keys[from] == Some(key) {
        Some(from)
    } else {
        first_with_key(keys, key, from + 1)
    }
}

/// What `first_with_key` says when it finds a position, and when it finds
/// none.
pub proof fn lemma_first_with_key(keys: Seq<Option<Seq<char>>>, key: Seq<char>, from: int)
    requires
        0 <= from,
    ensures
        match first_with_key(keys, key, from) {
            Some(i) => from <= i < keys.len() && keys[i] == Some(key) && forall|k: int|
                from <= k < i ==> #[trigger] keys[k] != Some(key),
            None => forall|k: int| from <= k < keys.len() ==> #[trigger] keys[k] != Some(key),
        },
    decreases keys.len() - from,
{
    if from < keys.len() && keys[from] != Some(key) {
        lemma_first_with_key(keys, key, from + 1);
    }
}

/// The first position in `keys` that holds `key`.
pub fn find_first_key(keys: &Vec<Option<String>>, key: &String) -> (found: Option<usize>)
    ensures
        match found {
            Some(i) => first_with_key(key_views(keys@), key@, 0) == Some(i as int),
            None => first_with_key(key_views(keys@), key@, 0) is None,
        },
{
    let ghost kv = key_views(keys@);
    let mut i: usize = 0;
    while i < keys.len()
        invariant
            0 <= i <= keys@.len(),
            kv == key_views(keys@),
            first_with_key(kv, key@, 0) == first_with_key(kv, key@, i as int),
        decreases keys@.len() - i,
    {
        let hit = match &keys[i] {
            Some(k) => *k == *key,
            None => false,
        };
        if hit {
            return Some(i);
        }
        i += 1;
    }
    None
}

/// The timeline `s` with the file record attached at position `i`.
pub open spec fn with_file_at(s: Seq<TimelineEntity>, i: int, file_entry: FileEntry) -> Seq<TimelineEntity> {
    s.update(i, TimelineEntity { amcache_file: Some(file_entry), ..s[i] })
}

/// The timeline `s` with the program record attached at position `i`.
pub open spec fn with_program_at(s: Seq<TimelineEntity>, i: int, program_entry: ProgramEntry) -> Seq<
    TimelineEntity,
> {
    s.update(i, TimelineEntity { amcache_program: Some(program_entry), ..s[i] })
}

/// The timeline after one file record was joined: the record goes to the
/// first entity that stands for a file of the same path, letter case
/// aside, and takes the place of a record attached there before. Where no
/// entity stands for that file, the timeline stays as it is.
pub open spec fn with_file_attached(s: Seq<TimelineEntity>, file_entry: FileEntry) -> Seq<TimelineEntity> {
    match first_with_key(file_keys(s), str_to_lowercase(file_entry.path@), 0) {
        Some(i) => with_file_at(s, i, file_entry),
        None => s,
    }
}

/// The timeline after one program record was joined: the record goes to
/// the first entity that stands for a program of exactly that name.
pub open spec fn with_program_attached(s: Seq<TimelineEntity>, program_entry: ProgramEntry) -> Seq<
    TimelineEntity,
> {
    match first_with_key(program_keys(s), program_entry.program_name@, 0) {
        Some(i) => with_program_at(s, i, program_entry),
        None => s,
    }
}

/// The timeline after the file records were joined, one after the other.
pub open spec fn with_files_attached(s: Seq<TimelineEntity>, file_entries: Seq<FileEntry>) -> Seq<
    TimelineEntity,
>
    decreases file_entries.len(),
{
    if file_entries.len() == 0 {
        s
    } else {
        with_file_attached(with_files_attached(s, file_entries.drop_last()), file_entries.last())
    }
}

/// The timeline after the program records were joined, one after the other.
pub open spec fn with_programs_attached(s: Seq<TimelineEntity>, program_entries: Seq<ProgramEntry>) -> Seq<
    TimelineEntity,
>
    decreases program_entries.len(),
{
    if program_entries.len() == 0 {
        s
    } else {
        with_program_attached(with_programs_attached(s, program_entries.drop_last()), program_entries.last())
    }
}

/// Joining a file record changes neither the length of a timeline nor
/// the keys of its entities.
pub proof fn lemma_file_attached_keeps_keys(s: Seq<TimelineEntity>, file_entry: FileEntry)
    ensures
        with_file_attached(s, file_entry).len() == s.len(),
        file_keys(with_file_attached(s, file_entry)) == file_keys(s),
        program_keys(with_file_attached(s, file_entry)) == program_keys(s),
{
    lemma_first_with_key(file_keys(s), str_to_lowercase(file_entry.path@), 0);
    assert(file_keys(with_file_attached(s, file_entry)) =~= file_keys(s));
    assert(program_keys(with_file_attached(s, file_entry)) =~= program_keys(s));
}

/// Joining a program record changes neither the length of a timeline nor
/// the keys of its entities.
pub proof fn lemma_program_attached_keeps_keys(s: Seq<TimelineEntity>, program_entry: ProgramEntry)
    ensures
        with_program_attached(s, program_entry).len() == s.len(),
        file_keys(with_program_attached(s, program_entry)) == file_keys(s),
        program_keys(with_program_attached(s, program_entry)) == program_keys(s),
{
    lemma_first_with_key(program_keys(s), program_entry.program_name@, 0);
    assert(file_keys(with_program_attached(s, program_entry)) =~= file_keys(s));
    assert(program_keys(with_program_attached(s, program_entry)) =~= program_keys(s));
}

/// The join touches nothing but what is attached: the timeline keeps its
/// length, and every entity its shimcache record and its timestamp. An
/// entity without a shimcache record is left as it is.
pub proof fn lemma_files_attached_keep_rest(s: Seq<TimelineEntity>, file_entries: Seq<FileEntry>)
    ensures
        with_files_attached(s, file_entries).len() == s.len(),
        file_keys(with_files_attached(s, file_entries)) == file_keys(s),
        program_keys(with_files_attached(s, file_entries)) == program_keys(s),
        forall|i: int|
            0 <= i < s.len() ==> {
                let e = #[trigger] with_files_attached(s, file_entries)[i];
                &&& e.shimcache_entry == s[i].shimcache_entry
                &&& e.timestamp == s[i].timestamp
                &&& e.amcache_program == s[i].amcache_program
                &&& s[i].shimcache_entry is None ==> e == s[i]
            },
    decreases file_entries.len(),
{
    if file_entries.len() > 0 {
        let before = with_files_attached(s, file_entries.drop_last());
        lemma_files_attached_keep_rest(s, file_entries.drop_last());
        lemma_file_attached_keeps_keys(before, file_entries.last());
        lemma_first_with_key(file_keys(before), str_to_lowercase(file_entries.last().path@), 0);
        assert forall|i: int| 0 <= i < s.len() implies {
            let e = #[trigger] with_files_attached(s, file_entries)[i];
            &&& e.shimcache_entry == s[i].shimcache_entry
            &&& e.timestamp == s[i].timestamp
            &&& e.amcache_program == s[i].amcache_program
            &&& s[i].shimcache_entry is None ==> e == s[i]
        } by {
            assert(before[i].shimcache_entry == s[i].shimcache_entry);
            assert(file_keys(before)[i] == file_key(before[i]));
        }
    }
}

/// The join of the program records touches nothing but what is attached.
pub proof fn lemma_programs_attached_keep_rest(s: Seq<TimelineEntity>, program_entries: Seq<ProgramEntry>)
    ensures
        with_programs_attached(s, program_entries).len() == s.len(),
        file_keys(with_programs_attached(s, program_entries)) == file_keys(s),
        program_keys(with_programs_attached(s, program_entries)) == program_keys(s),
        forall|i: int|
            0 <= i < s.len() ==> {
                let e = #[trigger] with_programs_attached(s, program_entries)[i];
                &&& e.shimcache_entry == s[i].shimcache_entry
                &&& e.timestamp == s[i].timestamp
                &&& e.amcache_file == s[i].amcache_file
                &&& s[i].shimcache_entry is None ==> e == s[i]
            },
    decreases program_entries.len(),
{
    if program_entries.len() > 0 {
        let before = with_programs_attached(s, program_entries.drop_last());
        lemma_programs_attached_keep_rest(s, program_entries.drop_last());
        lemma_program_attached_keeps_keys(before, program_entries.last());
        lemma_first_with_key(program_keys(before), program_entries.last().program_name@, 0);
        assert forall|i: int| 0 <= i < s.len() implies {
            let e = #[trigger] with_programs_attached(s, program_entries)[i];
            &&& e.shimcache_entry == s[i].shimcache_entry
            &&& e.timestamp == s[i].timestamp
            &&& e.amcache_file == s[i].amcache_file
            &&& s[i].shimcache_entry is None ==> e == s[i]
        } by {
            assert(before[i].shimcache_entry == s[i].shimcache_entry);
            assert(program_keys(before)[i] == program_key(before[i]));
        }
    }
}

/// The file key of every entity of a timeline.
pub fn file_keys_of(timeline_entities: &Vec<TimelineEntity>) -> (keys: Vec<Option<String>>)
    ensures
        key_views(keys@) == file_keys(timeline_entities@),
{
    let mut keys: Vec<Option<String>> = Vec::new();
    let mut i: usize = 0;
    while i < timeline_entities.len()
        invariant
            0 <= i <= timeline_entities@.len(),
            keys@.len() == i,
            forall|k: int| 0 <= k < i ==> #[trigger] key_views(keys@)[k] == file_keys(timeline_entities@)[k],
        decreases timeline_entities@.len() - i,
    {
        let ghost before = keys@;
        let key = match &timeline_entities[i].shimcache_entry {
            Some(entry) => match &entry.entry_type {
                EntryType::File { path } => Some(path.as_str().to_lowercase()),
                EntryType::Program { .. } => None,
            },
            None => None,
        };
        keys.push(key);
        proof {
            assert forall|k: int| 0 <= k < i + 1 implies #[trigger] key_views(keys@)[k] == file_keys(
                timeline_entities@,
            )[k] by {
                if k < i {
                    assert(keys@[k] == before[k]);
                    assert(key_views(before)[k] == file_keys(timeline_entities@)[k]);
                }
            }
        }
        i += 1;
    }
    proof {
        assert(key_views(keys@) =~= file_keys(timeline_entities@));
    }
    keys
}

/// The program key of every entity of a timeline.
pub fn program_keys_of(timeline_entities: &Vec<TimelineEntity>) -> (keys: Vec<Option<String>>)
    ensures
        key_views(keys@) == program_keys(timeline_entities@),
{
    let mut keys: Vec<Option<String>> = Vec::new();
    let mut i: usize = 0;
    while i < timeline_entities.len()
        invariant
            0 <= i <= timeline_entities@.len(),
            keys@.len() == i,
            forall|k: int| 0 <= k < i ==> #[trigger] key_views(keys@)[k] == program_keys(timeline_entities@)[k],
        decreases timeline_entities@.len() - i,
    {
        let ghost before = keys@;
        let key = match &timeline_entities[i].shimcache_entry {
            Some(entry) => match &entry.entry_type {
                EntryType::File { .. } => None,
                EntryType::Program { program_name, .. } => Some(program_name.clone()),
            },
            None => None,
        };
        keys.push(key);
        proof {
            assert forall|k: int| 0 <= k < i + 1 implies #[trigger] key_views(keys@)[k] == program_keys(
                timeline_entities@,
            )[k] by {
                if k < i {
                    assert(keys@[k] == before[k]);
                    assert(key_views(before)[k] == program_keys(timeline_entities@)[k]);
                }
            }
        }
        i += 1;
    }
    proof {
        assert(key_views(keys@) =~= program_keys(timeline_entities@));
    }
    keys
}

/// Joins the file records of the Amcache to the timeline, in their order.
pub fn attach_file_entries(timeline_entities: &mut Vec<TimelineEntity>, file_entries: Vec<FileEntry>)
    ensures
        final(timeline_entities)@ == with_files_attached(old(timeline_entities)@, file_entries@),
{
    let ghost s0 = timeline_entities@;
    let ghost entries = file_entries@;
    let keys = file_keys_of(timeline_entities);
    for file_entry in it: file_entries
        invariant
            it.seq() == entries,
            key_views(keys@) == file_keys(timeline_entities@),
            timeline_entities@ == with_files_attached(s0, entries.take(it.index() as int)),
    {
        let ghost cur = timeline_entities@;
        let ghost done = it.index() as int;
        proof {
            assert(entries.take(done + 1).drop_last() =~= entries.take(done));
            assert(entries.take(done + 1).last() == file_entry);
            lemma_file_attached_keeps_keys(cur, file_entry);
            lemma_first_with_key(file_keys(cur), str_to_lowercase(file_entry.path@), 0);
        }
        let key = file_entry.path.as_str().to_lowercase();
        match find_first_key(&keys, &key) {
            Some(i) => {
                timeline_entities[i].amcache_file = Some(file_entry);
                proof {
                    assert(timeline_entities@ =~= with_file_at(cur, i as int, file_entry));
                }
            },
            None => {},
        }
    }
    proof {
        assert(entries.take(entries.len() as int) =~= entries);
    }
}

/// Joins the program records of the Amcache to the timeline, in their
/// order.
pub fn attach_program_entries(timeline_entities: &mut Vec<TimelineEntity>, program_entries: Vec<ProgramEntry>)
    ensures
        final(timeline_entities)@ == with_programs_attached(old(timeline_entities)@, program_entries@),
{
    let ghost s0 = timeline_entities@;
    let ghost entries = program_entries@;
    let keys = program_keys_of(timeline_entities);
    for program_entry in it: program_entries
        invariant
            it.seq() == entries,
            key_views(keys@) == program_keys(timeline_entities@),
            timeline_entities@ == with_programs_attached(s0, entries.take(it.index() as int)),
    {
        let ghost cur = timeline_entities@;
        let ghost done = it.index() as int;
        proof {
            assert(entries.take(done + 1).drop_last() =~= entries.take(done));
            assert(entries.take(done + 1).last() == program_entry);
            lemma_program_attached_keeps_keys(cur, program_entry);
            lemma_first_with_key(program_keys(cur), program_entry.program_name@, 0);
        }
        match find_first_key(&keys, &program_entry.program_name) {
            Some(i) => {
                timeline_entities[i].amcache_program = Some(program_entry);
                proof {
                    assert(timeline_entities@ =~= with_program_at(cur, i as int, program_entry));
                }
            },
            None => {},
        }
    }
    proof {
        assert(entries.take(entries.len() as int) =~= entries);
    }
}

} // verus!
