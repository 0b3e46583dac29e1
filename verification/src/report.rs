//! The record that stands for an entity in a report: ten columns, in a
//! fixed order, some of them empty.

use vstd::prelude::*;
use crate::artifact::EntryType;
use crate::time::Timestamp;
use crate::timeline::{TimelineEntity, TimelineTimestamp, TimestampType};

verus! {

/// The names of the columns, in their order.
pub const COLUMNS: [&'static str; 10] = [
    "shimcache_index",
    "entry_kind",
    "path_or_name",
    "shimcache_last_modified",
    "amcache_file_key_last_modified",
    "amcache_program_key_last_modified",
    "timeline_timestamp_kind",
    "timeline_ts_or_from",
    "timeline_ts_or_to",
    "provenance",
];

/// What kind of thing a shimcache record describes.
#[derive(Debug, Clone, Copy, PartialEq, Eq, Structural)]
pub enum EntryKind {
    File,
    Program,
}

/// What kind of timestamp an entity carries.
#[derive(Debug, Clone, Copy, PartialEq, Eq, Structural)]
pub enum TimestampKind {
    Exact,
    Range,
    RangeStart,
    RangeEnd,
    /// The entity carries no timestamp.
    Unknown,
}

/// One row of a report. A field that is `None` stands for an empty cell.
#[derive(Debug, Clone, PartialEq, Eq)]
pub struct Record {
    pub shimcache_index: Option<usize>,
    pub entry_kind: Option<EntryKind>,
    /// The path of a file, or the name of a program.
    pub path_or_name: Option<String>,
    pub shimcache_last_modified: Option<Timestamp>,
    pub amcache_file_key_last_modified: Option<Timestamp>,
    pub amcache_program_key_last_modified: Option<Timestamp>,
    pub timeline_timestamp_kind: TimestampKind,
    /// The exact timestamp, or the lower bound of a range.
    pub timeline_ts_or_from: Option<Timestamp>,
    /// The exact timestamp, or the upper bound of a range.
    pub timeline_ts_or_to: Option<Timestamp>,
    /// Absent where the timestamp is not exact.
    pub provenance: Option<TimestampType>,
}

/// The kind of a timestamp.
pub open spec fn kind_of(timestamp: Option<TimelineTimestamp>) -> TimestampKind {
    match timestamp {
        Some(TimelineTimestamp::Exact(_, _)) => TimestampKind::Exact,
        Some(TimelineTimestamp::Range { .. }) => TimestampKind::Range,
        Some(TimelineTimestamp::RangeStart(_)) => TimestampKind::RangeStart,
        Some(TimelineTimestamp::RangeEnd(_)) => TimestampKind::RangeEnd,
        None => TimestampKind::Unknown,
    }
}

/// The exact timestamp, or the lower bound of a range that has one.
pub open spec fn ts_or_from(timestamp: Option<TimelineTimestamp>) -> Option<Timestamp> {
    match timestamp {
        Some(TimelineTimestamp::Exact(ts, _)) => Some(ts),
        Some(TimelineTimestamp::Range { from, .. }) => Some(from),
        Some(TimelineTimestamp::RangeStart(from)) => Some(from),
        Some(TimelineTimestamp::RangeEnd(_)) => None,
        None => None,
    }
}

/// The exact timestamp, or the upper bound of a range that has one.
pub open spec fn ts_or_to(timestamp: Option<TimelineTimestamp>) -> Option<Timestamp> {
    match timestamp {
        Some(TimelineTimestamp::Exact(ts, _)) => Some(ts),
        Some(TimelineTimestamp::Range { to, .. }) => Some(to),
        Some(TimelineTimestamp::RangeStart(_)) => None,
        Some(TimelineTimestamp::RangeEnd(to)) => Some(to),
        None => None,
    }
}

/// How an exact timestamp was established; nothing for any other.
pub open spec fn provenance_of(timestamp: Option<TimelineTimestamp>) -> Option<TimestampType> {
    match timestamp {
        Some(TimelineTimestamp::Exact(_, kind)) => Some(kind),
        _ => None,
    }
}

/// The record of an entity.
pub open spec fn record_of(e: TimelineEntity) -> Record {
    Record {
        shimcache_index: match e.shimcache_entry {
            Some(entry) => Some(entry.insertion_index),
            None => None,
        },
        entry_kind: match e.shimcache_entry {
            Some(entry) => Some(
                match entry.entry_type {
                    EntryType::File { .. } => EntryKind::File,
                    EntryType::Program { .. } => EntryKind::Program,
                },
            ),
            None => None,
        },
        path_or_name: match e.shimcache_entry {
            Some(entry) => Some(
                match entry.entry_type {
                    EntryType::File { path } => path,
                    EntryType::Program { program_name, .. } => program_name,
                },
            ),
            None => None,
        },
        shimcache_last_modified: match e.shimcache_entry {
            Some(entry) => entry.last_modified_ts,
            None => None,
        },
        amcache_file_key_last_modified: match e.amcache_file {
            Some(file) => Some(file.key_last_modified_ts),
            None => None,
        },
        amcache_program_key_last_modified: match e.amcache_program {
            Some(program) => Some(program.key_last_modified_ts),
            None => None,
        },
        timeline_timestamp_kind: kind_of(e.timestamp),
        timeline_ts_or_from: ts_or_from(e.timestamp),
        timeline_ts_or_to: ts_or_to(e.timestamp),
        provenance: provenance_of(e.timestamp),
    }
}

impl EntryKind {
    /// The text of the kind in a report.
    pub open spec fn label_text(self) -> Seq<char> {
        match self {
            EntryKind::File => "file"@,
            EntryKind::Program => "program"@,
        }
    }

    /// The text of the kind in a report.
    pub fn label(&self) -> (text: &'static str)
        ensures
            text@ == self.label_text(),
    {
        match self {
            EntryKind::File => "file",
            EntryKind::Program => "program",
        }
    }
}

impl TimestampKind {
    /// The text of the kind in a report.
    pub open spec fn label_text(self) -> Seq<char> {
        match self {
            TimestampKind::Exact => "exact"@,
            TimestampKind::Range => "range"@,
            TimestampKind::RangeStart => "range_start"@,
            TimestampKind::RangeEnd => "range_end"@,
            TimestampKind::Unknown => "none"@,
        }
    }

    /// The text of the kind in a report.
    pub fn label(&self) -> (text: &'static str)
        ensures
            text@ == self.label_text(),
    {
        match self {
            TimestampKind::Exact => "exact",
            TimestampKind::Range => "range",
            TimestampKind::RangeStart => "range_start",
            TimestampKind::RangeEnd => "range_end",
            TimestampKind::Unknown => "none",
        }
    }
}

/// The text of a provenance in a report.
pub open spec fn provenance_text(provenance: Option<TimestampType>) -> Seq<char> {
    match provenance {
        Some(TimestampType::ShimcacheLastUpdate) => "shimcache_last_update"@,
        Some(TimestampType::PatternMatch) => "pattern"@,
        Some(TimestampType::NearTSMatch) => "near_ts"@,
        Some(TimestampType::AmcacheRangeMatch) => "amcache_range"@,
        None => "none"@,
    }
}

/// The text of a provenance in a report.
pub fn provenance_label(provenance: &Option<TimestampType>) -> (text: &'static str)
    ensures
        text@ == provenance_text(*provenance),
{
    match provenance {
        Some(TimestampType::ShimcacheLastUpdate) => "shimcache_last_update",
        Some(TimestampType::PatternMatch) => "pattern",
        Some(TimestampType::NearTSMatch) => "near_ts",
        Some(TimestampType::AmcacheRangeMatch) => "amcache_range",
        None => "none",
    }
}

/// The record of an entity.
pub fn to_record(entity: &TimelineEntity) -> (record: Record)
    ensures
        record == record_of(*entity),
{
    let (shimcache_index, entry_kind, path_or_name, shimcache_last_modified) = match &entity.shimcache_entry {
        Some(entry) => {
            let (kind, text) = match &entry.entry_type {
                EntryType::File { path } => (EntryKind::File, path.clone()),
                EntryType::Program { program_name, .. } => (EntryKind::Program, program_name.clone()),
            };
            (Some(entry.insertion_index), Some(kind), Some(text), entry.last_modified_ts)
        },
        None => (None, None, None, None),
    };
    let amcache_file_key_last_modified = match &entity.amcache_file {
        Some(file) => Some(file.key_last_modified_ts),
        None => None,
    };
    let amcache_program_key_last_modified = match &entity.amcache_program {
        Some(program) => Some(program.key_last_modified_ts),
        None => None,
    };
    let (timeline_timestamp_kind, timeline_ts_or_from, timeline_ts_or_to, provenance) = match entity.timestamp {
        Some(TimelineTimestamp::Exact(ts, kind)) => (TimestampKind::Exact, Some(ts), Some(ts), Some(kind)),
        Some(TimelineTimestamp::Range { from, to }) => (TimestampKind::Range, Some(from), Some(to), None),
        Some(TimelineTimestamp::RangeStart(from)) => (TimestampKind::RangeStart, Some(from), None, None),
        Some(TimelineTimestamp::RangeEnd(to)) => (TimestampKind::RangeEnd, None, Some(to), None),
        None => (TimestampKind::Unknown, None, None, None),
    };
    Record {
        shimcache_index,
        entry_kind,
        path_or_name,
        shimcache_last_modified,
        amcache_file_key_last_modified,
        amcache_program_key_last_modified,
        timeline_timestamp_kind,
        timeline_ts_or_from,
        timeline_ts_or_to,
        provenance,
    }
}

/// The records of a timeline, one for each entity, in its order.
pub fn to_records(timeline_entities: &Vec<TimelineEntity>) -> (records: Vec<Record>)
    ensures
        records@ == Seq::new(timeline_entities@.len(), |i: int| record_of(timeline_entities@[i])),
{
    let mut records: Vec<Record> = Vec::new();
    let mut i: usize = 0;
    while i < timeline_entities.len()
        invariant
            0 <= i <= timeline_entities@.len(),
            records@ == Seq::new(i as nat, |k: int| record_of(timeline_entities@[k])),
        decreases timeline_entities@.len() - i,
    {
        records.push(to_record(&timeline_entities[i]));
        i += 1;
    }
    records
}

} // verus!
