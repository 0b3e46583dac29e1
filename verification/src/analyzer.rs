//! The analysis as a whole: patterns are compiled, the timeline is built
//! from the shimcache, and the passes and the range filler take turns.

use vstd::prelude::*;
use regex::Regex;
use std::path::PathBuf;
use crate::artifact::{AmcacheArtifact, ShimcacheArtifact};
use crate::builder::{build_timeline, head_entity, initial_timeline};
use crate::invariants::{
    enclosed_at,
    lemma_fill_keeps_anchor_order,
    lemma_filled_keeps_anchors,
    lemma_ranges_are_enclosed,
};
use crate::order::anchors_descend;
use crate::join::{
    attach_file_entries,
    attach_program_entries,
    lemma_files_attached_keep_rest,
    lemma_programs_attached_keep_rest,
    with_files_attached,
    with_programs_attached,
};
use crate::pattern::regex_new;
use crate::ranges::{fill_ranges, filled};
use crate::resolver::{
    anchor_near_timestamps,
    anchor_pattern_matches,
    anchor_range_matches,
    count_near_replacements,
    count_set,
    near_anchor,
    near_promotions,
    near_replacements,
    pattern_promotions,
    range_promotions,
    with_near_anchors,
    with_pattern_anchors,
    with_range_anchors,
};
use crate::timeline::{TimelineEntity, TimelineTimestamp, TimestampType};

verus! {

/// A path of the file system, as std holds it. It is carried along and
/// never looked into.
#[verifier::external_type_specification]
#[verifier::external_body]
pub struct ExPathBuf(std::path::PathBuf);

/// Why an analysis could not be made.
#[derive(Debug)]
pub enum AnalysisError {
    /// The pattern at `index` is not a regular expression that can be
    /// compiled; `source` says why.
    BadPattern { index: usize, source: regex::Error },
    /// No list of patterns was given at all.
    NoPatterns,
}

/// Whether every pattern of the list compiles.
pub open spec fn all_compile(patterns: Seq<String>) -> bool {
    forall|i: int| 0 <= i < patterns.len() ==> regex_new(#[trigger] patterns[i]@) is Ok
}

/// The compiled patterns, in the order of the list.
pub open spec fn compiled(patterns: Seq<String>) -> Seq<Regex>
    recommends
        all_compile(patterns),
{
    Seq::new(patterns.len(), |i: int| regex_new(patterns[i]@)->Ok_0)
}

/// Whether `index` is the first pattern of the list that does not compile.
pub open spec fn is_first_bad_pattern(patterns: Seq<String>, index: int) -> bool {
    &&& 0 <= index < patterns.len()
    &&& regex_new(patterns[index]@) is Err
    &&& forall|k: int| 0 <= k < index ==> regex_new(#[trigger] patterns[k]@) is Ok
}

/// What becomes of the pattern at `index` once the attempt to compile it
/// has ended in `outcome`.
pub fn checked_pattern(index: usize, outcome: Result<Regex, regex::Error>) -> (r: Result<Regex, AnalysisError>)
    ensures
        match outcome {
            Ok(regex) => r == Ok::<Regex, AnalysisError>(regex),
            Err(source) => r == Err::<Regex, AnalysisError>(AnalysisError::BadPattern { index, source }),
        },
{
    match outcome {
        Ok(regex) => Ok(regex),
        Err(source) => Err(AnalysisError::BadPattern { index, source }),
    }
}

/// Compiles the patterns in their order. The first pattern that does not
/// compile ends the attempt.
pub fn compile_patterns(regex_patterns: &Vec<String>) -> (r: Result<Vec<Regex>, AnalysisError>)
    ensures
        match r {
            Ok(regexes) => all_compile(regex_patterns@) && regexes@ == compiled(regex_patterns@),
            Err(AnalysisError::BadPattern { index, source }) => is_first_bad_pattern(regex_patterns@, index as int)
                && regex_new(regex_patterns@[index as int]@) == Err::<Regex, regex::Error>(source),
            Err(AnalysisError::NoPatterns) => false,
        },
{
    let mut regexes: Vec<Regex> = Vec::new();
    let mut i: usize = 0;
    while i < regex_patterns.len()
        invariant
            0 <= i <= regex_patterns@.len(),
            regexes@.len() == i,
            forall|k: int| 0 <= k < i ==> regex_new(#[trigger] regex_patterns@[k]@) == Ok::<Regex, regex::Error>(
                regexes@[k],
            ),
        decreases regex_patterns@.len() - i,
    {
        match checked_pattern(i, Regex::new(regex_patterns[i].as_str())) {
            Ok(regex) => regexes.push(regex),
            Err(e) => {
                return Err(e);
            },
        }
        i += 1;
    }
    proof {
        assert(regexes@ =~= compiled(regex_patterns@));
    }
    Ok(regexes)
}

/// Puts the patterns read from a file and the patterns given one by one
/// into a single list, the file's first. At least one of the two sources
/// has to be there; either may be empty.
pub fn merge_pattern_sources(from_file: Option<Vec<String>>, inline: Option<Vec<String>>) -> (r: Result<
    Vec<String>,
    AnalysisError,
>)
    ensures
        match r {
            Ok(patterns) => (from_file is Some || inline is Some) && patterns@ == (match from_file {
                Some(f) => f@,
                None => Seq::<String>::empty(),
            }) + (match inline {
                Some(l) => l@,
                None => Seq::<String>::empty(),
            }),
            Err(AnalysisError::NoPatterns) => from_file is None && inline is None,
            Err(AnalysisError::BadPattern { .. }) => false,
        },
{
    if from_file.is_none() && inline.is_none() {
        return Err(AnalysisError::NoPatterns);
    }
    let mut regex_patterns: Vec<String> = Vec::new();
    if let Some(mut file_regex_patterns) = from_file {
        regex_patterns.append(&mut file_regex_patterns);
    }
    if let Some(mut additional_patterns) = inline {
        regex_patterns.append(&mut additional_patterns);
    }
    Ok(regex_patterns)
}

/// The timeline `s` with the records of the Amcache joined to it: the
/// file records first, then the program records.
pub open spec fn joined(s: Seq<TimelineEntity>, amcache: AmcacheArtifact) -> Seq<TimelineEntity> {
    with_programs_attached(with_files_attached(s, amcache.file_entries@), amcache.program_entries@)
}

/// The timeline that the shimcache and the patterns give by themselves.
pub open spec fn pattern_timeline(shimcache: ShimcacheArtifact, regexes: Seq<Regex>) -> Seq<TimelineEntity> {
    filled(with_pattern_anchors(initial_timeline(shimcache.last_update_ts, shimcache.entries@), regexes))
}

/// The timeline after the Amcache's records were joined to `s` and near
/// timestamps were promoted, with its ranges filled in.
pub open spec fn near_timeline(s: Seq<TimelineEntity>, amcache: AmcacheArtifact) -> Seq<TimelineEntity> {
    filled(with_near_anchors(joined(s, amcache)))
}

/// The timeline that an analysis ends with.
pub open spec fn final_timeline(
    shimcache: ShimcacheArtifact,
    amcache: Option<AmcacheArtifact>,
    regexes: Seq<Regex>,
) -> Seq<TimelineEntity> {
    match amcache {
        Some(amcache) => filled(with_range_anchors(near_timeline(pattern_timeline(shimcache, regexes), amcache))),
        None => pattern_timeline(shimcache, regexes),
    }
}

/// The head stays. A timeline that begins with the entity for the cache's
/// last update still begins with it, and has kept its length, after the
/// pattern pass and the range filler, and after the Amcache is worked in.
pub proof fn lemma_head_stays(shimcache: ShimcacheArtifact, amcache: Option<AmcacheArtifact>, regexes: Seq<Regex>)
    ensures
        final_timeline(shimcache, amcache, regexes).len() == shimcache.entries@.len() + 1,
        final_timeline(shimcache, amcache, regexes)[0] == head_entity(shimcache.last_update_ts),
{
    let head = head_entity(shimcache.last_update_ts);
    let initial = initial_timeline(shimcache.last_update_ts, shimcache.entries@);
    let anchored = with_pattern_anchors(initial, regexes);
    assert(anchored[0] == head);
    lemma_filled_keeps_anchors(anchored);
    if let Some(amcache) = amcache {
        let base = filled(anchored);
        let with_files = with_files_attached(base, amcache.file_entries@);
        lemma_files_attached_keep_rest(base, amcache.file_entries@);
        let with_both = with_programs_attached(with_files, amcache.program_entries@);
        lemma_programs_attached_keep_rest(with_files, amcache.program_entries@);
        assert(with_both[0] == head);
        let near = with_near_anchors(with_both);
        assert(near[0] == head);
        lemma_filled_keeps_anchors(near);
        let near_filled = filled(near);
        let ranged = with_range_anchors(near_filled);
        assert(ranged[0] == head);
        lemma_filled_keeps_anchors(ranged);
    }
}

/// In the timeline that an analysis ends with, every entity carries what
/// its nearest anchors say.
pub proof fn lemma_final_ranges_are_enclosed(
    shimcache: ShimcacheArtifact,
    amcache: Option<AmcacheArtifact>,
    regexes: Seq<Regex>,
    i: int,
)
    requires
        0 <= i <= shimcache.entries@.len(),
    ensures
        enclosed_at(final_timeline(shimcache, amcache, regexes), i),
{
    let anchored = with_pattern_anchors(initial_timeline(shimcache.last_update_ts, shimcache.entries@), regexes);
    assert(anchored[0].is_anchor());
    match amcache {
        Some(amcache) => {
            let s = pattern_timeline(shimcache, regexes);
            lemma_files_attached_keep_rest(s, amcache.file_entries@);
            lemma_programs_attached_keep_rest(
                with_files_attached(s, amcache.file_entries@),
                amcache.program_entries@,
            );
            let near = with_near_anchors(joined(s, amcache));
            assert(near[0].is_anchor());
            lemma_filled_keeps_anchors(near);
            let ranged = with_range_anchors(filled(near));
            assert(ranged[0].is_anchor());
            lemma_filled_keeps_anchors(ranged);
            lemma_ranges_are_enclosed(ranged, i);
        },
        None => {
            lemma_filled_keeps_anchors(anchored);
            lemma_ranges_are_enclosed(anchored, i);
        },
    }
}

/// The timeline as the last pass leaves it, before the ranges are filled
/// in for the last time.
pub open spec fn promoted_timeline(
    shimcache: ShimcacheArtifact,
    amcache: Option<AmcacheArtifact>,
    regexes: Seq<Regex>,
) -> Seq<TimelineEntity> {
    match amcache {
        Some(amcache) => with_range_anchors(near_timeline(pattern_timeline(shimcache, regexes), amcache)),
        None => with_pattern_anchors(initial_timeline(shimcache.last_update_ts, shimcache.entries@), regexes),
    }
}

/// The exact timestamps of the timeline that an analysis ends with are
/// those that the passes chose, in their order: they descend exactly when
/// the timestamps that were chosen do. The range filler neither mends nor
/// breaks that order.
pub proof fn lemma_final_anchor_order(
    shimcache: ShimcacheArtifact,
    amcache: Option<AmcacheArtifact>,
    regexes: Seq<Regex>,
)
    ensures
        final_timeline(shimcache, amcache, regexes) == filled(promoted_timeline(shimcache, amcache, regexes)),
        anchors_descend(final_timeline(shimcache, amcache, regexes)) == anchors_descend(
            promoted_timeline(shimcache, amcache, regexes),
        ),
{
    lemma_fill_keeps_anchor_order(promoted_timeline(shimcache, amcache, regexes));
}

/// A near match prevails. An entity that the near-timestamp pass promotes
/// carries that timestamp, with that provenance, when the in-range pass
/// and the range filler have run: it is not promoted a second time.
pub proof fn lemma_near_match_prevails(s: Seq<TimelineEntity>, i: int)
    requires
        0 <= i < s.len(),
        near_anchor(s[i]) is Some,
    ensures
        filled(with_range_anchors(filled(with_near_anchors(s))))[i].timestamp == Some(
            TimelineTimestamp::Exact(near_anchor(s[i])->Some_0, TimestampType::NearTSMatch),
        ),
{
    let anchored = with_near_anchors(s);
    lemma_filled_keeps_anchors(anchored);
    let base = filled(anchored);
    let with_files = with_range_anchors(base);
    assert(with_files[i] == base[i]);
    lemma_filled_keeps_anchors(with_files);
}

/// In the timeline that an analysis with an Amcache ends with, every
/// entity whose shimcache and Amcache timestamps lay near to each other
/// carries the Amcache timestamp as a near match, whether or not a
/// pattern had matched it before.
pub proof fn lemma_near_match_in_final_timeline(
    shimcache: ShimcacheArtifact,
    amcache: AmcacheArtifact,
    regexes: Seq<Regex>,
    i: int,
)
    requires
        0 <= i <= shimcache.entries@.len(),
        near_anchor(joined(pattern_timeline(shimcache, regexes), amcache)[i]) is Some,
    ensures
        final_timeline(shimcache, Some(amcache), regexes)[i].timestamp == Some(
            TimelineTimestamp::Exact(
                near_anchor(joined(pattern_timeline(shimcache, regexes), amcache)[i])->Some_0,
                TimestampType::NearTSMatch,
            ),
        ),
{
    let s = pattern_timeline(shimcache, regexes);
    lemma_files_attached_keep_rest(s, amcache.file_entries@);
    lemma_programs_attached_keep_rest(with_files_attached(s, amcache.file_entries@), amcache.program_entries@);
    lemma_near_match_prevails(joined(s, amcache), i);
}

/// What an analysis found.
#[derive(Debug)]
pub struct Analysis {
    /// The timeline, the entity for the cache's last update first.
    pub timeline_entities: Vec<TimelineEntity>,
    /// How many entities the pattern pass promoted.
    pub pattern_match_count: usize,
    /// How many entities the near-timestamp pass promoted.
    pub near_timestamps_count: usize,
    /// How many of them a pattern match had anchored before.
    pub overlapping_count: usize,
    /// How many entities the in-range pass promoted.
    pub ts_match_count: usize,
}

impl Analysis {
    /// Whether no pass promoted any entity. This calls for a warning; the
    /// timeline is handed on all the same.
    pub open spec fn empty_result(&self) -> bool {
        self.pattern_match_count == 0 && self.near_timestamps_count == 0 && self.ts_match_count == 0
    }

    /// Whether no pass promoted any entity.
    pub fn is_empty_result(&self) -> (b: bool)
        ensures
            b == self.empty_result(),
    {
        self.pattern_match_count == 0 && self.near_timestamps_count == 0 && self.ts_match_count == 0
    }
}

/// Makes the timeline of a shimcache: pattern pass and range filler, and
/// with an Amcache the join, the near-timestamp pass, the range filler,
/// the in-range pass and the range filler once more.
pub fn analyse(shimcache: ShimcacheArtifact, amcache: Option<AmcacheArtifact>, regexes: &Vec<Regex>) -> (analysis:
    Analysis)
    ensures
        analysis.timeline_entities@ == final_timeline(shimcache, amcache, regexes@),
        analysis.timeline_entities@.len() == shimcache.entries@.len() + 1,
        analysis.timeline_entities@[0] == head_entity(shimcache.last_update_ts),
        analysis.pattern_match_count == count_set(
            pattern_promotions(initial_timeline(shimcache.last_update_ts, shimcache.entries@), regexes@),
        ),
        analysis.near_timestamps_count == (match amcache {
            Some(amcache) => count_set(near_promotions(joined(pattern_timeline(shimcache, regexes@), amcache))),
            None => 0,
        }),
        analysis.overlapping_count == (match amcache {
            Some(amcache) => count_set(near_replacements(joined(pattern_timeline(shimcache, regexes@), amcache))),
            None => 0,
        }),
        analysis.ts_match_count == (match amcache {
            Some(amcache) => count_set(
                range_promotions(near_timeline(pattern_timeline(shimcache, regexes@), amcache)),
            ),
            None => 0,
        }),
{
    proof {
        lemma_head_stays(shimcache, amcache, regexes@);
    }
    let mut timeline_entities = build_timeline(shimcache);
    let pattern_match_count = anchor_pattern_matches(&mut timeline_entities, regexes);
    fill_ranges(&mut timeline_entities);
    let mut near_timestamps_count: usize = 0;
    let mut overlapping_count: usize = 0;
    let mut ts_match_count: usize = 0;
    if let Some(amcache) = amcache {
        attach_file_entries(&mut timeline_entities, amcache.file_entries);
        attach_program_entries(&mut timeline_entities, amcache.program_entries);
        overlapping_count = count_near_replacements(&timeline_entities);
        near_timestamps_count = anchor_near_timestamps(&mut timeline_entities);
        fill_ranges(&mut timeline_entities);
        ts_match_count = anchor_range_matches(&mut timeline_entities);
        fill_ranges(&mut timeline_entities);
    }
    Analysis { timeline_entities, pattern_match_count, near_timestamps_count, overlapping_count, ts_match_count }
}

/// Where the two registry hives of an analysis are found.
#[derive(Debug)]
pub struct ShimcacheAnalyzer {
    amcache_path: Option<PathBuf>,
    shimcache_path: PathBuf,
}

impl ShimcacheAnalyzer {
    /// An analyzer for the shimcache at `shimcache_path`, and for the
    /// Amcache at `amcache_path` where there is one.
    pub fn new(shimcache_path: PathBuf, amcache_path: Option<PathBuf>) -> (analyzer: Self)
        ensures
            analyzer.shimcache_path_spec() == shimcache_path,
            analyzer.amcache_path_spec() == amcache_path,
    {
        Self { amcache_path, shimcache_path }
    }

    /// Where the shimcache is found.
    pub closed spec fn shimcache_path_spec(&self) -> PathBuf {
        self.shimcache_path
    }

    /// Where the Amcache is found.
    pub closed spec fn amcache_path_spec(&self) -> Option<PathBuf> {
        self.amcache_path
    }

    /// Where the shimcache is found.
    pub fn shimcache_path(&self) -> (path: &PathBuf)
        ensures
            *path == self.shimcache_path_spec(),
    {
        &self.shimcache_path
    }

    /// Where the Amcache is found.
    pub fn amcache_path(&self) -> (path: &Option<PathBuf>)
        ensures
            *path == self.amcache_path_spec(),
    {
        &self.amcache_path
    }

    /// The timeline of the shimcache that was read from the analyzer's
    /// hive, worked over with the patterns and, where an Amcache was read,
    /// with its records. A pattern that does not compile ends the analysis
    /// before anything else is done.
    pub fn amcache_shimcache_timeline(
        &self,
        shimcache: ShimcacheArtifact,
        amcache: Option<AmcacheArtifact>,
        regex_patterns: &Vec<String>,
    ) -> (r: Result<Vec<TimelineEntity>, AnalysisError>)
        ensures
            match r {
                Ok(timeline_entities) => all_compile(regex_patterns@) && timeline_entities@ == final_timeline(
                    shimcache,
                    amcache,
                    compiled(regex_patterns@),
                ) && timeline_entities@.len() == shimcache.entries@.len() + 1 && timeline_entities@[0]
                    == head_entity(shimcache.last_update_ts),
                Err(AnalysisError::BadPattern { index, source }) => is_first_bad_pattern(
                    regex_patterns@,
                    index as int,
                ) && regex_new(regex_patterns@[index as int]@) == Err::<Regex, regex::Error>(source),
                Err(AnalysisError::NoPatterns) => false,
            },
    {
        match compile_patterns(regex_patterns) {
            Ok(regexes) => Ok(analyse(shimcache, amcache, &regexes).timeline_entities),
            Err(e) => Err(e),
        }
    }
}

} // verus!
