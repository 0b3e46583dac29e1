//! The analyst's patterns: regular expressions that point at shimcache
//! records of interest.

use vstd::prelude::*;
use regex::Regex;
use crate::artifact::{EntryType, ShimcacheEntry};

verus! {

/// A compiled regular expression of the `regex` crate. Nothing of its
/// inside is known here.
#[verifier::external_type_specification]
#[verifier::external_body]
pub struct ExRegex(regex::Regex);

/// The `regex` crate's reason for refusing a pattern. Nothing of its
/// inside is known here.
#[verifier::external_type_specification]
#[verifier::external_body]
pub struct ExRegexError(regex::Error);

/// What `Regex::new` makes of a pattern: the compiled expression, or the
/// reason why the pattern is refused.
pub uninterp spec fn regex_new(pattern: Seq<char>) -> Result<Regex, regex::Error>;

/// Whether `Regex::is_match` finds `re` anywhere in `haystack`.
pub uninterp spec fn regex_is_match(re: Regex, haystack: Seq<char>) -> bool;

/// What `str::to_lowercase` makes of a string.
pub uninterp spec fn str_to_lowercase(s: Seq<char>) -> Seq<char>;

/// `Regex::new` compiles a pattern with the crate's default settings. Its
/// result depends on the pattern alone and is known here only by name.
pub assume_specification[ Regex::new ](re: &str) -> (r: Result<Regex, regex::Error>)
    ensures
        r == regex_new(re@),
;

/// `Regex::is_match` searches the whole haystack for a match. Its result
/// depends on the expression and the haystack alone and is known here only
/// by name.
pub assume_specification[ Regex::is_match ](re: &Regex, haystack: &str) -> (b: bool)
    ensures
        b == regex_is_match(*re, haystack@),
;

/// `str::to_lowercase` maps every character to its Unicode lowercase
/// form. The result is known here only by name.
pub assume_specification[ str::to_lowercase ](s: &str) -> (r: String)
    ensures
        r@ == str_to_lowercase(s@),
;

/// The text of a shimcache record that patterns are tested against: the
/// lowercased path of a file, the name of a program as it stands.
pub open spec fn match_text(entry: ShimcacheEntry) -> Seq<char> {
    match entry.entry_type {
        EntryType::File { path } => str_to_lowercase(path@),
        EntryType::Program { program_name, .. } => program_name@,
    }
}

/// Whether one of `regexes` matches `text`.
pub open spec fn any_match(regexes: Seq<Regex>, text: Seq<char>) -> bool {
    exists|j: int| 0 <= j < regexes.len() && regex_is_match(#[trigger] regexes[j], text)
}

/// Tests the patterns in order and stops at the first that matches.
pub fn matches_any(regexes: &Vec<Regex>, text: &str) -> (matched: bool)
    ensures
        matched == any_match(regexes@, text@),
{
    let mut j: usize = 0;
    while j < regexes.len()
        invariant
            0 <= j <= regexes@.len(),
            forall|k: int| 0 <= k < j ==> !regex_is_match(#[trigger] regexes@[k], text@),
        decreases regexes@.len() - j,
    {
        if regexes[j].is_match(text) {
            return true;
        }
        j += 1;
    }
    false
}

/// Whether one of `regexes` matches the record.
pub fn entry_matches(regexes: &Vec<Regex>, entry: &ShimcacheEntry) -> (matched: bool)
    ensures
        matched == any_match(regexes@, match_text(*entry)),
{
    match &entry.entry_type {
        EntryType::File { path } => {
            let lowered = path.as_str().to_lowercase();
            matches_any(regexes, lowered.as_str())
        },
        EntryType::Program { program_name, .. } => matches_any(regexes, program_name.as_str()),
    }
}

} // verus!
