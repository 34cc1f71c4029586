use vstd::prelude::*;
use crate::error::TmsError;
use crate::text::{contains_any, texts};

verus! {

/// `aho_corasick::AhoCorasick`, a searcher for many patterns at once.
#[verifier::external_type_specification]
#[verifier::external_body]
pub struct ExAhoCorasick(aho_corasick::AhoCorasick);

/// `aho_corasick::BuildError`, the reason why a searcher could not be built.
#[verifier::external_type_specification]
#[verifier::external_body]
pub struct ExBuildError(aho_corasick::BuildError);

/// The patterns that a searcher was built from, in the order in which they were given.
pub uninterp spec fn automaton_patterns(automaton: aho_corasick::AhoCorasick) -> Seq<Seq<char>>;

/// Whether `AhoCorasickBuilder::build`, on a builder set to leftmost-first matching, can
/// build a searcher for the patterns. The crate refuses pattern sets that are too large for
/// its automaton; whether a set is depends on the patterns alone.
pub uninterp spec fn automaton_builds(patterns: Seq<Seq<char>>) -> bool;

/// `AhoCorasickBuilder::build`, on a builder set to leftmost-first matching: a searcher for
/// exactly the given patterns, where one can be built for them.
#[verifier::external_body]
fn build_automaton(patterns: &Vec<String>) -> (built: Result<
    aho_corasick::AhoCorasick,
    aho_corasick::BuildError,
>)
    ensures
        built is Ok <==> automaton_builds(texts(patterns@)),
        built matches Ok(automaton) ==> automaton_patterns(automaton) == texts(patterns@),
{
    aho_corasick::AhoCorasickBuilder::new().match_kind(
        aho_corasick::MatchKind::LeftmostFirst,
    ).build(patterns)
}

/// `AhoCorasick::is_match`: whether the searcher matches anywhere in the haystack, which is
/// to say whether one of its patterns occurs in it. The crate compares bytes; between two
/// UTF-8 texts the bytes of one occur in the other exactly where its characters do.
#[verifier::external_body]
fn automaton_is_match(automaton: &aho_corasick::AhoCorasick, haystack: &str) -> (found: bool)
    ensures
        found == contains_any(haystack@, automaton_patterns(*automaton)),
{
    automaton.is_match(haystack)
}

/// The user's exclusion patterns, ready for matching against paths.
pub struct Excluder {
    automaton: Option<aho_corasick::AhoCorasick>,
}

impl Excluder {
    /// The patterns; a path that holds one of them as a substring is excluded.
    pub closed spec fn patterns(&self) -> Seq<Seq<char>> {
        match self.automaton {
            Some(automaton) => automaton_patterns(automaton),
            None => seq![],
        }
    }

    /// The path holds one of the patterns as a substring.
    pub open spec fn excludes(&self, path: Seq<char>) -> bool {
        contains_any(path, self.patterns())
    }

    /// The excluder that excludes nothing.
    pub fn none() -> (excluder: Excluder)
        ensures
            excluder.patterns() == Seq::<Seq<char>>::empty(),
    {
        Excluder { automaton: None }
    }

    /// The patterns can be made into an excluder: there are none, or a searcher can be
    /// built for them.
    pub open spec fn can_be_made(excluded_dirs: Option<Vec<String>>) -> bool {
        excluded_dirs matches Some(patterns) ==> automaton_builds(texts(patterns@))
    }

    /// The excluder for the configured patterns. With no patterns configured nothing is
    /// excluded. Where the matcher cannot be built for the patterns, the error is `IoError`.
    pub fn new(excluded_dirs: &Option<Vec<String>>) -> (made: Result<Excluder, TmsError>)
        ensures
            made is Ok <==> Self::can_be_made(*excluded_dirs),
            match made {
                Ok(excluder) => excluder.patterns() == match excluded_dirs {
                    Some(patterns) => texts(patterns@),
                    None => seq![],
                },
                Err(error) => error == TmsError::IoError && excluded_dirs is Some,
            },
    {
        match excluded_dirs {
            Some(patterns) => match build_automaton(patterns) {
                Ok(automaton) => Ok(Excluder { automaton: Some(automaton) }),
                Err(_) => Err(TmsError::IoError),
            },
            None => Ok(Excluder { automaton: None }),
        }
    }

    /// Whether `path` is excluded: whether it holds one of the patterns as a substring.
    pub fn is_excluded(&self, path: &str) -> (excluded: bool)
        ensures
            excluded == self.excludes(path@),
    {
        match &self.automaton {
            Some(automaton) => automaton_is_match(automaton, path),
            None => {
                assert(!contains_any(path@, Seq::<Seq<char>>::empty()));
                false
            },
        }
    }
}

} // verus!
