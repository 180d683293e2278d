//! Name patterns: a literal that must occur in the name, or a regular
//! expression that must match somewhere in it.

use regex::Regex;
use vstd::prelude::*;

verus! {

/// `regex::Regex`, a compiled regular expression. Nothing inside it is
/// visible here.
#[verifier::external_type_specification]
#[verifier::external_body]
pub struct ExRegex(Regex);

/// `regex::Error`, the reason a pattern was refused. It is carried, never
/// looked into.
#[verifier::external_type_specification]
#[verifier::external_body]
pub struct ExRegexError(regex::Error);

/// What `regex::Regex::new` makes of `pattern`: the compiled regex, or
/// nothing where the pattern is refused, be it for its syntax or for
/// exceeding the size limit that the crate sets by default.
pub uninterp spec fn regex_new(pattern: Seq<char>) -> Option<Regex>;

/// What `regex::Regex::is_match` answers: whether `regex` has a match
/// anywhere in `haystack`.
pub uninterp spec fn regex_matches(regex: Regex, haystack: Seq<char>) -> bool;

/// `needle` occurs in `haystack` starting at position `at`.
pub open spec fn occurs_at(haystack: Seq<char>, needle: Seq<char>, at: int) -> bool {
    &&& 0 <= at
    &&& at + needle.len() <= haystack.len()
    &&& haystack.subrange(at, at + needle.len()) == needle
}

/// `needle` occurs in `haystack` as a contiguous run of characters.
pub open spec fn contains_text(haystack: Seq<char>, needle: Seq<char>) -> bool {
    exists|at: int| occurs_at(haystack, needle, at)
}

/// Whether `text` is made of ASCII letters, digits and underscores alone.
/// None of these has a meaning of its own in a regular expression.
pub open spec fn is_plain_text(text: Seq<char>) -> bool {
    forall|i: int|
        0 <= i < text.len() ==> {
            let c = #[trigger] text[i];
            ('a' <= c && c <= 'z') || ('A' <= c && c <= 'Z') || ('0' <= c && c <= '9') || c == '_'
        }
}

/// Calls `regex::Regex::new`. Trusted: what comes back depends on the
/// pattern text alone, and is what `regex_new` names. Trusted as well, from
/// the syntax that the crate documents: a character that is no meta
/// character matches itself, case counts, and a match may begin anywhere;
/// so the regex of a plain text matches exactly where the text occurs.
#[verifier::external_body]
fn compile_regex(pattern: &str) -> (compiled: Result<Regex, regex::Error>)
    ensures
        match compiled {
            Ok(regex) => regex_new(pattern@) == Some(regex),
            Err(_) => regex_new(pattern@) is None,
        },
        compiled matches Ok(regex) ==> (is_plain_text(pattern@) ==> forall|haystack: Seq<char>|
            #[trigger] regex_matches(regex, haystack) == contains_text(haystack, pattern@)),
{
    Regex::new(pattern)
}

/// Calls `regex::Regex::is_match`. Trusted: the answer depends on the regex
/// and the haystack alone, and is what `regex_matches` names.
#[verifier::external_body]
fn regex_is_match(regex: &Regex, haystack: &str) -> (found: bool)
    ensures
        found == regex_matches(*regex, haystack@),
{
    regex.is_match(haystack)
}

/// Calls `Clone::clone` of `regex::Regex`. Trusted: the copy is the same
/// regex.
#[verifier::external_body]
fn clone_regex(regex: &Regex) -> (copy: Regex)
    ensures
        copy == *regex,
{
    regex.clone()
}

/// Calls `str::contains` with a string as the pattern. Trusted: it reports
/// whether the needle occurs in the haystack as a contiguous substring.
#[verifier::external_body]
fn str_contains(haystack: &str, needle: &str) -> (found: bool)
    ensures
        found == contains_text(haystack@, needle@),
{
    haystack.contains(needle)
}

/// What a pattern is, as far as matching is concerned.
pub enum PatternView {
    /// Matches the names that contain this text.
    Literal(Seq<char>),
    /// Matches the names in which this regex has a match.
    Compiled(Regex),
}

impl PatternView {
    /// Whether the pattern matches `name`.
    pub open spec fn matches(self, name: Seq<char>) -> bool {
        match self {
            PatternView::Literal(text) => contains_text(name, text),
            PatternView::Compiled(regex) => regex_matches(regex, name),
        }
    }
}

/// The pattern that `text` stands for: the regular expression it compiles
/// to when `use_regex` is set, the literal text otherwise.
pub open spec fn pattern_of(use_regex: bool, text: Seq<char>) -> PatternView {
    if use_regex {
        PatternView::Compiled(regex_new(text)->Some_0)
    } else {
        PatternView::Literal(text)
    }
}

/// A pattern that file names are tested against. It does not change once
/// it has been built.
#[derive(Debug)]
pub enum SearchPattern {
    /// A literal text that must occur in the name.
    Plain(String),
    /// A compiled regular expression that must match somewhere in the name.
    Regex(Regex),
}

impl View for SearchPattern {
    type V = PatternView;

    open spec fn view(&self) -> PatternView {
        match self {
            SearchPattern::Plain(text) => PatternView::Literal(text@),
            SearchPattern::Regex(regex) => PatternView::Compiled(*regex),
        }
    }
}

impl SearchPattern {
    /// Builds a pattern from its text: a regular expression when `use_regex`
    /// is set, a literal otherwise. Fails exactly when a regular expression
    /// is asked for and the text does not compile. A plain text matches the
    /// same names whichever way it is read.
    pub fn new(use_regex: bool, search_pattern: String) -> (made: Result<SearchPattern, regex::Error>)
        ensures
            made is Ok <==> (use_regex ==> regex_new(search_pattern@) is Some),
            made matches Ok(pattern) ==> pattern@ == pattern_of(use_regex, search_pattern@),
            made matches Ok(pattern) ==> (is_plain_text(search_pattern@) ==> forall|name: Seq<char>|
                #[trigger] pattern@.matches(name) == contains_text(name, search_pattern@)),
    {
        if use_regex {
            match compile_regex(search_pattern.as_str()) {
                Ok(regex) => Ok(SearchPattern::from(regex)),
                Err(error) => Err(error),
            }
        } else {
            Ok(SearchPattern::from(search_pattern))
        }
    }

    /// Whether the pattern matches `file_name`: the literal occurs in it, or
    /// the regular expression has a match anywhere in it.
    pub fn is_match(&self, file_name: &str) -> (found: bool)
        ensures
            found == self@.matches(file_name@),
    {
        match self {
            SearchPattern::Plain(pattern) => str_contains(file_name, pattern.as_str()),
            SearchPattern::Regex(regex) => regex_is_match(regex, file_name),
        }
    }
}

impl Clone for SearchPattern {
    fn clone(&self) -> (copy: Self)
        ensures
            copy@ == self@,
    {
        match self {
            SearchPattern::Plain(pattern) => SearchPattern::Plain(pattern.clone()),
            SearchPattern::Regex(regex) => SearchPattern::Regex(clone_regex(regex)),
        }
    }
}

impl From<String> for SearchPattern {
    fn from(s: String) -> (pattern: Self) {
        SearchPattern::Plain(s)
    }
}

impl vstd::std_specs::convert::FromSpecImpl<String> for SearchPattern {
    open spec fn obeys_from_spec() -> bool {
        true
    }

    open spec fn from_spec(s: String) -> Self {
        SearchPattern::Plain(s)
    }
}

impl From<Regex> for SearchPattern {
    fn from(r: Regex) -> (pattern: Self) {
        SearchPattern::Regex(r)
    }
}

impl vstd::std_specs::convert::FromSpecImpl<Regex> for SearchPattern {
    open spec fn obeys_from_spec() -> bool {
        true
    }

    open spec fn from_spec(r: Regex) -> Self {
        SearchPattern::Regex(r)
    }
}

} // verus!
