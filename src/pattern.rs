//! Regular expressions, compiled by the `regex` crate.
//!
//! A [`Pattern`] keeps the source text it was compiled from, and every
//! statement about matching speaks of that source text.
use vstd::prelude::*;

verus! {

#[verifier::external_type_specification]
#[verifier::external_body]
pub struct ExRegex(regex::Regex);

#[verifier::external_type_specification]
#[verifier::external_body]
pub struct ExRegexError(regex::Error);

/// Whether `regex::Regex::new` accepts the source text.
pub uninterp spec fn regex_valid(src: Seq<char>) -> bool;

/// What `regex::Regex::is_match` answers for the regex compiled from `src`.
pub uninterp spec fn regex_is_match(src: Seq<char>, text: Seq<char>) -> bool;

/// What `regex::Regex::replace_all` returns for the regex compiled from `src`,
/// with the replacement string `rep`.
pub uninterp spec fn regex_replace_all(src: Seq<char>, text: Seq<char>, rep: Seq<char>) -> Seq<
    char,
>;

/// Relies on `regex::Regex::new`: it succeeds exactly on the sources it accepts.
#[verifier::external_body]
fn compile(src: &str) -> (r: Result<regex::Regex, regex::Error>)
    ensures
        r.is_ok() == regex_valid(src@),
{
    regex::Regex::new(src)
}

/// A compiled regular expression together with its source text.
pub struct Pattern {
    source: String,
    regex: regex::Regex,
}

impl View for Pattern {
    type V = Seq<char>;

    closed spec fn view(&self) -> Seq<char> {
        self.source@
    }
}

/// Relies on `regex::Regex::is_match`. The regex of a `Pattern` is always the
/// one compiled from its source: `Pattern::new` is its only constructor.
#[verifier::external_body]
fn is_match_of(p: &Pattern, text: &str) -> (r: bool)
    ensures
        r == regex_is_match(p@, text@),
{
    p.regex.is_match(text)
}

/// Relies on `regex::Regex::replace_all`: every non-overlapping match is
/// replaced by `rep` (with `$name` expanded), and where nothing matches the
/// text comes back unchanged.
#[verifier::external_body]
fn replace_all_of(p: &Pattern, text: &str, rep: &str) -> (r: String)
    ensures
        r@ == regex_replace_all(p@, text@, rep@),
        !regex_is_match(p@, text@) ==> r@ == text@,
{
    p.regex.replace_all(text, rep).into_owned()
}

impl Pattern {
    /// Compiles `src`; `None` where the regex syntax rejects it.
    pub fn new(src: &str) -> (r: Option<Pattern>)
        ensures
            r.is_some() == regex_valid(src@),
            r matches Some(p) ==> p@ == src@,
    {
        match compile(src) {
            Ok(regex) => Some(Pattern { source: src.to_owned(), regex }),
            Err(_) => None,
        }
    }

    /// The source text the pattern was compiled from.
    pub fn as_str(&self) -> (r: &str)
        ensures
            r@ == self@,
    {
        self.source.as_str()
    }

    /// Whether the pattern matches anywhere in `text`.
    pub fn is_match(&self, text: &str) -> (r: bool)
        ensures
            r == regex_is_match(self@, text@),
    {
        is_match_of(self, text)
    }

    /// Replaces every non-overlapping match in `text` by `rep`.
    pub fn replace_all(&self, text: &str, rep: &str) -> (r: String)
        ensures
            r@ == regex_replace_all(self@, text@, rep@),
            !regex_is_match(self@, text@) ==> r@ == text@,
    {
        replace_all_of(self, text, rep)
    }
}

} // verus!
