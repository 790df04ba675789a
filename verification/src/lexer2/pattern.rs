use regex::Error as RegexError;
use regex::Regex;
use vstd::prelude::*;

verus! {

#[verifier::external_type_specification]
#[verifier::external_body]
pub struct ExRegex(Regex);

#[verifier::external_type_specification]
#[verifier::external_body]
pub struct ExRegexError(RegexError);

/// A regular expression together with the pattern it was compiled from.
pub struct Pattern {
    text: String,
    re: Regex,
}

impl View for Pattern {
    type V = Seq<char>;

    /// The pattern the expression was compiled from.
    closed spec fn view(&self) -> Seq<char> {
        self.text@
    }
}

/// Whether `regex::Regex::new` accepts `pattern`: it is a valid pattern whose compiled form
/// stays within the default size limit.
pub uninterp spec fn compiles(pattern: Seq<char>) -> bool;

/// The byte offsets of the start and the end of the first match of the expression compiled from
/// `pattern` in `haystack`, as `regex::Regex::find` reports them, if there is one.
pub uninterp spec fn first_match(pattern: Seq<char>, haystack: Seq<char>) -> Option<(int, int)>;

/// Calls `regex::Regex::new`: it succeeds exactly on the patterns that compile, and what it
/// compiles is kept with its pattern. Which patterns compile is not said here.
#[verifier::external_body]
pub(crate) fn compile(pattern: &str) -> (r: Result<Pattern, RegexError>)
    ensures
        r is Ok == compiles(pattern@),
        r matches Ok(p) ==> p@ == pattern@,
{
    match Regex::new(pattern) {
        Ok(re) => Ok(Pattern { text: pattern.to_string(), re }),
        Err(e) => Err(e),
    }
}

/// Calls `regex::Regex::find` and hands back the byte offsets of the match it finds: the first
/// match of the pattern in `haystack`, whose start is never after its end. Where the first match
/// is is not said here.
#[verifier::external_body]
pub(crate) fn find(p: &Pattern, haystack: &str) -> (r: Option<(usize, usize)>)
    ensures
        match r {
            Some(m) => first_match(p@, haystack@) == Some((m.0 as int, m.1 as int)) && m.0 <= m.1,
            None => first_match(p@, haystack@) is None,
        },
{
    match p.re.find(haystack) {
        Some(m) => Some((m.start(), m.end())),
        None => None,
    }
}

} // verus!
