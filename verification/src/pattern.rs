//! Case-insensitive patterns, compiled and searched by the `regex` crate.

use vstd::prelude::*;

verus! {

/// Declares `regex::bytes::Regex` to Verus, as an opaque type.
#[verifier::external_type_specification]
#[verifier::external_body]
pub struct ExRegex(regex::bytes::Regex);

/// Whether `regex::bytes::Regex::new` accepts `pattern`.
pub uninterp spec fn regex_compiles(pattern: Seq<char>) -> bool;

/// The byte range of the leftmost-first match that
/// `regex::bytes::Regex::find_at` reports for the regex compiled from
/// `pattern`, searching `haystack` from `start`.
pub uninterp spec fn regex_find_at(pattern: Seq<char>, haystack: Seq<u8>, start: int) -> Option<(int, int)>;

/// The match of `pattern` in `haystack` from `start`, as a byte range that
/// lies in `start..haystack.len()`.
pub open spec fn found_at(pattern: Seq<char>, haystack: Seq<u8>, start: int) -> Option<(int, int)> {
    match regex_find_at(pattern, haystack, start) {
        Some((s, e)) => if start <= s <= e <= haystack.len() {
            Some((s, e))
        } else {
            None
        },
        None => None,
    }
}

/// A compiled pattern together with the text it was compiled from.
pub struct Matcher {
    source: String,
    compiled: regex::bytes::Regex,
}

impl View for Matcher {
    type V = Seq<char>;

    closed spec fn view(&self) -> Seq<char> {
        self.source@
    }
}

/// Calls `regex::bytes::Regex::new`. Claims only that it succeeds exactly
/// when the named predicate holds of the pattern text.
#[verifier::external_body]
fn compile_regex(pattern: &str) -> (r: Option<regex::bytes::Regex>)
    ensures
        r is Some <==> regex_compiles(pattern@),
{
    regex::bytes::Regex::new(pattern).ok()
}

/// Calls `regex::bytes::Regex::find_at` on the regex that `m` holds, which
/// `Matcher::new` compiled from `m@` (the fields are private and set there
/// only). Claims that the result is the named
/// search result, and, as the crate searches the span `start..haystack.len()`,
/// that a reported match lies in that span.
#[verifier::external_body]
fn regex_find(m: &Matcher, haystack: &[u8], start: usize) -> (r: Option<(usize, usize)>)
    requires
        start <= haystack@.len(),
    ensures
        match r {
            Some((s, e)) => regex_find_at(m@, haystack@, start as int) == Some((s as int, e as int))
                && start <= s <= e <= haystack@.len(),
            None => regex_find_at(m@, haystack@, start as int) is None,
        },
{
    m.compiled.find_at(haystack, start).map(|found| (found.start(), found.end()))
}

impl Matcher {
    /// Compiles `source`; `None` when the regex crate rejects it.
    pub fn new(source: String) -> (r: Option<Matcher>)
        ensures
            r is Some <==> regex_compiles(source@),
            r matches Some(m) ==> m@ == source@,
    {
        match compile_regex(source.as_str()) {
            Some(compiled) => Some(Matcher { source, compiled }),
            None => None,
        }
    }

    /// The match that a search of `haystack` from `start` reports.
    pub fn find_at(&self, haystack: &[u8], start: usize) -> (r: Option<(usize, usize)>)
        requires
            start <= haystack@.len(),
        ensures
            match r {
                Some((s, e)) => found_at(self@, haystack@, start as int) == Some((s as int, e as int)),
                None => found_at(self@, haystack@, start as int) is None,
            },
    {
        regex_find(self, haystack, start)
    }

    /// Whether the pattern matches anywhere in `haystack`.
    pub fn is_match(&self, haystack: &[u8]) -> (b: bool)
        ensures
            b == (found_at(self@, haystack@, 0) is Some),
    {
        self.find_at(haystack, 0).is_some()
    }
}

} // verus!
