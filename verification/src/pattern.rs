//! The pattern matcher: the `regex` crate, behind one trusted search.
//!
//! What a regular expression matches is not written out here. It is named,
//! [`first_match`], and the stream's contracts speak of that name; the one
//! function that calls the outside crate, `find_first`, is believed to
//! return what the name stands for.

use regex::Regex;
use vstd::prelude::*;
use vstd::string::StringSliceAdditionalSpecFns;
use vstd::utf8::is_char_boundary;

verus! {

/// The compiled regular expression of the `regex` crate. Nothing of its
/// inside is known here; it is only handed to the search.
#[verifier::external_type_specification]
#[verifier::external_body]
pub struct ExRegex(Regex);

/// The byte range of a match within the text that was searched: `start` is
/// the offset of its first byte, `end` the offset just past its last.
#[derive(Debug, Clone, Copy, PartialEq, Eq, Structural)]
pub struct Span {
    pub start: usize,
    pub end: usize,
}

impl Span {
    /// The span can be cut out of `text`: its ends are in order and each
    /// falls on a character boundary of `text`.
    pub open spec fn cuts(self, text: Seq<u8>) -> bool {
        &&& self.start <= self.end
        &&& is_char_boundary(text, self.start as int)
        &&& is_char_boundary(text, self.end as int)
    }
}

/// The leftmost match of `regexp` in the text whose UTF-8 encoding is
/// `haystack`, as the `regex` crate finds it, or `None` where `regexp`
/// matches nowhere in it.
pub uninterp spec fn first_match(regexp: Regex, haystack: Seq<u8>) -> Option<Span>;

/// Searches `haystack` with `Regex::captures` and reads the offsets of the
/// whole match, capture group 0, with `Match::start` and `Match::end`.
///
/// Trusted, not proved: the result is `first_match` of the two arguments,
/// and, as the crate documents of every match of a `Regex`, the start does
/// not lie after the end and both fall on character boundaries of
/// `haystack`.
#[verifier::external_body]
pub(crate) fn find_first(regexp: &Regex, haystack: &str) -> (found: Option<Span>)
    ensures
        found == first_match(*regexp, haystack.spec_bytes()),
        found matches Some(span) ==> span.cuts(haystack.spec_bytes()),
{
    let groups = regexp.captures(haystack)?;
    let whole = groups.get(0)?;
    Some(Span { start: whole.start(), end: whole.end() })
}

} // verus!
