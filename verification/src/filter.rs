//! The filter engine: a message is forwarded only when its sender and subject
//! headers pass the two configured patterns.
//!
//! An empty pattern matches everything. A pattern that is not a valid regular
//! expression matches nothing: filtering fails closed, so a mistyped pattern
//! never forwards mail it was meant to hold back.

use vstd::prelude::*;
use crate::headers::{pair_views, spec_lookup, header_value};

verus! {

/// Whether a pattern is a valid regular expression; decided by the pattern
/// alone.
pub uninterp spec fn regex_ok(pattern: Seq<char>) -> bool;

/// Whether a valid pattern is found anywhere within a text; decided by the
/// pattern and the text alone.
pub uninterp spec fn regex_found(pattern: Seq<char>, text: Seq<char>) -> bool;

/// Relies on `regex::Regex::new`: whether a pattern compiles depends on the
/// pattern string alone.
#[verifier::external_body]
fn regex_is_valid(pattern: &str) -> (r: bool)
    ensures
        r == regex_ok(pattern@),
{
    regex::Regex::new(pattern).is_ok()
}

/// Relies on `regex::Regex::new` and `regex::Regex::is_match`: whether a
/// pattern is found anywhere within a text is a function of the pattern and
/// the text alone, and an unanchored search over equal inputs always answers
/// the same way.
#[verifier::external_body]
fn regex_find(pattern: &str, text: &str) -> (r: bool)
    ensures
        regex_ok(pattern@) ==> r == regex_found(pattern@, text@),
        !regex_ok(pattern@) ==> r == false,
{
    match regex::Regex::new(pattern) {
        Ok(re) => re.is_match(text),
        Err(_) => false,
    }
}

/// One compiled filter of the configuration.
pub enum Filter {
    /// No pattern was given: every message passes.
    MatchAll,
    /// The pattern was invalid: no message passes (fail closed).
    MatchNone,
    /// A valid pattern: a message passes when the pattern is found within the
    /// corresponding header value.
    Pattern(String),
}

impl Filter {
    /// What the filter answers for a header value that may be absent: a
    /// pattern filter needs the header present and the pattern found in it.
    pub open spec fn spec_matches(self, text: Option<Seq<char>>) -> bool {
        match self {
            Filter::MatchAll => true,
            Filter::MatchNone => false,
            Filter::Pattern(p) => regex_ok(p@) && text is Some && regex_found(p@, text->0),
        }
    }

    /// Classifies a configured pattern: empty means match-all, an invalid
    /// expression means match-none, a valid one filters by search.
    pub fn new(pattern: String) -> (r: Filter)
        ensures
            pattern@.len() == 0 ==> r == Filter::MatchAll,
            pattern@.len() > 0 && regex_ok(pattern@) ==> r == Filter::Pattern(pattern),
            pattern@.len() > 0 && !regex_ok(pattern@) ==> r == Filter::MatchNone,
    {
        if pattern.as_str().unicode_len() == 0 {
            Filter::MatchAll
        } else if regex_is_valid(pattern.as_str()) {
            Filter::Pattern(pattern)
        } else {
            Filter::MatchNone
        }
    }

    /// Evaluates the filter against a header value that may be absent.
    pub fn matches(&self, text: Option<&String>) -> (r: bool)
        ensures
            r == self.spec_matches(match text {
                Some(t) => Some(t@),
                None => None,
            }),
    {
        match self {
            Filter::MatchAll => true,
            Filter::MatchNone => false,
            Filter::Pattern(p) => match text {
                Some(t) => regex_find(p.as_str(), t.as_str()),
                None => false,
            },
        }
    }
}

/// What the sender filter answers on a parsed header mapping: it is applied
/// to the value of the `From` header.
pub open spec fn spec_sender_matches(f: Filter, hs: Seq<(Seq<char>, Seq<char>)>) -> bool {
    f.spec_matches(spec_lookup(hs, "From"@))
}

/// What the subject filter answers on a parsed header mapping: it is applied
/// to the value of the `Subject` header.
pub open spec fn spec_subject_matches(f: Filter, hs: Seq<(Seq<char>, Seq<char>)>) -> bool {
    f.spec_matches(spec_lookup(hs, "Subject"@))
}

/// Applies the sender filter to the `From` header of a parsed header mapping.
pub fn matches_sender(f: &Filter, headers: &Vec<(String, String)>) -> (r: bool)
    ensures
        r == spec_sender_matches(*f, pair_views(headers@)),
{
    let v = header_value(headers, "From");
    f.matches(v)
}

/// Applies the subject filter to the `Subject` header of a parsed header
/// mapping.
pub fn matches_subject(f: &Filter, headers: &Vec<(String, String)>) -> (r: bool)
    ensures
        r == spec_subject_matches(*f, pair_views(headers@)),
{
    let v = header_value(headers, "Subject");
    f.matches(v)
}

/// Filter correctness: on any header mapping, the sender filter accepts
/// exactly when no pattern was configured, or when a valid pattern was
/// configured and is found within the value of the `From` header; the subject
/// filter behaves the same way over the `Subject` header.
pub proof fn lemma_filter_correctness(f: Filter, hs: Seq<(Seq<char>, Seq<char>)>)
    ensures
        spec_sender_matches(f, hs) <==> (f is MatchAll || (f matches Filter::Pattern(p)
            && regex_ok(p@) && spec_lookup(hs, "From"@) is Some && regex_found(
            p@,
            spec_lookup(hs, "From"@)->0,
        ))),
        spec_subject_matches(f, hs) <==> (f is MatchAll || (f matches Filter::Pattern(p)
            && regex_ok(p@) && spec_lookup(hs, "Subject"@) is Some && regex_found(
            p@,
            spec_lookup(hs, "Subject"@)->0,
        ))),
{
}

} // verus!
