//! The boundary segmenter: splits input text at every word-boundary
//! position into contiguous substrings that concatenate back to the input
//! exactly, so that each substring can run through the per-word pipeline.

use vstd::prelude::*;

verus! {

#[verifier::external_type_specification]
#[verifier::external_body]
pub struct ExRegex(regex::Regex);

/// Whether `r` is a compiled word-boundary pattern: one whose every match is
/// an empty string standing at a transition between word and non-word
/// characters.
pub uninterp spec fn is_word_boundary_pattern(r: regex::Regex) -> bool;

/// The segments that splitting `s` at its word boundaries yields, in order.
pub uninterp spec fn word_segments(s: Seq<char>) -> Seq<Seq<char>>;

/// The segments of `segs`, concatenated in order.
pub open spec fn concat_segs(segs: Seq<Seq<char>>) -> Seq<char>
    decreases segs.len(),
{
    if segs.len() == 0 {
        Seq::<char>::empty()
    } else {
        concat_segs(segs.drop_last()) + segs.last()
    }
}

/// Relies on regex::Regex::new: the word-boundary pattern is a valid regular
/// expression, so compiling it succeeds, and every match of it is empty.
#[verifier::external_body]
pub fn compile_boundary_pattern() -> (r: regex::Regex)
    ensures
        is_word_boundary_pattern(r),
{
    regex::Regex::new(r"\b").unwrap()
}

/// Relies on regex::Regex::split: the pieces are exactly the parts of the
/// haystack between consecutive matches, in order; the word-boundary
/// pattern's matches are all empty, so the pieces concatenate back to the
/// haystack with no character dropped, duplicated or reordered.
#[verifier::external_body]
pub fn split_at_boundaries(re: &regex::Regex, s: &str) -> (r: Vec<String>)
    requires
        is_word_boundary_pattern(*re),
    ensures
        r.deep_view() == word_segments(s@),
        concat_segs(r.deep_view()) == s@,
{
    re.split(s).map(|piece| piece.to_string()).collect()
}

} // verus!
