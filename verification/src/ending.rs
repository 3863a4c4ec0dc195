//! The ending matcher: detects whether a segment's tail matches a word-final
//! rule and, if so, isolates it from the segment body. The 1-character tail
//! is checked before the 2-character tail, by design.

use vstd::prelude::*;
use vstd::string::StrSliceExecFns;
use crate::casing::{any_upper, lower_of, propagate_case, propagate_case_from_source, upper_all};
use crate::schema::Schema;

verus! {

/// A matched tail: the replacement for the whole tail (with whole-string
/// case propagation already applied) and the index where the tail begins.
pub struct Ending {
    pub translate: String,
    pub ending_start: usize,
}

/// The ending chosen for `word`, if any: `None` for words of fewer than 3
/// characters and for words whose tails match no ending rule; otherwise the
/// case-propagated replacement paired with the index where the tail begins.
/// The final 1 character is tried before the final 2.
pub open spec fn ending_spec(schema: Schema, word: Seq<char>) -> Option<(Seq<char>, int)> {
    if word.len() < 3 {
        None
    } else {
        let tail1 = word.skip(word.len() - 1);
        let tail2 = word.skip(word.len() - 2);
        match schema.ending_lookup(lower_of(tail1)) {
            Some(rep) => Some((propagate_case(rep, tail1, false), word.len() - 1)),
            None => match schema.ending_lookup(lower_of(tail2)) {
                Some(rep) => Some((propagate_case(rep, tail2, false), word.len() - 2)),
                None => None,
            },
        }
    }
}

/// Match `word`'s tail against the schema's ending rules.
pub fn parse_ending(word: &str, schema: &Schema) -> (r: Option<Ending>)
    ensures
        match ending_spec(*schema, word@) {
            None => r is None,
            Some(e) => r matches Some(found) && found.translate@ == e.0
                && found.ending_start == e.1,
        },
{
    let length = word.unicode_len();
    if length < 3 {
        return None;
    }
    let tail1 = word.substring_char(length - 1, length);
    proof {
        assert(tail1@ =~= word@.skip(word@.len() - 1));
    }
    match schema.get_ending(tail1) {
        Some(matched) => {
            return Some(
                Ending {
                    translate: propagate_case_from_source(matched, tail1, false),
                    ending_start: length - 1,
                },
            );
        },
        None => (),
    }
    let tail2 = word.substring_char(length - 2, length);
    proof {
        assert(tail2@ =~= word@.skip(word@.len() - 2));
    }
    match schema.get_ending(tail2) {
        Some(matched) => Some(
            Ending {
                translate: propagate_case_from_source(matched, tail2, false),
                ending_start: length - 2,
            },
        ),
        None => None,
    }
}

/// Ending order: where both the final 1 character and the final 2 characters
/// of a word have an ending rule, the 1-character rule's result is chosen.
pub proof fn lemma_shorter_ending_first(
    schema: Schema,
    word: Seq<char>,
    rep1: Seq<char>,
    rep2: Seq<char>,
)
    requires
        word.len() >= 3,
        schema.ending_lookup(lower_of(word.skip(word.len() - 1))) == Some(rep1),
        schema.ending_lookup(lower_of(word.skip(word.len() - 2))) == Some(rep2),
    ensures
        ending_spec(schema, word) == Some(
            (propagate_case(rep1, word.skip(word.len() - 1), false), word.len() - 1),
        ),
{
}

/// Case fidelity, whole-string mode: for a word whose final character is
/// uppercase and matches an ending rule, the entire replacement is run
/// through the uppercase mapping.
pub proof fn lemma_ending_whole_case(schema: Schema, word: Seq<char>, rep: Seq<char>)
    requires
        word.len() >= 3,
        any_upper(word.skip(word.len() - 1)),
        schema.ending_lookup(lower_of(word.skip(word.len() - 1))) == Some(rep),
    ensures
        ending_spec(schema, word) == Some((upper_all(rep), word.len() - 1)),
{
}

} // verus!
