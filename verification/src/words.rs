//! Word assembly: one segment runs through the ending matcher, the rest of
//! it through the window transliterator, and the pieces are concatenated;
//! segment outputs are concatenated in original order.

use vstd::prelude::*;
use vstd::string::StrSliceExecFns;
use vstd::string::StringExecFns;
use crate::casing::{char_is_upper, lower_of};
use crate::ending::{ending_spec, parse_ending};
use crate::letters::{letter_spec, parse_letter};
use crate::schema::{strip_marker, Schema, BOUNDARY_MARKER};
use crate::segments::{
    compile_boundary_pattern,
    concat_segs,
    split_at_boundaries,
    word_segments,
};

verus! {

/// The character before position `i` of a segment body, with the boundary
/// marker standing in at the left edge.
pub open spec fn prev_char(body: Seq<char>, i: int) -> char {
    if i == 0 {
        BOUNDARY_MARKER
    } else {
        body[i - 1]
    }
}

/// The character after position `i` of a segment body, with the boundary
/// marker standing in at the right edge.
pub open spec fn next_char(body: Seq<char>, i: int) -> char {
    if i == body.len() - 1 {
        BOUNDARY_MARKER
    } else {
        body[i + 1]
    }
}

/// The window transliterator's output for the first `n` characters of
/// `body`: one replacement per character, in order.
pub open spec fn body_spec_upto(schema: Schema, body: Seq<char>, n: int) -> Seq<char>
    decreases n,
{
    if n <= 0 {
        Seq::<char>::empty()
    } else {
        body_spec_upto(schema, body, n - 1) + letter_spec(
            schema,
            prev_char(body, n - 1),
            body[n - 1],
            next_char(body, n - 1),
        )
    }
}

/// The window transliterator's output for a whole segment body.
pub open spec fn body_spec(schema: Schema, body: Seq<char>) -> Seq<char> {
    body_spec_upto(schema, body, body.len() as int)
}

/// The transliteration of one segment: the transliterated body followed by
/// the transliterated ending, if one matched.
pub open spec fn word_spec(schema: Schema, word: Seq<char>) -> Seq<char> {
    match ending_spec(schema, word) {
        None => body_spec(schema, word),
        Some(e) => body_spec(schema, word.take(e.1)) + e.0,
    }
}

/// The transliteration of a sequence of segments, concatenated in order.
pub open spec fn segments_spec(schema: Schema, segs: Seq<Seq<char>>) -> Seq<char>
    decreases segs.len(),
{
    if segs.len() == 0 {
        Seq::<char>::empty()
    } else {
        segments_spec(schema, segs.drop_last()) + word_spec(schema, segs.last())
    }
}

/// Transliterate one word segment: peel a matching ending off the tail, run
/// the remaining body through the 3-character window, and concatenate.
pub fn parse_word_by_schema(word: &str, schema: &Schema) -> (r: String)
    ensures
        r@ == word_spec(*schema, word@),
{
    let ending = parse_ending(word, schema);
    let (body, parsed_end): (&str, String) = match ending {
        Some(matched) => {
            proof {
                assert(ending_spec(*schema, word@) matches Some(e) && e.1 == matched.ending_start
                    as int);
            }
            (word.substring_char(0, matched.ending_start), matched.translate)
        },
        None => (word, String::new()),
    };
    proof {
        assert(match ending_spec(*schema, word@) {
            None => body@ =~= word@,
            Some(e) => body@ =~= word@.take(e.1) && parsed_end@ == e.0,
        });
    }
    let body_len = body.unicode_len();
    let mut parsed = String::new();
    let mut i: usize = 0;
    while i < body_len
        invariant
            body_len == body@.len(),
            0 <= i <= body_len,
            parsed@ == body_spec_upto(*schema, body@, i as int),
        decreases body_len - i,
    {
        let cur = body.get_char(i);
        let prev = if i == 0 {
            BOUNDARY_MARKER
        } else {
            body.get_char(i - 1)
        };
        let next = if i + 1 == body_len {
            BOUNDARY_MARKER
        } else {
            body.get_char(i + 1)
        };
        let piece = parse_letter(prev, cur, next, schema);
        parsed.append(piece.as_str());
        i = i + 1;
    }
    parsed.append(parsed_end.as_str());
    parsed
}

/// The summed lengths of the per-segment transliterations.
pub open spec fn sum_output_lens(schema: Schema, segs: Seq<Seq<char>>) -> int
    decreases segs.len(),
{
    if segs.len() == 0 {
        0
    } else {
        sum_output_lens(schema, segs.drop_last()) + word_spec(schema, segs.last()).len()
    }
}

/// Length-segment invariance: the transliteration of a sequence of segments
/// is exactly as long as the sum of the per-segment transliteration lengths,
/// so every segment contributes once, in order, and none is skipped or
/// duplicated.
pub proof fn lemma_length_segment_invariance(schema: Schema, segs: Seq<Seq<char>>)
    ensures
        segments_spec(schema, segs).len() == sum_output_lens(schema, segs),
    decreases segs.len(),
{
    if segs.len() > 0 {
        lemma_length_segment_invariance(schema, segs.drop_last());
    }
}

/// Identity on unmapped characters: a segment consisting solely of one
/// non-uppercase character with no entry in any of the schema's four tables
/// is returned unchanged.
pub proof fn lemma_identity_on_unmapped(schema: Schema, c: char)
    requires
        c != BOUNDARY_MARKER,
        !char_is_upper(c),
        schema.letter_lookup(lower_of(seq![c])) is None,
        schema.prefix_lookup(lower_of(seq![c])) is None,
        schema.postfix_lookup(lower_of(seq![c])) is None,
        schema.ending_lookup(lower_of(seq![c])) is None,
    ensures
        word_spec(schema, seq![c]) == seq![c],
{
    let word = seq![c];
    assert(ending_spec(schema, word) is None);
    assert(strip_marker(Seq::<char>::empty()) == Seq::<char>::empty());
    assert(seq![BOUNDARY_MARKER].last() == BOUNDARY_MARKER);
    assert(seq![BOUNDARY_MARKER].drop_last() =~= Seq::<char>::empty());
    assert(strip_marker(seq![BOUNDARY_MARKER]) == strip_marker(Seq::<char>::empty()));
    assert(seq![c].last() == c);
    assert(seq![c].drop_last() =~= Seq::<char>::empty());
    assert(strip_marker(seq![c]) =~= seq![c]);
    assert(seq![BOUNDARY_MARKER, c].last() == c);
    assert(seq![BOUNDARY_MARKER, c].drop_last() =~= seq![BOUNDARY_MARKER]);
    assert(strip_marker(seq![BOUNDARY_MARKER, c]) =~= seq![c]);
    assert(seq![c, BOUNDARY_MARKER].last() == BOUNDARY_MARKER);
    assert(seq![c, BOUNDARY_MARKER].drop_last() =~= seq![c]);
    assert(strip_marker(seq![c, BOUNDARY_MARKER]) =~= seq![c]);
    assert(!crate::casing::any_upper(word)) by {
        assert forall|i: int| 0 <= i < word.len() implies !char_is_upper(#[trigger] word[i]) by {
            assert(word[i] == c);
        }
    }
    assert(letter_spec(schema, BOUNDARY_MARKER, c, BOUNDARY_MARKER) == seq![c]);
    assert(word_spec(schema, word) =~= seq![c]) by {
        assert(body_spec_upto(schema, word, 0) == Seq::<char>::empty());
        assert(body_spec(schema, word) == body_spec_upto(schema, word, 0) + letter_spec(
            schema,
            BOUNDARY_MARKER,
            c,
            BOUNDARY_MARKER,
        ));
    }
}

/// Transliterate `s` under `schema`: split it at word boundaries, run each
/// segment through the per-word pipeline, and concatenate the results in
/// order. The segmentation itself concatenates back to the input, so no
/// segment is skipped, duplicated or reordered.
pub fn parse_by_schema(s: &str, schema: &Schema) -> (r: String)
    ensures
        r@ == segments_spec(*schema, word_segments(s@)),
        concat_segs(word_segments(s@)) == s@,
{
    let pattern = compile_boundary_pattern();
    let segs = split_at_boundaries(&pattern, s);
    let mut out = String::new();
    let mut i: usize = 0;
    while i < segs.len()
        invariant
            segs.deep_view() == word_segments(s@),
            0 <= i <= segs@.len(),
            out@ == segments_spec(*schema, word_segments(s@).take(i as int)),
        decreases segs@.len() - i,
    {
        proof {
            assert(segs.deep_view()[i as int] == segs@[i as int]@);
        }
        let piece = parse_word_by_schema(segs[i].as_str(), schema);
        out.append(piece.as_str());
        proof {
            let segs_v = word_segments(s@);
            assert(segs_v.take(i + 1).drop_last() =~= segs_v.take(i as int));
            assert(segs_v.take(i + 1).last() == segs_v[i as int]);
        }
        i = i + 1;
    }
    proof {
        assert(word_segments(s@).take(word_segments(s@).len() as int) =~= word_segments(s@));
        assert(segs@.len() == word_segments(s@).len());
    }
    out
}

} // verus!
