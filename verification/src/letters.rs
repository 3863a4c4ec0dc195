//! The window transliterator: one character's replacement, decided from its
//! 3-character window (previous, current, next) with prefix over postfix
//! over letter over identity priority, then first-symbol case propagation.

use vstd::prelude::*;
use crate::casing::{
    any_upper,
    char_is_upper,
    char_upper,
    lower_of,
    propagate_case,
    propagate_case_from_source,
    push_char,
};
use crate::schema::{strip_marker, Schema};

verus! {

/// The replacement chosen for `cur` in its window, before case propagation.
/// Priority, strongest first: prefix rule, postfix rule, letter rule,
/// identity.
pub open spec fn letter_choice(schema: Schema, prev: char, cur: char, next: char) -> Seq<char> {
    let base = match schema.letter_lookup(lower_of(seq![cur])) {
        Some(rep) => rep,
        None => seq![cur],
    };
    let with_postfix = match schema.postfix_lookup(lower_of(strip_marker(seq![cur, next]))) {
        Some(rep) => rep,
        None => base,
    };
    match schema.prefix_lookup(lower_of(strip_marker(seq![prev, cur]))) {
        Some(rep) => rep,
        None => with_postfix,
    }
}

/// The output produced for `cur` in its window: the chosen replacement with
/// the case of `cur` propagated onto its first symbol.
pub open spec fn letter_spec(schema: Schema, prev: char, cur: char, next: char) -> Seq<char> {
    propagate_case(letter_choice(schema, prev, cur, next), seq![cur], true)
}

/// Transliterate the single character `cur`, seen between `prev` and `next`
/// (either may be the boundary marker).
pub fn parse_letter(prev: char, cur: char, next: char, schema: &Schema) -> (r: String)
    ensures
        r@ == letter_spec(*schema, prev, cur, next),
{
    let mut letter = String::new();
    push_char(&mut letter, cur);
    let mut prefix = String::new();
    push_char(&mut prefix, prev);
    push_char(&mut prefix, cur);
    let mut postfix = String::new();
    push_char(&mut postfix, cur);
    push_char(&mut postfix, next);
    proof {
        assert(letter@ =~= seq![cur]);
        assert(prefix@ =~= seq![prev, cur]);
        assert(postfix@ =~= seq![cur, next]);
    }
    let mut result = letter.clone();
    match schema.get_letter(letter.as_str()) {
        Some(matched) => result = matched,
        None => (),
    }
    match schema.get_next(postfix.as_str()) {
        Some(matched) => result = matched,
        None => (),
    }
    match schema.get_pref(prefix.as_str()) {
        Some(matched) => result = matched,
        None => (),
    }
    propagate_case_from_source(result, letter.as_str(), true)
}

/// Priority ordering: where a character has a matching entry in the letter,
/// postfix and prefix tables at once, the prefix rule's replacement is the
/// one chosen.
pub proof fn lemma_prefix_priority(
    schema: Schema,
    prev: char,
    cur: char,
    next: char,
    letter_rep: Seq<char>,
    postfix_rep: Seq<char>,
    prefix_rep: Seq<char>,
)
    requires
        schema.letter_lookup(lower_of(seq![cur])) == Some(letter_rep),
        schema.postfix_lookup(lower_of(strip_marker(seq![cur, next]))) == Some(postfix_rep),
        schema.prefix_lookup(lower_of(strip_marker(seq![prev, cur]))) == Some(prefix_rep),
    ensures
        letter_choice(schema, prev, cur, next) == prefix_rep,
        letter_spec(schema, prev, cur, next) == propagate_case(prefix_rep, seq![cur], true),
{
}

/// Case fidelity, first-symbol mode: for an uppercase source letter whose
/// letter rule supplies the replacement, only the replacement's first
/// character is run through the uppercase mapping; the rest is unchanged.
pub proof fn lemma_first_symbol_case(
    schema: Schema,
    prev: char,
    cur: char,
    next: char,
    rep: Seq<char>,
)
    requires
        char_is_upper(cur),
        rep.len() > 0,
        schema.letter_lookup(lower_of(seq![cur])) == Some(rep),
        schema.postfix_lookup(lower_of(strip_marker(seq![cur, next]))) is None,
        schema.prefix_lookup(lower_of(strip_marker(seq![prev, cur]))) is None,
    ensures
        letter_spec(schema, prev, cur, next) == char_upper(rep[0]) + rep.skip(1),
{
    assert(any_upper(seq![cur])) by {
        assert(char_is_upper(seq![cur][0]));
    }
}

} // verus!
