//! Case propagation: restoring uppercase-ness of a replacement string from
//! the uppercase-ness of the source text it replaces.

use vstd::prelude::*;
use vstd::string::StrSliceExecFns;
use vstd::string::StringExecFns;

verus! {

/// The sequence of characters that `str::to_lowercase` returns for `s`.
pub uninterp spec fn lower_of(s: Seq<char>) -> Seq<char>;

/// The sequence of characters that `char::to_uppercase` yields for `c`.
pub uninterp spec fn char_upper(c: char) -> Seq<char>;

/// What `char::is_uppercase` returns for `c`.
pub uninterp spec fn char_is_upper(c: char) -> bool;

/// Relies on str::to_lowercase: the result depends on the characters alone.
#[verifier::external_body]
pub fn to_lower(s: &str) -> (r: String)
    ensures
        r@ == lower_of(s@),
{
    s.to_lowercase()
}

/// Relies on char::to_uppercase: the result depends on the character alone.
#[verifier::external_body]
pub fn upper_char(c: char) -> (r: String)
    ensures
        r@ == char_upper(c),
{
    c.to_uppercase().collect::<String>()
}

/// Relies on char::is_uppercase: the result depends on the character alone.
#[verifier::external_body]
pub fn is_upper_char(c: char) -> (r: bool)
    ensures
        r == char_is_upper(c),
{
    c.is_uppercase()
}

/// Relies on String::push: appends the character to the end of the string.
#[verifier::external_body]
pub fn push_char(s: &mut String, c: char)
    ensures
        final(s)@ == old(s)@ + seq![c],
{
    s.push(c)
}

/// Whether at least one character of `s` is uppercase.
pub open spec fn any_upper(s: Seq<char>) -> bool {
    exists|i: int| 0 <= i < s.len() && char_is_upper(#[trigger] s[i])
}

/// Every character of `s` run through the uppercase mapping, in order.
pub open spec fn upper_all(s: Seq<char>) -> Seq<char>
    decreases s.len(),
{
    if s.len() == 0 {
        Seq::<char>::empty()
    } else {
        upper_all(s.drop_last()) + char_upper(s.last())
    }
}

/// The case-propagation rule: if the source contains no uppercase character
/// the replacement passes through unchanged; otherwise either only the first
/// replacement character is uppercased (`only_first`) or the whole
/// replacement is.
pub open spec fn propagate_case(rep: Seq<char>, source: Seq<char>, only_first: bool) -> Seq<char> {
    if !any_upper(source) {
        rep
    } else if only_first {
        if rep.len() == 0 {
            Seq::<char>::empty()
        } else {
            char_upper(rep[0]) + rep.skip(1)
        }
    } else {
        upper_all(rep)
    }
}

fn contains_upper(s: &str) -> (r: bool)
    ensures
        r == any_upper(s@),
{
    let len = s.unicode_len();
    let mut i: usize = 0;
    while i < len
        invariant
            len == s@.len(),
            0 <= i <= len,
            forall|j: int| 0 <= j < i ==> !char_is_upper(#[trigger] s@[j]),
        decreases len - i,
    {
        if is_upper_char(s.get_char(i)) {
            return true;
        }
        i = i + 1;
    }
    false
}

fn uppercase_all(s: &str) -> (r: String)
    ensures
        r@ == upper_all(s@),
{
    let len = s.unicode_len();
    let mut out = String::new();
    let mut i: usize = 0;
    while i < len
        invariant
            len == s@.len(),
            0 <= i <= len,
            out@ == upper_all(s@.take(i as int)),
        decreases len - i,
    {
        let piece = upper_char(s.get_char(i));
        out.append(piece.as_str());
        proof {
            assert(s@.take(i + 1).drop_last() =~= s@.take(i as int));
            assert(s@.take(i + 1).last() == s@[i as int]);
        }
        i = i + 1;
    }
    proof {
        assert(s@.take(len as int) =~= s@);
    }
    out
}

/// Propagate the case of `source_letter` onto `result`: first-symbol-only
/// mode for window substitutions, whole-string mode for ending substitutions.
pub fn propagate_case_from_source(result: String, source_letter: &str, only_first: bool) -> (r:
    String)
    ensures
        r@ == propagate_case(result@, source_letter@, only_first),
{
    let letter_upper = contains_upper(source_letter);
    if !letter_upper {
        return result;
    }
    if only_first {
        if result.as_str().unicode_len() == 0 {
            return String::new();
        }
        let first = result.as_str().get_char(0);
        let rest = result.as_str().substring_char(1, result.as_str().unicode_len());
        let mut out = upper_char(first);
        out.append(rest);
        proof {
            assert(rest@ =~= result@.skip(1));
        }
        out
    } else {
        uppercase_all(result.as_str())
    }
}

} // verus!
