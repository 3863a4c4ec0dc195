//! The schema model: a named, immutable set of substitution rule tables
//! (letter, prefix-context, postfix-context, ending) with case-insensitive,
//! boundary-marker-stripping lookups.

use vstd::prelude::*;
use crate::casing::{lower_of, push_char, to_lower};

verus! {

/// Placeholder character padding a segment on both sides, so that edge
/// characters still have a full 3-character window; stripped from prefix and
/// postfix lookup keys.
pub const BOUNDARY_MARKER: char = '$';

/// First entry of `entries` whose key equals `key`, if any.
pub open spec fn assoc(entries: Seq<(String, String)>, key: Seq<char>) -> Option<Seq<char>>
    decreases entries.len(),
{
    if entries.len() == 0 {
        None
    } else if entries[0].0@ == key {
        Some(entries[0].1@)
    } else {
        assoc(entries.skip(1), key)
    }
}

/// Lookup in an optional table: an absent table never matches.
pub open spec fn opt_assoc(table: Option<Seq<(String, String)>>, key: Seq<char>) -> Option<
    Seq<char>,
> {
    match table {
        Some(entries) => assoc(entries, key),
        None => None,
    }
}

/// The characters of `s` with every boundary marker removed.
pub open spec fn strip_marker(s: Seq<char>) -> Seq<char>
    decreases s.len(),
{
    if s.len() == 0 {
        Seq::<char>::empty()
    } else if s.last() == BOUNDARY_MARKER {
        strip_marker(s.drop_last())
    } else {
        strip_marker(s.drop_last()) + seq![s.last()]
    }
}

/// View of an optional rule table as an optional sequence of entries.
pub open spec fn table_view(table: Option<Vec<(String, String)>>) -> Option<
    Seq<(String, String)>,
> {
    match table {
        Some(entries) => Some(entries@),
        None => None,
    }
}

/// View of an optional list of sample rows as an optional sequence.
pub open spec fn samples_view(samples: Option<Vec<Vec<String>>>) -> Option<Seq<Vec<String>>> {
    match samples {
        Some(rows) => Some(rows@),
        None => None,
    }
}

/// One named transliteration rule set. Immutable once constructed; every
/// table is optional, and an absent table simply never matches.
pub struct Schema {
    name: String,
    description: String,
    url: String,
    mapping: Option<Vec<(String, String)>>,
    prev_mapping: Option<Vec<(String, String)>>,
    next_mapping: Option<Vec<(String, String)>>,
    ending_mapping: Option<Vec<(String, String)>>,
    samples: Option<Vec<Vec<String>>>,
}

impl Schema {
    pub closed spec fn spec_name(self) -> Seq<char> {
        self.name@
    }

    pub closed spec fn spec_description(self) -> Seq<char> {
        self.description@
    }

    pub closed spec fn spec_url(self) -> Seq<char> {
        self.url@
    }

    pub closed spec fn letter_table(self) -> Option<Seq<(String, String)>> {
        table_view(self.mapping)
    }

    pub closed spec fn prefix_table(self) -> Option<Seq<(String, String)>> {
        table_view(self.prev_mapping)
    }

    pub closed spec fn postfix_table(self) -> Option<Seq<(String, String)>> {
        table_view(self.next_mapping)
    }

    pub closed spec fn ending_table(self) -> Option<Seq<(String, String)>> {
        table_view(self.ending_mapping)
    }

    pub closed spec fn spec_samples(self) -> Option<Seq<Vec<String>>> {
        samples_view(self.samples)
    }

    /// Replacement for a single-letter key, compared lowercased.
    pub open spec fn letter_lookup(self, key: Seq<char>) -> Option<Seq<char>> {
        opt_assoc(self.letter_table(), key)
    }

    /// Replacement for a previous+current key, compared stripped and lowercased.
    pub open spec fn prefix_lookup(self, key: Seq<char>) -> Option<Seq<char>> {
        opt_assoc(self.prefix_table(), key)
    }

    /// Replacement for a current+next key, compared stripped and lowercased.
    pub open spec fn postfix_lookup(self, key: Seq<char>) -> Option<Seq<char>> {
        opt_assoc(self.postfix_table(), key)
    }

    /// Replacement for a word-final key, compared lowercased.
    pub open spec fn ending_lookup(self, key: Seq<char>) -> Option<Seq<char>> {
        opt_assoc(self.ending_table(), key)
    }

    /// Construct a schema from a fully parsed definition.
    pub fn new(
        name: String,
        description: String,
        url: String,
        mapping: Option<Vec<(String, String)>>,
        prev_mapping: Option<Vec<(String, String)>>,
        next_mapping: Option<Vec<(String, String)>>,
        ending_mapping: Option<Vec<(String, String)>>,
        samples: Option<Vec<Vec<String>>>,
    ) -> (r: Schema)
        ensures
            r.spec_name() == name@,
            r.spec_description() == description@,
            r.spec_url() == url@,
            r.letter_table() == table_view(mapping),
            r.prefix_table() == table_view(prev_mapping),
            r.postfix_table() == table_view(next_mapping),
            r.ending_table() == table_view(ending_mapping),
            r.spec_samples() == samples_view(samples),
    {
        Schema { name, description, url, mapping, prev_mapping, next_mapping, ending_mapping, samples }
    }

    /// The schema's identifying name.
    pub fn name(&self) -> (r: &String)
        ensures
            r@ == self.spec_name(),
    {
        &self.name
    }

    /// Prefix-context replacement for `s`, marker-stripped and lowercased.
    pub fn get_pref(&self, s: &str) -> (r: Option<String>)
        ensures
            r.deep_view() == self.prefix_lookup(lower_of(strip_marker(s@))),
    {
        match &self.prev_mapping {
            None => None,
            Some(entries) => {
                let stripped = remove_marker(s);
                let key = to_lower(stripped.as_str());
                lookup(entries, &key)
            },
        }
    }

    /// Postfix-context replacement for `s`, marker-stripped and lowercased.
    pub fn get_next(&self, s: &str) -> (r: Option<String>)
        ensures
            r.deep_view() == self.postfix_lookup(lower_of(strip_marker(s@))),
    {
        match &self.next_mapping {
            None => None,
            Some(entries) => {
                let stripped = remove_marker(s);
                let key = to_lower(stripped.as_str());
                lookup(entries, &key)
            },
        }
    }

    /// Single-letter replacement for `s`, lowercased.
    pub fn get_letter(&self, s: &str) -> (r: Option<String>)
        ensures
            r.deep_view() == self.letter_lookup(lower_of(s@)),
    {
        match &self.mapping {
            None => None,
            Some(entries) => {
                let key = to_lower(s);
                lookup(entries, &key)
            },
        }
    }

    /// Word-final replacement for `s`, lowercased.
    pub fn get_ending(&self, s: &str) -> (r: Option<String>)
        ensures
            r.deep_view() == self.ending_lookup(lower_of(s@)),
    {
        match &self.ending_mapping {
            None => None,
            Some(entries) => {
                let key = to_lower(s);
                lookup(entries, &key)
            },
        }
    }
}

fn remove_marker(s: &str) -> (r: String)
    ensures
        r@ == strip_marker(s@),
{
    let len = s.unicode_len();
    let mut out = String::new();
    let mut i: usize = 0;
    while i < len
        invariant
            len == s@.len(),
            0 <= i <= len,
            out@ == strip_marker(s@.take(i as int)),
        decreases len - i,
    {
        let c = s.get_char(i);
        if c != BOUNDARY_MARKER {
            push_char(&mut out, c);
        }
        proof {
            assert(s@.take(i + 1).drop_last() =~= s@.take(i as int));
            assert(s@.take(i + 1).last() == s@[i as int]);
        }
        i = i + 1;
    }
    proof {
        assert(s@.take(len as int) =~= s@);
    }
    out
}

fn lookup(entries: &Vec<(String, String)>, key: &String) -> (r: Option<String>)
    ensures
        r.deep_view() == assoc(entries@, key@),
{
    let mut i: usize = 0;
    proof {
        assert(entries@.skip(0) =~= entries@);
    }
    while i < entries.len()
        invariant
            0 <= i <= entries@.len(),
            assoc(entries@, key@) == assoc(entries@.skip(i as int), key@),
        decreases entries@.len() - i,
    {
        proof {
            assert(entries@.skip(i as int)[0] == entries@[i as int]);
        }
        if entries[i].0 == *key {
            return Some(entries[i].1.clone());
        }
        proof {
            assert(entries@.skip(i as int).skip(1) =~= entries@.skip(i + 1));
        }
        i = i + 1;
    }
    proof {
        assert(entries@.skip(entries@.len() as int) =~= Seq::<(String, String)>::empty());
    }
    None
}

} // verus!
