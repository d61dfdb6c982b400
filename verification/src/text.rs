//! Strings as sequences of characters: conversion, substring search, and
//! lookup in lists of pairs.

use vstd::prelude::*;

verus! {

/// `String::push` appends one character at the end.
pub assume_specification[ String::push ](s: &mut String, c: char)
    ensures
        final(s)@ == old(s)@.push(c),
;

/// The lower-case form of a text, as `str::to_lowercase` computes it from
/// the Unicode case mappings (one character may map to several).
pub uninterp spec fn lowercase(s: Seq<char>) -> Seq<char>;

/// `str::to_lowercase`: the result is a function of the text alone.
#[verifier::external_body]
pub(crate) fn to_lowercase(s: &str) -> (out: String)
    ensures
        out@ == lowercase(s@),
{
    s.to_lowercase()
}

/// A vector of characters is seen alike with and without looking into its
/// elements.
pub proof fn lemma_chars_view(v: Vec<char>)
    ensures
        v.deep_view() == v@,
{
    assert(v.deep_view() =~= v@);
}

/// The characters of `s`, in order.
pub fn chars_of(s: &str) -> (out: Vec<char>)
    ensures
        out@ == s@,
{
    broadcast use vstd::string::axiom_spec_iter;

    let mut out: Vec<char> = Vec::new();
    for c in it: s.chars()
        invariant
            it.seq() == s@,
            out@ == s@.take(it.index()),
    {
        out.push(c);
    }
    out
}

/// The string made of the characters `v`, in order.
pub fn string_of(v: &Vec<char>) -> (out: String)
    ensures
        out@ == v@,
{
    let mut out = String::new();
    let mut i: usize = 0;
    while i < v.len()
        invariant
            i <= v.len(),
            out@ == v@.take(i as int),
        decreases v.len() - i,
    {
        out.push(v[i]);
        i += 1;
    }
    out
}

/// Appends the characters of `extra` to `out`.
pub fn append_chars(out: &mut Vec<char>, extra: &Vec<char>)
    ensures
        final(out)@ == old(out)@ + extra@,
{
    let mut j: usize = 0;
    while j < extra.len()
        invariant
            j <= extra.len(),
            out@ == old(out)@ + extra@.take(j as int),
        decreases extra.len() - j,
    {
        out.push(extra[j]);
        assert(extra@.take(j + 1) == extra@.take(j as int).push(extra@[j as int]));
        j += 1;
    }
    assert(extra@.take(extra.len() as int) == extra@);
}

/// `needle` stands in `hay` starting at position `at`.
pub open spec fn occurs_at(hay: Seq<char>, needle: Seq<char>, at: int) -> bool {
    &&& 0 <= at
    &&& at + needle.len() <= hay.len()
    &&& hay.subrange(at, at + needle.len()) == needle
}

/// `needle` stands somewhere in `hay`. The empty text stands in every text.
pub open spec fn is_substring(needle: Seq<char>, hay: Seq<char>) -> bool {
    exists|at: int| occurs_at(hay, needle, at)
}

/// Whether `needle` stands in `hay` at position `at`.
pub fn matches_at(hay: &Vec<char>, needle: &Vec<char>, at: usize) -> (found: bool)
    ensures
        found == occurs_at(hay@, needle@, at as int),
{
    if at > hay.len() || needle.len() > hay.len() - at {
        return false;
    }
    let mut j: usize = 0;
    while j < needle.len()
        invariant
            at + needle.len() <= hay.len(),
            j <= needle.len(),
            hay@.subrange(at as int, at + j) == needle@.take(j as int),
        decreases needle.len() - j,
    {
        if hay[at + j] != needle[j] {
            assert(hay@.subrange(at as int, at + needle.len())[j as int] != needle@[j as int]);
            return false;
        }
        assert(hay@.subrange(at as int, at + j + 1) == hay@.subrange(at as int, at + j).push(
            hay@[at + j],
        ));
        assert(needle@.take(j + 1) == needle@.take(j as int).push(needle@[j as int]));
        j += 1;
    }
    assert(needle@.take(needle.len() as int) == needle@);
    true
}

/// Whether `needle` stands somewhere in `hay`.
pub fn contains_text(hay: &Vec<char>, needle: &Vec<char>) -> (found: bool)
    ensures
        found == is_substring(needle@, hay@),
{
    if needle.len() > hay.len() {
        assert forall|at: int| !occurs_at(hay@, needle@, at) by {}
        return false;
    }
    let last: usize = hay.len() - needle.len();
    let mut at: usize = 0;
    while at < last
        invariant
            last == hay.len() - needle.len(),
            at <= last,
            forall|k: int| 0 <= k < at ==> !occurs_at(hay@, needle@, k),
        decreases last - at,
    {
        if matches_at(hay, needle, at) {
            return true;
        }
        at += 1;
    }
    matches_at(hay, needle, last)
}

/// The text of the first pair whose key is `key`.
pub open spec fn lookup(pairs: Seq<(Seq<char>, Seq<char>)>, key: Seq<char>) -> Option<Seq<char>>
    decreases pairs.len(),
{
    if pairs.len() == 0 {
        None
    } else if pairs[0].0 == key {
        Some(pairs[0].1)
    } else {
        lookup(pairs.drop_first(), key)
    }
}

/// No two pairs have the same key.
pub open spec fn distinct_keys(pairs: Seq<(Seq<char>, Seq<char>)>) -> bool {
    forall|i: int, j: int|
        0 <= i < j < pairs.len() ==> (#[trigger] pairs[i]).0 != (#[trigger] pairs[j]).0
}

/// What a key finds once a pair is added at the end: what it found before,
/// or else the new pair if that has the key.
pub proof fn lemma_lookup_push(
    pairs: Seq<(Seq<char>, Seq<char>)>,
    pair: (Seq<char>, Seq<char>),
    key: Seq<char>,
)
    ensures
        lookup(pairs.push(pair), key) == match lookup(pairs, key) {
            Some(text) => Some(text),
            None => if pair.0 == key {
                Some(pair.1)
            } else {
                None
            },
        },
    decreases pairs.len(),
{
    let longer = pairs.push(pair);
    if pairs.len() == 0 {
        assert(longer.drop_first() =~= Seq::empty());
    } else {
        assert(longer[0] == pairs[0]);
        assert(longer.drop_first() =~= pairs.drop_first().push(pair));
        lemma_lookup_push(pairs.drop_first(), pair, key);
    }
}

/// A key that finds nothing is the key of no pair.
pub proof fn lemma_lookup_none(pairs: Seq<(Seq<char>, Seq<char>)>, key: Seq<char>)
    requires
        lookup(pairs, key) is None,
    ensures
        forall|j: int| 0 <= j < pairs.len() ==> (#[trigger] pairs[j]).0 != key,
    decreases pairs.len(),
{
    if pairs.len() > 0 {
        let rest = pairs.drop_first();
        lemma_lookup_none(rest, key);
        assert forall|j: int| 0 <= j < pairs.len() implies (#[trigger] pairs[j]).0 != key by {
            if j > 0 {
                assert(rest[j - 1] == pairs[j]);
            }
        }
    }
}

/// The position of the first pair whose key is `key`.
pub fn find_pair(pairs: &Vec<(String, String)>, key: &str) -> (found: Option<usize>)
    ensures
        match found {
            Some(i) => {
                &&& i < pairs.len()
                &&& pairs[i as int].0@ == key@
                &&& forall|j: int| 0 <= j < i ==> pairs[j].0@ != key@
                &&& lookup(pairs.deep_view(), key@) == Some(pairs[i as int].1@)
            },
            None => lookup(pairs.deep_view(), key@) is None,
        },
{
    let wanted = key.to_owned();
    let mut i: usize = 0;
    assert(pairs.deep_view().subrange(0, pairs.len() as int) == pairs.deep_view());
    while i < pairs.len()
        invariant
            i <= pairs.len(),
            wanted@ == key@,
            forall|j: int| 0 <= j < i ==> pairs[j].0@ != key@,
            lookup(pairs.deep_view(), key@) == lookup(
                pairs.deep_view().subrange(i as int, pairs.len() as int),
                key@,
            ),
        decreases pairs.len() - i,
    {
        let ghost rest = pairs.deep_view().subrange(i as int, pairs.len() as int);
        assert(rest[0] == pairs.deep_view()[i as int]);
        assert(rest.drop_first() == pairs.deep_view().subrange(i + 1, pairs.len() as int));
        if pairs[i].0 == wanted {
            return Some(i);
        }
        i += 1;
    }
    assert(pairs.deep_view().subrange(pairs.len() as int, pairs.len() as int).len() == 0);
    None
}

/// Whether `key` is among `keys`.
pub fn has_key(keys: &Vec<String>, key: &str) -> (found: bool)
    ensures
        found == keys.deep_view().contains(key@),
{
    let wanted = key.to_owned();
    let mut i: usize = 0;
    while i < keys.len()
        invariant
            i <= keys.len(),
            wanted@ == key@,
            forall|k: int| 0 <= k < i ==> keys.deep_view()[k] != key@,
        decreases keys.len() - i,
    {
        if keys[i] == wanted {
            assert(keys.deep_view()[i as int] == key@);
            return true;
        }
        i += 1;
    }
    false
}

} // verus!
