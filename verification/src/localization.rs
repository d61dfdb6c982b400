//! Display texts by key, with named placeholders.

use vstd::prelude::*;
use crate::json::Text;
use crate::text::{
    append_chars, chars_of, distinct_keys, find_pair, lemma_lookup_none, lemma_lookup_push,
    lookup, matches_at, string_of,
};

verus! {

/// The table of display texts: pairs of key and text. In a well-formed
/// table every key stands once.
#[derive(Clone, Debug, PartialEq, Eq)]
pub struct Locale {
    pub ui: Vec<(String, String)>,
}

/// `text` with every occurrence of `pat` replaced by `to`, found from left to
/// right, an occurrence starting only where the one before has ended. The
/// empty pattern replaces nothing.
pub open spec fn replace_all(text: Text, pat: Text, to: Text) -> Text
    decreases text.len(),
{
    if pat.len() == 0 || text.len() < pat.len() {
        text
    } else if text.subrange(0, pat.len() as int) == pat {
        to + replace_all(text.subrange(pat.len() as int, text.len() as int), pat, to)
    } else {
        seq![text[0]] + replace_all(text.subrange(1, text.len() as int), pat, to)
    }
}

/// The placeholder for the parameter `name`: the name in braces.
pub open spec fn placeholder(name: Text) -> Text {
    seq!['{'] + name + seq!['}']
}

/// `text` after the parameters were filled in one after the other, each in
/// the text that the ones before it left.
pub open spec fn substitute(text: Text, params: Seq<(Text, Text)>) -> Text
    decreases params.len(),
{
    if params.len() == 0 {
        text
    } else {
        replace_all(
            substitute(text, params.drop_last()),
            placeholder(params.last().0),
            params.last().1,
        )
    }
}

/// The views of a slice of parameters.
pub open spec fn params_view(params: Seq<(&str, &str)>) -> Seq<(Text, Text)> {
    params.map_values(|p: (&str, &str)| (p.0@, p.1@))
}

/// `text` with every `{name}` replaced by `value`.
pub fn fill_placeholder(text: &str, name: &str, value: &str) -> (out: String)
    ensures
        out@ == replace_all(text@, placeholder(name@), value@),
{
    let hay = chars_of(text);
    let to = chars_of(value);
    let mut pat: Vec<char> = Vec::new();
    pat.push('{');
    let name_chars = chars_of(name);
    append_chars(&mut pat, &name_chars);
    pat.push('}');
    assert(pat@ == placeholder(name@));
    let mut out: Vec<char> = Vec::new();
    let mut i: usize = 0;
    assert(hay@.subrange(0, hay.len() as int) == hay@);
    while i < hay.len()
        invariant
            i <= hay.len(),
            pat@.len() > 0,
            out@ + replace_all(hay@.subrange(i as int, hay.len() as int), pat@, to@) == replace_all(
                hay@,
                pat@,
                to@,
            ),
        decreases hay.len() - i,
    {
        let ghost rest = hay@.subrange(i as int, hay.len() as int);
        let ghost before = out@;
        if matches_at(&hay, &pat, i) {
            let ghost tail = hay@.subrange(i + pat.len(), hay.len() as int);
            proof {
                assert(rest.subrange(0, pat.len() as int) == pat@);
                assert(rest.subrange(pat.len() as int, rest.len() as int) == tail);
                assert(before + (to@ + replace_all(tail, pat@, to@)) == (before + to@)
                    + replace_all(tail, pat@, to@));
            }
            append_chars(&mut out, &to);
            i += pat.len();
        } else {
            let ghost tail = hay@.subrange(i + 1, hay.len() as int);
            proof {
                if rest.len() >= pat.len() {
                    assert(rest.subrange(0, pat.len() as int) == hay@.subrange(
                        i as int,
                        i + pat.len(),
                    ));
                } else {
                    assert(seq![rest[0]] + tail == rest);
                }
                assert(rest.subrange(1, rest.len() as int) == tail);
                assert(before + (seq![rest[0]] + replace_all(tail, pat@, to@)) == before.push(
                    hay@[i as int],
                ) + replace_all(tail, pat@, to@));
            }
            out.push(hay[i]);
            i += 1;
        }
    }
    assert(hay@.subrange(hay.len() as int, hay.len() as int) == Seq::<char>::empty());
    string_of(&out)
}

/// The text that stands for `key` in a table: the text of its first pair, or
/// the key itself where the table has none.
pub open spec fn text_for(ui: Seq<(Text, Text)>, key: Text) -> Text {
    match lookup(ui, key) {
        Some(text) => text,
        None => key,
    }
}

impl Locale {
    /// The invariant of a table: no key stands twice.
    pub open spec fn wf(&self) -> bool {
        distinct_keys(self.ui.deep_view())
    }

    /// The table made of the pairs, a key that comes again being left out:
    /// every key stands once, and finds what it found among the pairs.
    pub fn from_pairs(pairs: &Vec<(String, String)>) -> (locale: Locale)
        ensures
            locale.wf(),
            forall|key: Text| #[trigger]
                lookup(locale.ui.deep_view(), key) == lookup(pairs.deep_view(), key),
    {
        let mut ui: Vec<(String, String)> = Vec::new();
        let mut i: usize = 0;
        assert(pairs.deep_view().take(0) =~= ui.deep_view());
        while i < pairs.len()
            invariant
                i <= pairs.len(),
                distinct_keys(ui.deep_view()),
                forall|key: Text| #[trigger]
                    lookup(ui.deep_view(), key) == lookup(pairs.deep_view().take(i as int), key),
            decreases pairs.len() - i,
        {
            let ghost before = ui.deep_view();
            let ghost seen = pairs.deep_view().take(i as int);
            let ghost pair = pairs.deep_view()[i as int];
            assert(pairs.deep_view().take(i + 1) =~= seen.push(pair));
            assert(pair == (pairs[i as int].0@, pairs[i as int].1@));
            let found = find_pair(&ui, pairs[i].0.as_str());
            if found.is_none() {
                proof {
                    lemma_lookup_none(before, pair.0);
                }
                ui.push((pairs[i].0.clone(), pairs[i].1.clone()));
                assert(ui.deep_view() =~= before.push(pair));
            }
            assert forall|key: Text| #[trigger]
                lookup(ui.deep_view(), key) == lookup(seen.push(pair), key) by {
                lemma_lookup_push(seen, pair, key);
                if found is None {
                    lemma_lookup_push(before, pair, key);
                }
            }
            i += 1;
        }
        assert(pairs.deep_view().take(pairs.len() as int) =~= pairs.deep_view());
        Locale { ui }
    }

    /// Whether the invariant of a table holds of this value.
    pub fn is_well_formed(&self) -> (ok: bool)
        ensures
            ok == self.wf(),
    {
        let mut i: usize = 0;
        while i < self.ui.len()
            invariant
                i <= self.ui.len(),
                forall|a: int, b: int|
                    0 <= a < b < i ==> (#[trigger] self.ui.deep_view()[a]).0
                        != (#[trigger] self.ui.deep_view()[b]).0,
            decreases self.ui.len() - i,
        {
            match find_pair(&self.ui, self.ui[i].0.as_str()) {
                Some(first) => {
                    if first != i {
                        assert(self.ui.deep_view()[first as int].0 == self.ui.deep_view()[i
                            as int].0);
                        return false;
                    }
                    assert forall|a: int| 0 <= a < i implies (#[trigger] self.ui.deep_view()[a]).0
                        != self.ui.deep_view()[i as int].0 by {
                        assert(self.ui[a].0@ != self.ui[i as int].0@);
                    }
                },
                None => {
                    proof {
                        lemma_lookup_none(self.ui.deep_view(), self.ui[i as int].0@);
                        assert(self.ui.deep_view()[i as int].0 == self.ui[i as int].0@);
                    }
                    return false;
                },
            }
            i += 1;
        }
        true
    }

    /// The text that stands for `key` in this table.
    pub open spec fn text_of(&self, key: Text) -> Text {
        text_for(self.ui.deep_view(), key)
    }

    /// The display text for `key`; the key itself where the table has none.
    pub fn get<'a>(&'a self, key: &'a str) -> (text: &'a str)
        ensures
            text@ == self.text_of(key@),
    {
        match find_pair(&self.ui, key) {
            Some(i) => self.ui[i].1.as_str(),
            None => key,
        }
    }

    /// The display text for `key` with each parameter `(name, value)` filled
    /// in for `{name}`, in the order given.
    pub fn get_with_params(&self, key: &str, params: &[(&str, &str)]) -> (out: String)
        ensures
            out@ == substitute(self.text_of(key@), params_view(params@)),
    {
        let mut text = self.get(key).to_owned();
        let mut i: usize = 0;
        while i < params.len()
            invariant
                i <= params.len(),
                text@ == substitute(self.text_of(key@), params_view(params@.take(i as int))),
            decreases params.len() - i,
        {
            let ghost done = params_view(params@.take(i as int));
            let ghost next = params_view(params@.take(i + 1));
            assert(next.drop_last() == done);
            assert(next.last() == (params@[i as int].0@, params@[i as int].1@));
            let (name, value) = params[i];
            text = fill_placeholder(text.as_str(), name, value);
            i += 1;
        }
        assert(params@.take(params.len() as int) == params@);
        text
    }
}

} // verus!
