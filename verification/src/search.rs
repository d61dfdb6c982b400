//! Key search: the entries whose key holds the query, whatever the case.

use vstd::prelude::*;
use crate::cursor::indices;
use crate::entries::{keys_of, Entry};
use crate::json::Text;
use crate::text::{chars_of, contains_text, is_substring, lowercase, to_lowercase};

verus! {

/// The positions of the keys in which `needle` stands, in rising order.
pub open spec fn containing(keys: Seq<Text>, needle: Text) -> Seq<int>
    decreases keys.len(),
{
    if keys.len() == 0 {
        Seq::empty()
    } else if is_substring(needle, keys.last()) {
        containing(keys.drop_last(), needle).push(keys.len() - 1)
    } else {
        containing(keys.drop_last(), needle)
    }
}

/// The lower-case forms of the keys.
pub open spec fn lowered(keys: Seq<Text>) -> Seq<Text> {
    keys.map_values(|k: Text| lowercase(k))
}

/// The matches of a query: no key for the empty query, else the positions of
/// the keys whose lower-case form holds the lower-case form of the query.
pub open spec fn matching(keys: Seq<Text>, query: Text) -> Seq<int> {
    if query.len() == 0 {
        Seq::empty()
    } else {
        containing(lowered(keys), lowercase(query))
    }
}

/// What `containing` holds: exactly the positions of the keys in which the
/// needle stands, each once, in rising order.
pub proof fn lemma_containing(keys: Seq<Text>, needle: Text)
    ensures
        forall|k: int|
            0 <= k < containing(keys, needle).len() ==> {
                &&& 0 <= #[trigger] containing(keys, needle)[k] < keys.len()
                &&& is_substring(needle, keys[containing(keys, needle)[k]])
            },
        forall|j: int, k: int|
            0 <= j < k < containing(keys, needle).len() ==> containing(keys, needle)[j]
                < containing(keys, needle)[k],
        forall|i: int|
            0 <= i < keys.len() && is_substring(needle, #[trigger] keys[i]) ==> containing(
                keys,
                needle,
            ).contains(i),
        containing(keys, needle).len() <= keys.len(),
    decreases keys.len(),
{
    if keys.len() > 0 {
        let shorter = keys.drop_last();
        let before = containing(shorter, needle);
        let all = containing(keys, needle);
        lemma_containing(shorter, needle);
        assert forall|i: int|
            0 <= i < keys.len() && is_substring(needle, #[trigger] keys[i]) implies all.contains(
            i,
        ) by {
            if i < keys.len() - 1 {
                assert(shorter[i] == keys[i]);
                let k = choose|k: int| 0 <= k < before.len() && before[k] == i;
                assert(all[k] == i);
            } else {
                assert(all[all.len() - 1] == i);
            }
        }
        assert forall|k: int| 0 <= k < all.len() implies {
            &&& 0 <= #[trigger] all[k] < keys.len()
            &&& is_substring(needle, keys[all[k]])
        } by {
            if k < before.len() {
                assert(shorter[before[k]] == keys[before[k]]);
            }
        }
    }
}

/// The positions of the keys in which `needle` stands.
pub fn find_containing(keys: &Vec<String>, needle: &str) -> (found: Vec<usize>)
    ensures
        indices(found@) == containing(keys.deep_view(), needle@),
{
    let wanted = chars_of(needle);
    let mut found: Vec<usize> = Vec::new();
    let mut i: usize = 0;
    while i < keys.len()
        invariant
            i <= keys.len(),
            wanted@ == needle@,
            indices(found@) == containing(keys.deep_view().take(i as int), needle@),
        decreases keys.len() - i,
    {
        let key = chars_of(keys[i].as_str());
        let ghost before = found@;
        proof {
            let upto = keys.deep_view().take(i + 1);
            assert(upto.drop_last() == keys.deep_view().take(i as int));
            assert(upto.last() == keys[i as int]@);
        }
        if contains_text(&key, &wanted) {
            found.push(i);
            assert(indices(found@) == indices(before).push(i as int));
        }
        i += 1;
    }
    assert(keys.deep_view().take(keys.len() as int) == keys.deep_view());
    found
}

/// The lower-case forms of the keys of the entries.
pub fn lowered_keys(entries: &Vec<Entry>) -> (keys: Vec<String>)
    ensures
        keys.deep_view() == lowered(keys_of(entries.deep_view())),
{
    let mut keys: Vec<String> = Vec::new();
    let mut i: usize = 0;
    while i < entries.len()
        invariant
            i <= entries.len(),
            keys.len() == i,
            forall|k: int| 0 <= k < i ==> keys[k]@ == lowercase(entries[k].key@),
        decreases entries.len() - i,
    {
        keys.push(to_lowercase(entries[i].key.as_str()));
        i += 1;
    }
    assert(keys.deep_view() =~= lowered(keys_of(entries.deep_view())));
    keys
}

/// The entries that match a query: those whose key holds the query, whatever
/// the case of either, in the order of the entries. The empty query matches
/// no entry.
pub fn query(entries: &Vec<Entry>, text: &str) -> (found: Vec<usize>)
    ensures
        indices(found@) == matching(keys_of(entries.deep_view()), text@),
        text@.len() == 0 ==> found@.len() == 0,
{
    if text.is_empty() {
        let found: Vec<usize> = Vec::new();
        assert(indices(found@) == Seq::<int>::empty());
        return found;
    }
    let needle = to_lowercase(text);
    let keys = lowered_keys(entries);
    find_containing(&keys, needle.as_str())
}

} // verus!
