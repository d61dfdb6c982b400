//! JSON values as the library holds them, and the calls into `serde_json`.
//!
//! A parsed object stays a `serde_json::Map`. What the library reads from it
//! is handed out as plain values: a value as its compact JSON text (`"Hello"`
//! with its quotes for a string, `42`, `true`, `[1,2]`), a document as the
//! list of its members, each a key and the text of its value, in the order
//! in which the map is walked.

use vstd::prelude::*;
use crate::text::{chars_of, distinct_keys, lookup, string_of};

verus! {

/// A text as contracts see it.
pub type Text = Seq<char>;

/// The members of a JSON object: key and compact JSON text of the value.
pub type Members = Seq<(Seq<char>, Seq<char>)>;

/// `serde_json::Error`, carried through as it comes: nothing is read from it.
#[verifier::external_type_specification]
#[verifier::external_body]
pub struct ExJsonError(serde_json::Error);

/// `serde_json::Value`, carried through inside a map: nothing is read from
/// it but through the wrappers below.
#[verifier::external_type_specification]
#[verifier::external_body]
pub struct ExJsonValue(serde_json::Value);

/// `serde_json::Map`, the object of a parsed document.
#[verifier::external_type_specification]
#[verifier::external_body]
#[verifier::reject_recursive_types(K)]
#[verifier::reject_recursive_types(V)]
pub struct ExJsonMap<K, V>(serde_json::Map<K, V>);

/// A parsed JSON object.
pub type JsonObject = serde_json::Map<String, serde_json::Value>;

/// What a parsed object holds: its members in the order in which the map
/// is walked, each with its key and the compact JSON text of its value.
pub uninterp spec fn object_members(map: serde_json::Map<String, serde_json::Value>) -> Seq<(Seq<char>, Seq<char>)>;

/// What `serde_json` makes of a text read as one JSON value: `Err` where the
/// text is no JSON, `Ok(None)` where it is JSON but no object, and otherwise
/// the members of the object in the order of the parsed map, each value as
/// its compact text.
pub uninterp spec fn json_object(content: Seq<char>) -> Result<Option<Seq<(Seq<char>, Seq<char>)>>, ()>;

/// The compact JSON text of the string `s`: quoted, and escaped as
/// `serde_json` escapes.
pub uninterp spec fn json_string_text(s: Seq<char>) -> Seq<char>;

/// The compact JSON text of the value that `serde_json` reads from the text
/// `json`; `None` where the text is no JSON.
pub uninterp spec fn json_compact(json: Seq<char>) -> Option<Seq<char>>;

/// What an object with the given members holds once the member `key` is
/// inserted with the value of compact text `text`: the members in the order
/// in which the map is then walked.
pub uninterp spec fn object_with(members: Seq<(Seq<char>, Seq<char>)>, key: Seq<char>, text: Seq<char>) -> Seq<(Seq<char>, Seq<char>)>;

/// What an insertion does to the members of an object: afterwards the key
/// finds the inserted value, every other key finds what it found before,
/// and no key stands twice.
pub open spec fn is_insertion(before: Members, key: Text, text: Text, after: Members) -> bool {
    &&& distinct_keys(after)
    &&& forall|k: Text| #[trigger]
        lookup(after, k) == if k == key {
            Some(text)
        } else {
            lookup(before, k)
        }
}

/// The compact text of the value that the last member of the given key
/// has; `None` where no member has the key, or that text is no JSON.
pub open spec fn last_compact(members: Members, key: Text) -> Option<Text>
    decreases members.len(),
{
    if members.len() == 0 {
        None
    } else if members.last().0 == key {
        json_compact(members.last().1)
    } else {
        last_compact(members.drop_last(), key)
    }
}

/// `held` is what an object holds that was filled with `members`: every
/// key once, with the value of the last member of that key, and no key that
/// no member has.
pub open spec fn holds_each_last(members: Members, held: Members) -> bool {
    &&& distinct_keys(held)
    &&& forall|k: Text| #[trigger] lookup(held, k) == last_compact(members, k)
}

/// The pretty-printed JSON text of an object with the given members; `None`
/// where `serde_json` fails to serialise it.
pub uninterp spec fn pretty_members(members: Seq<(Seq<char>, Seq<char>)>) -> Option<Seq<char>>;

/// What an object holds that is filled with the given members one after the
/// other; `None` where the text of some value is no JSON.
pub open spec fn filled(members: Members) -> Option<Members>
    decreases members.len(),
{
    if members.len() == 0 {
        Some(Seq::empty())
    } else {
        match filled(members.drop_last()) {
            Some(before) => match json_compact(members.last().1) {
                Some(text) => Some(object_with(before, members.last().0, text)),
                None => None,
            },
            None => None,
        }
    }
}

/// The pretty-printed JSON object filled with the given members one after
/// the other; `None` where it cannot be made.
pub open spec fn pretty_object(members: Members) -> Option<Text> {
    match filled(members) {
        Some(held) => pretty_members(held),
        None => None,
    }
}

/// Where a beginning of the members cannot be filled in, neither can the
/// whole.
pub proof fn lemma_filled_none(members: Members, upto: int)
    requires
        0 <= upto <= members.len(),
        filled(members.take(upto)) is None,
    ensures
        filled(members) is None,
    decreases members.len() - upto,
{
    if upto < members.len() {
        assert(members.take(upto + 1).drop_last() == members.take(upto));
        lemma_filled_none(members, upto + 1);
    } else {
        assert(members.take(upto) == members);
    }
}

/// The outcome of parsing with the object taken by what it holds, and the
/// error's content left out.
pub open spec fn outcome_view(out: Result<Option<JsonObject>, serde_json::Error>) -> Result<
    Option<Members>,
    (),
> {
    match out {
        Ok(Some(map)) => Ok(Some(object_members(map))),
        Ok(None) => Ok(None),
        Err(_) => Err(()),
    }
}

/// `serde_json::from_str` into a `serde_json::Value`, and of that the map
/// where it is an object. The outcome is a function of the text alone; the
/// keys of a parsed map are pairwise distinct.
#[verifier::external_body]
pub(crate) fn parse_object(content: &str) -> (out: Result<Option<JsonObject>, serde_json::Error>)
    ensures
        outcome_view(out) == json_object(content@),
        out matches Ok(Some(map)) ==> distinct_keys(object_members(map)),
{
    match serde_json::from_str::<serde_json::Value>(content) {
        Ok(serde_json::Value::Object(map)) => Ok(Some(map)),
        Ok(_) => Ok(None),
        Err(e) => Err(e),
    }
}

/// `serde_json::Map::new`: the object without members.
#[verifier::external_body]
pub(crate) fn empty_object() -> (map: JsonObject)
    ensures
        object_members(map) == Seq::<(Seq<char>, Seq<char>)>::empty(),
{
    serde_json::Map::new()
}

/// `serde_json::Map::iter`: the members handed out in the map's order, each
/// value through its `Display` (compact form). No key comes twice.
#[verifier::external_body]
pub(crate) fn members_of(map: &JsonObject) -> (members: Vec<(String, String)>)
    ensures
        members.deep_view() == object_members(*map),
        distinct_keys(members.deep_view()),
{
    map.iter().map(|(key, value)| (key.clone(), value.to_string())).collect()
}

/// `serde_json::Map::get`: the value of the member with the given key,
/// handed out through its `Display` (compact form); `None` where the object
/// has no such member.
#[verifier::external_body]
pub(crate) fn member_text(map: &JsonObject, key: &str) -> (text: Option<String>)
    ensures
        text.deep_view() == lookup(object_members(*map), key@),
{
    map.get(key).map(|value| value.to_string())
}

/// The `Display` of `serde_json::Value::String`: the compact JSON text of a
/// string, a function of the string alone.
#[verifier::external_body]
pub(crate) fn json_string(s: &str) -> (out: String)
    ensures
        out@ == json_string_text(s@),
{
    serde_json::Value::String(s.to_owned()).to_string()
}

/// `serde_json::from_str` into a `serde_json::Value`, and
/// `serde_json::Map::insert` of it under the key. It fails exactly where
/// the text is no JSON, and the object is then as it was. Else the member
/// is inserted: where the object had the key, its value is replaced, and
/// every other member stays.
#[verifier::external_body]
pub(crate) fn insert_member(map: &mut JsonObject, key: &str, json: &str) -> (out: Result<
    (),
    serde_json::Error,
>)
    ensures
        out is Ok <==> json_compact(json@) is Some,
        out is Err ==> object_members(*final(map)) == object_members(*old(map)),
        out is Ok ==> object_members(*final(map)) == object_with(
            object_members(*old(map)),
            key@,
            json_compact(json@)->0,
        ),
        out is Ok ==> is_insertion(
            object_members(*old(map)),
            key@,
            json_compact(json@)->0,
            object_members(*final(map)),
        ),
{
    let value = serde_json::from_str::<serde_json::Value>(json)?;
    map.insert(key.to_owned(), value);
    Ok(())
}

/// `serde_json::to_string_pretty` of an object: the outcome is a function
/// of what the object holds.
#[verifier::external_body]
pub(crate) fn pretty_text(map: &JsonObject) -> (out: Result<String, serde_json::Error>)
    ensures
        match out {
            Ok(text) => pretty_members(object_members(*map)) == Some(text@),
            Err(_) => pretty_members(object_members(*map)) is None,
        },
{
    serde_json::to_string_pretty(map)
}

/// The pretty-printed JSON object filled with the given members one after
/// the other, each value read from its JSON text. It fails exactly where
/// the object cannot be made. The object printed holds every key once, with
/// the value of the last member of that key.
pub fn to_pretty_object(members: &Vec<(String, String)>) -> (out: Result<
    String,
    serde_json::Error,
>)
    ensures
        match out {
            Ok(text) => pretty_object(members.deep_view()) == Some(text@),
            Err(_) => pretty_object(members.deep_view()) is None,
        },
        out is Ok ==> holds_each_last(members.deep_view(), filled(members.deep_view())->0),
{
    let mut map = empty_object();
    let mut i: usize = 0;
    assert(members.deep_view().take(0) =~= Seq::<(Text, Text)>::empty());
    while i < members.len()
        invariant
            i <= members.len(),
            filled(members.deep_view().take(i as int)) == Some(object_members(map)),
            holds_each_last(members.deep_view().take(i as int), object_members(map)),
        decreases members.len() - i,
    {
        let ghost before = object_members(map);
        let ghost upto = members.deep_view().take(i + 1);
        proof {
            assert(upto.drop_last() == members.deep_view().take(i as int));
            assert(upto.last() == (members[i as int].0@, members[i as int].1@));
        }
        match insert_member(&mut map, members[i].0.as_str(), members[i].1.as_str()) {
            Ok(_) => {
                assert forall|k: Text| #[trigger]
                    lookup(object_members(map), k) == last_compact(upto, k) by {
                    assert(lookup(before, k) == last_compact(upto.drop_last(), k));
                }
            },
            Err(e) => {
                proof {
                    lemma_filled_none(members.deep_view(), i + 1);
                }
                return Err(e);
            },
        }
        i += 1;
    }
    assert(members.deep_view().take(members.len() as int) == members.deep_view());
    pretty_text(&map)
}

/// A text with every double quote taken out.
pub open spec fn without_quotes(s: Seq<char>) -> Seq<char> {
    s.filter(|c: char| c != '"')
}

/// The plain text shown and edited for a value: its compact JSON text with
/// every double quote removed.
pub fn format_json_value(value: &str) -> (out: String)
    ensures
        out@ == without_quotes(value@),
{
    let chars = chars_of(value);
    let mut kept: Vec<char> = Vec::new();
    let mut i: usize = 0;
    while i < chars.len()
        invariant
            i <= chars.len(),
            kept@ == without_quotes(chars@.take(i as int)),
        decreases chars.len() - i,
    {
        proof {
            reveal(Seq::filter);
            assert(chars@.take(i + 1).drop_last() == chars@.take(i as int));
        }
        if chars[i] != '"' {
            kept.push(chars[i]);
        }
        i += 1;
    }
    proof {
        reveal(Seq::filter);
        assert(chars@.take(chars.len() as int) == chars@);
    }
    string_of(&kept)
}

} // verus!
