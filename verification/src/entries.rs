//! The entry store: one entry per key of the open document.

use vstd::prelude::*;
use crate::json::{member_text, object_members, JsonObject, Members, Text};
use crate::text::{has_key, lookup};

verus! {

/// One translation unit. `original` and `translated` hold compact JSON text.
#[derive(Clone, Debug, PartialEq, Eq)]
pub struct Entry {
    pub key: String,
    pub original: String,
    pub translated: String,
    pub is_translated: bool,
}

/// An entry as contracts see it.
pub struct EntryView {
    pub key: Text,
    pub original: Text,
    pub translated: Text,
    pub is_translated: bool,
}

impl View for Entry {
    type V = EntryView;

    open spec fn view(&self) -> EntryView {
        EntryView {
            key: self.key@,
            original: self.original@,
            translated: self.translated@,
            is_translated: self.is_translated,
        }
    }
}

impl DeepView for Entry {
    type V = EntryView;

    open spec fn deep_view(&self) -> EntryView {
        self@
    }
}

/// The number of entries marked as translated.
pub open spec fn count_translated(entries: Seq<EntryView>) -> nat
    decreases entries.len(),
{
    if entries.len() == 0 {
        0
    } else {
        count_translated(entries.drop_last()) + if entries.last().is_translated {
            1nat
        } else {
            0nat
        }
    }
}

/// The number of members of `document` whose key is among `completed`.
pub open spec fn keys_in_ledger(document: Members, completed: Seq<Text>) -> nat
    decreases document.len(),
{
    if document.len() == 0 {
        0
    } else {
        keys_in_ledger(document.drop_last(), completed) + if completed.contains(
            document.last().0,
        ) {
            1nat
        } else {
            0nat
        }
    }
}

/// The entry that a member of the source document is loaded as: the
/// translation is the value that the prior snapshot has for the key, or else
/// the original; it is marked iff its key is among the completed keys.
pub open spec fn loaded_entry(
    member: (Text, Text),
    prior_snapshot: Members,
    completed: Seq<Text>,
) -> EntryView {
    EntryView {
        key: member.0,
        original: member.1,
        translated: match lookup(prior_snapshot, member.0) {
            Some(text) => text,
            None => member.1,
        },
        is_translated: completed.contains(member.0),
    }
}

/// The entries of a document: one per member, in the document's order.
pub open spec fn loaded_entries(
    document: Members,
    prior_snapshot: Members,
    completed: Seq<Text>,
) -> Seq<EntryView> {
    Seq::new(document.len(), |i: int| loaded_entry(document[i], prior_snapshot, completed))
}

/// The entries with the mark of entry `index` flipped; unchanged where there
/// is no such entry.
pub open spec fn toggled(entries: Seq<EntryView>, index: int) -> Seq<EntryView> {
    if 0 <= index < entries.len() {
        entries.update(
            index,
            EntryView { is_translated: !entries[index].is_translated, ..entries[index] },
        )
    } else {
        entries
    }
}

/// The entries with the translation of entry `index` replaced by `text`;
/// unchanged where there is no such entry.
pub open spec fn with_translated(entries: Seq<EntryView>, index: int, text: Text) -> Seq<
    EntryView,
> {
    if 0 <= index < entries.len() {
        entries.update(index, EntryView { translated: text, ..entries[index] })
    } else {
        entries
    }
}

/// The keys of the entries, in order.
pub open spec fn keys_of(entries: Seq<EntryView>) -> Seq<Text> {
    entries.map_values(|e: EntryView| e.key)
}

/// No more entries are marked than there are.
pub proof fn lemma_count_bounded(entries: Seq<EntryView>)
    ensures
        count_translated(entries) <= entries.len(),
    decreases entries.len(),
{
    if entries.len() > 0 {
        lemma_count_bounded(entries.drop_last());
    }
}

/// Pushing an entry adds one to the count iff the entry is marked.
pub proof fn lemma_count_push(entries: Seq<EntryView>, e: EntryView)
    ensures
        count_translated(entries.push(e)) == count_translated(entries) + if e.is_translated {
            1nat
        } else {
            0nat
        },
{
    assert(entries.push(e).drop_last() == entries);
}

/// Replacing one entry changes the count by the difference of the two marks.
pub proof fn lemma_count_update(entries: Seq<EntryView>, index: int, e: EntryView)
    requires
        0 <= index < entries.len(),
    ensures
        count_translated(entries.update(index, e)) + (if entries[index].is_translated {
            1nat
        } else {
            0nat
        }) == count_translated(entries) + (if e.is_translated {
            1nat
        } else {
            0nat
        }),
    decreases entries.len(),
{
    let after = entries.update(index, e);
    if index == entries.len() - 1 {
        assert(after.drop_last() == entries.drop_last());
    } else {
        lemma_count_update(entries.drop_last(), index, e);
        assert(after.drop_last() == entries.drop_last().update(index, e));
    }
}

/// After a load, the marked entries are as many as the keys of the document
/// that the ledger holds.
pub proof fn lemma_loaded_count(document: Members, prior_snapshot: Members, completed: Seq<Text>)
    ensures
        count_translated(loaded_entries(document, prior_snapshot, completed)) == keys_in_ledger(
            document,
            completed,
        ),
    decreases document.len(),
{
    let all = loaded_entries(document, prior_snapshot, completed);
    if document.len() > 0 {
        lemma_loaded_count(document.drop_last(), prior_snapshot, completed);
        assert(all.drop_last() == loaded_entries(document.drop_last(), prior_snapshot, completed));
    }
}

/// Counts the entries that are marked as translated.
pub fn count_marked(entries: &Vec<Entry>) -> (count: usize)
    ensures
        count == count_translated(entries.deep_view()),
{
    let mut count: usize = 0;
    let mut i: usize = 0;
    while i < entries.len()
        invariant
            i <= entries.len(),
            count == count_translated(entries.deep_view().take(i as int)),
            count <= i,
        decreases entries.len() - i,
    {
        proof {
            let upto = entries.deep_view().take(i + 1);
            assert(upto.drop_last() == entries.deep_view().take(i as int));
            assert(upto.last() == entries[i as int]@);
        }
        if entries[i].is_translated {
            count += 1;
        }
        i += 1;
    }
    assert(entries.deep_view().take(entries.len() as int) == entries.deep_view());
    count
}

/// Builds the entries of a document, and counts the marked ones.
pub fn load_entries(
    document: &Vec<(String, String)>,
    prior_snapshot: &JsonObject,
    completed_keys: &Vec<String>,
) -> (out: (Vec<Entry>, usize))
    ensures
        out.0.deep_view() == loaded_entries(
            document.deep_view(),
            object_members(*prior_snapshot),
            completed_keys.deep_view(),
        ),
        out.1 == count_translated(out.0.deep_view()),
        out.1 == keys_in_ledger(document.deep_view(), completed_keys.deep_view()),
{
    let ghost doc = document.deep_view();
    let ghost snap = object_members(*prior_snapshot);
    let ghost done = completed_keys.deep_view();
    let mut entries: Vec<Entry> = Vec::new();
    let mut translated_count: usize = 0;
    let mut i: usize = 0;
    while i < document.len()
        invariant
            i <= document.len(),
            doc == document.deep_view(),
            snap == object_members(*prior_snapshot),
            done == completed_keys.deep_view(),
            entries.deep_view() == loaded_entries(doc.take(i as int), snap, done),
            translated_count == count_translated(entries.deep_view()),
        decreases document.len() - i,
    {
        let key = document[i].0.clone();
        let original = document[i].1.clone();
        let is_translated = has_key(completed_keys, key.as_str());
        let translated = match member_text(prior_snapshot, key.as_str()) {
            Some(text) => text,
            None => original.clone(),
        };
        let entry = Entry { key, original, translated, is_translated };
        proof {
            let before = entries.deep_view();
            assert(doc[i as int] == (document[i as int].0@, document[i as int].1@));
            assert(entry@ == loaded_entry(doc[i as int], snap, done));
            lemma_count_bounded(before);
            lemma_count_push(before, entry@);
            assert(loaded_entries(doc.take(i + 1), snap, done) == before.push(entry@));
        }
        let ghost before = entries.deep_view();
        entries.push(entry);
        assert(entries.deep_view() == before.push(entry@));
        if is_translated {
            translated_count += 1;
        }
        i += 1;
    }
    proof {
        assert(doc.take(document.len() as int) == doc);
        lemma_loaded_count(doc, snap, done);
    }
    (entries, translated_count)
}

} // verus!
