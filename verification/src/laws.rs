//! What holds of the engine as a whole.

use vstd::prelude::*;
use crate::app::{AppView, RequestView};
use crate::cursor::{selection_down, selection_up};
use crate::entries::{keys_of, lemma_count_bounded, loaded_entries, EntryView};
use crate::handlers::{app_step, is_outcome};
use crate::json::{
    holds_each_last, json_compact, json_object, last_compact, Members, Text,
};
use crate::keys::Key;
use crate::ledger::{completed_keys, merged_keys, LedgerView};
use crate::persistence::{ledger_follows_snapshot, prior_members, snapshot_members};
use crate::search::matching;
use crate::session::{lemma_step_wf, lemma_toggle_wf, EditingView};
use crate::text::lookup;

verus! {

/// The members of the source document that the entries were loaded from:
/// for every entry its key and its original.
pub open spec fn source_members(entries: Seq<EntryView>) -> Members {
    Seq::new(entries.len(), |i: int| (entries[i].key, entries[i].original))
}

/// Flipping the mark of an entry twice gives the session back as it was,
/// the mark and the counter of marked entries included.
pub proof fn lemma_toggle_twice(s: EditingView, index: int)
    ensures
        s.toggle(index).toggle(index) == s,
{
    if 0 <= index < s.entries.len() {
        assert(s.toggle(index).toggle(index).entries =~= s.entries);
    }
}

/// A document opened for the first time, with no snapshot and no ledger,
/// has every translation equal to its original, and no entry marked.
pub proof fn lemma_first_load(document: Members)
    ensures
        forall|i: int|
            0 <= i < document.len() ==> {
                let entry = #[trigger] loaded_entries(document, Seq::empty(), Seq::empty())[i];
                &&& entry.key == document[i].0
                &&& entry.original == document[i].1
                &&& entry.translated == entry.original
                &&& !entry.is_translated
            },
{
}

/// Storing a translation changes the translation of that entry and nothing
/// else: no key, no original, no mark, and no other translation.
pub proof fn lemma_store_changes_one(s: EditingView, index: int, json: Text)
    requires
        0 <= index < s.entries.len(),
    ensures
        s.store_translated(index, json).entries.len() == s.entries.len(),
        s.store_translated(index, json).entries[index].translated == json,
        s.store_translated(index, json).translated_keys == s.translated_keys,
        forall|i: int|
            0 <= i < s.entries.len() ==> {
                let after = #[trigger] s.store_translated(index, json).entries[i];
                &&& after.key == s.entries[i].key
                &&& after.original == s.entries[i].original
                &&& after.is_translated == s.entries[i].is_translated
                &&& i != index ==> after.translated == s.entries[i].translated
            },
{
}

/// The empty query has no match and selects nothing, whatever the entries
/// are.
pub proof fn lemma_empty_query(s: EditingView)
    requires
        s.search_query.len() == 0,
    ensures
        matching(keys_of(s.entries), s.search_query).len() == 0,
        s.searched().search_results.len() == 0,
        s.searched().search_selection is None,
{
}

/// The selection among the matches does not wrap around: up from the first
/// match, and down from the last, give no selection.
pub proof fn lemma_selection_stops(count: int)
    requires
        count > 0,
    ensures
        selection_up(Some(0), count) is None,
        selection_down(Some(count - 1), count) is None,
{
}

/// In search mode with at least one match, up from the first match and down
/// from the last leave no match selected.
pub proof fn lemma_search_stops(s: EditingView)
    requires
        s.wf(),
        s.search_mode,
        s.search_results.len() > 0,
    ensures
        s.search_selection == Some(0int) ==> s.step(Key::Up).search_selection is None,
        s.search_selection == Some(s.search_results.len() - 1) ==> s.step(
            Key::Down,
        ).search_selection is None,
{
}

/// No key adds or removes an entry, or changes a key or an original: the
/// keys stay those of the source document, and they stay pairwise distinct.
pub proof fn lemma_step_keeps_document(s: EditingView, key: Key)
    ensures
        s.step(key).entries.len() == s.entries.len(),
        forall|i: int|
            0 <= i < s.entries.len() ==> (#[trigger] s.step(key).entries[i]).key
                == s.entries[i].key && s.step(key).entries[i].original == s.entries[i].original,
        keys_of(s.step(key).entries) == keys_of(s.entries),
        s.keys_distinct() ==> s.step(key).keys_distinct(),
{
    assert(keys_of(s.step(key).entries) =~= keys_of(s.entries));
}

/// Every key keeps the invariant of the application: in particular the
/// counter of marked entries equals a recount after every key.
pub proof fn lemma_app_step_wf(app: AppView, key: Key)
    requires
        app.wf(),
    ensures
        app_step(app, key).wf(),
{
    match app.editing {
        Some(session) => {
            lemma_step_wf(session, key);
        },
        None => {},
    }
}

/// Whatever a key asks for, a write of the snapshot is followed at once by a
/// write of the ledger.
pub proof fn lemma_requests_keep_together(app: AppView, key: Key, out: Result<RequestView, ()>)
    requires
        is_outcome(app, key, out),
    ensures
        out matches Ok(RequestView::Save { effects }) ==> ledger_follows_snapshot(effects),
        out matches Ok(RequestView::Toggle { effects, .. }) ==> ledger_follows_snapshot(effects),
{
    match out {
        Ok(RequestView::Save { effects }) => {
            assert(effects.len() == 3);
            assert(effects[1] is WriteLedger);
        },
        Ok(RequestView::Toggle { effects, .. }) => {
            assert(effects.len() == 2);
        },
        _ => {},
    }
}

/// With pairwise distinct keys, each key finds its own value.
pub proof fn lemma_lookup_own(pairs: Members, i: int)
    requires
        0 <= i < pairs.len(),
        forall|a: int, b: int| 0 <= a < b < pairs.len() ==> pairs[a].0 != pairs[b].0,
    ensures
        lookup(pairs, pairs[i].0) == Some(pairs[i].1),
    decreases i,
{
    if i > 0 {
        let rest = pairs.drop_first();
        assert(pairs[0].0 != pairs[i].0);
        assert forall|a: int, b: int| 0 <= a < b < rest.len() implies rest[a].0 != rest[b].0 by {
            assert(rest[a] == pairs[a + 1]);
            assert(rest[b] == pairs[b + 1]);
        }
        assert(rest[i - 1] == pairs[i]);
        lemma_lookup_own(rest, i - 1);
    }
}

/// A key is among the completed keys iff some entry with that key is marked.
pub proof fn lemma_completed_keys(entries: Seq<EntryView>, key: Text)
    ensures
        completed_keys(entries).contains(key) <==> exists|i: int|
            0 <= i < entries.len() && (#[trigger] entries[i]).key == key
                && entries[i].is_translated,
    decreases entries.len(),
{
    if entries.len() > 0 {
        let shorter = entries.drop_last();
        let last = entries.last();
        lemma_completed_keys(shorter, key);
        let all = completed_keys(entries);
        let before = completed_keys(shorter);
        if all.contains(key) {
            let k = choose|k: int| 0 <= k < all.len() && all[k] == key;
            if last.is_translated && k == all.len() - 1 {
                assert(entries[entries.len() - 1].key == key);
            } else {
                assert(before[k] == key);
                assert(before.contains(key));
                let i = choose|i: int|
                    0 <= i < shorter.len() && (#[trigger] shorter[i]).key == key
                        && shorter[i].is_translated;
                assert(entries[i] == shorter[i]);
            }
        }
        if exists|i: int|
            0 <= i < entries.len() && (#[trigger] entries[i]).key == key
                && entries[i].is_translated {
            let i = choose|i: int|
                0 <= i < entries.len() && (#[trigger] entries[i]).key == key
                    && entries[i].is_translated;
            if i == entries.len() - 1 {
                assert(all[all.len() - 1] == key);
            } else {
                assert(shorter[i] == entries[i]);
                assert(before.contains(key));
                let k = choose|k: int| 0 <= k < before.len() && before[k] == key;
                assert(all[k] == key);
            }
        }
    }
}

/// Among members of pairwise distinct keys, the last member of a key is the
/// only one: its value is what the key stands for.
pub proof fn lemma_last_compact_own(members: Members, i: int)
    requires
        0 <= i < members.len(),
        forall|a: int, b: int| 0 <= a < b < members.len() ==> members[a].0 != members[b].0,
    ensures
        last_compact(members, members[i].0) == json_compact(members[i].1),
    decreases members.len(),
{
    if i < members.len() - 1 {
        let shorter = members.drop_last();
        assert(members[i].0 != members[members.len() - 1].0);
        assert(shorter[i] == members[i]);
        lemma_last_compact_own(shorter, i);
    }
}

/// A key that stands for a value is the key of a member.
pub proof fn lemma_last_compact_some(members: Members, key: Text)
    requires
        last_compact(members, key) is Some,
    ensures
        exists|i: int| 0 <= i < members.len() && (#[trigger] members[i]).0 == key,
    decreases members.len(),
{
    if members.len() > 0 {
        if members.last().0 == key {
            assert(members[members.len() - 1].0 == key);
        } else {
            let shorter = members.drop_last();
            lemma_last_compact_some(shorter, key);
            let i = choose|i: int| 0 <= i < shorter.len() && (#[trigger] shorter[i]).0 == key;
            assert(members[i] == shorter[i]);
        }
    }
}

/// What a saved snapshot holds. Where no two entries have the same key, the
/// object filled from the entries has for the key of every entry the value
/// read from its translation, and no key that is not the key of an entry.
pub proof fn lemma_snapshot_holds_entries(entries: Seq<EntryView>, held: Members)
    requires
        keys_of(entries).no_duplicates(),
        holds_each_last(snapshot_members(entries), held),
    ensures
        forall|i: int|
            0 <= i < entries.len() ==> lookup(held, (#[trigger] entries[i]).key) == json_compact(
                entries[i].translated,
            ),
        forall|key: Text| #[trigger]
            lookup(held, key) is Some ==> keys_of(entries).contains(key),
{
    let members = snapshot_members(entries);
    assert forall|a: int, b: int| 0 <= a < b < members.len() implies members[a].0
        != members[b].0 by {
        assert(keys_of(entries)[a] == entries[a].key);
        assert(keys_of(entries)[b] == entries[b].key);
    }
    assert forall|i: int| 0 <= i < entries.len() implies lookup(held, (#[trigger] entries[i]).key)
        == json_compact(entries[i].translated) by {
        lemma_last_compact_own(members, i);
        assert(members[i] == (entries[i].key, entries[i].translated));
    }
    assert forall|key: Text| #[trigger] lookup(held, key) is Some implies keys_of(
        entries,
    ).contains(key) by {
        lemma_last_compact_some(members, key);
        let i = choose|i: int| 0 <= i < members.len() && (#[trigger] members[i]).0 == key;
        assert(keys_of(entries)[i] == key);
    }
}

/// Flipping the mark of an entry flips that mark, moves the counter of
/// marked entries by one, and changes nothing else: no key, no original, no
/// translation, no other mark, no cursor, and not the number of entries.
pub proof fn lemma_toggle_changes_one(s: EditingView, index: int)
    requires
        s.wf(),
        0 <= index < s.entries.len(),
    ensures
        s.toggle(index).wf(),
        s.toggle(index).entries[index].is_translated == !s.entries[index].is_translated,
        s.toggle(index).translated_keys == s.translated_keys + if s.entries[index].is_translated {
            -1int
        } else {
            1int
        },
        0 <= s.toggle(index).translated_keys <= s.toggle(index).total_keys,
        s.toggle(index).total_keys == s.total_keys,
        s.toggle(index).selected == s.selected,
        s.toggle(index).entries.len() == s.entries.len(),
        forall|i: int|
            0 <= i < s.entries.len() ==> {
                let after = #[trigger] s.toggle(index).entries[i];
                &&& after.key == s.entries[i].key
                &&& after.original == s.entries[i].original
                &&& after.translated == s.entries[i].translated
                &&& i != index ==> after.is_translated == s.entries[i].is_translated
            },
{
    lemma_toggle_wf(s, index);
    lemma_count_bounded(s.toggle(index).entries);
}

/// Saving and reopening gives the entries back. Where no two entries have
/// the same key, loading the source document with the members of the saved
/// snapshot and the keys of the saved ledger gives every entry with the key,
/// the original, the translation and the mark that it had.
pub proof fn lemma_save_then_reload(entries: Seq<EntryView>)
    requires
        keys_of(entries).no_duplicates(),
    ensures
        loaded_entries(
            source_members(entries),
            snapshot_members(entries),
            completed_keys(entries),
        ) == entries,
{
    let document = source_members(entries);
    let snapshot = snapshot_members(entries);
    let ledger = completed_keys(entries);
    let again = loaded_entries(document, snapshot, ledger);
    assert forall|i: int| 0 <= i < entries.len() implies again[i] == entries[i] by {
        assert forall|a: int, b: int| 0 <= a < b < snapshot.len() implies snapshot[a].0
            != snapshot[b].0 by {
            assert(keys_of(entries)[a] == entries[a].key);
            assert(keys_of(entries)[b] == entries[b].key);
        }
        lemma_lookup_own(snapshot, i);
        lemma_completed_keys(entries, entries[i].key);
        if ledger.contains(entries[i].key) {
            let j = choose|j: int|
                0 <= j < entries.len() && (#[trigger] entries[j]).key == entries[i].key
                    && entries[j].is_translated;
            assert(keys_of(entries)[i] == entries[i].key);
            assert(keys_of(entries)[j] == entries[j].key);
            assert(i == j);
        }
    }
    assert(again =~= entries);
}

/// The ledger that a save hands out gives its keys back when it is read
/// again as the structured ledger, whatever the time stamp and whatever a
/// legacy ledger holds.
pub proof fn lemma_ledger_read_back(entries: Seq<EntryView>, stamp: Text, legacy: Option<Text>)
    ensures
        merged_keys(
            Some(LedgerView { keys: completed_keys(entries), last_updated: stamp }),
            legacy,
        ) == completed_keys(entries),
{
}

/// What is left open of saving and reopening is the reading of the snapshot
/// text. Where reading a text gives the members `held` of the object that
/// the save printed, and every translation is its own compact JSON text,
/// reopening the document with that text and the saved keys gives every
/// entry back.
pub proof fn lemma_reload_from_text(entries: Seq<EntryView>, text: Text, held: Members)
    requires
        keys_of(entries).no_duplicates(),
        holds_each_last(snapshot_members(entries), held),
    ensures
        json_object(text) == Ok::<Option<Members>, ()>(Some(held)) && (forall|i: int|
            0 <= i < entries.len() ==> json_compact((#[trigger] entries[i]).translated) == Some(
                entries[i].translated,
            )) ==> loaded_entries(
            source_members(entries),
            prior_members(Some(text)),
            completed_keys(entries),
        ) == entries,
{
    if json_object(text) == Ok::<Option<Members>, ()>(Some(held)) && (forall|i: int|
        0 <= i < entries.len() ==> json_compact((#[trigger] entries[i]).translated) == Some(
            entries[i].translated,
        )) {
        lemma_snapshot_holds_entries(entries, held);
        let ledger = completed_keys(entries);
        let again = loaded_entries(source_members(entries), held, ledger);
        assert forall|i: int| 0 <= i < entries.len() implies again[i] == entries[i] by {
            assert(lookup(held, entries[i].key) == json_compact(entries[i].translated));
            lemma_completed_keys(entries, entries[i].key);
            if ledger.contains(entries[i].key) {
                let j = choose|j: int|
                    0 <= j < entries.len() && (#[trigger] entries[j]).key == entries[i].key
                        && entries[j].is_translated;
                assert(keys_of(entries)[i] == entries[i].key);
                assert(keys_of(entries)[j] == entries[j].key);
                assert(i == j);
            }
        }
        assert(again =~= entries);
    }
}

} // verus!
