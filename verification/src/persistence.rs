//! What is written and read when a document is saved and reopened.
//!
//! The engine touches no file. A save is handed out as a plan: the effects
//! to perform, in order, stopping at the first that fails. What a plan was
//! made for takes effect only when the caller reports that it is done.
//! Reading goes the other way: the caller hands in what the files hold.

use vstd::prelude::*;
use crate::entries::{toggled, Entry, EntryView};
use crate::json::{
    empty_object, filled, holds_each_last, json_object, members_of, object_members,
    parse_object, pretty_object, to_pretty_object, JsonObject, Members, Text,
};
use crate::ledger::{collect_completed_keys, collect_keys_after_toggle, completed_keys};
use crate::session::EditingState;
use crate::text::distinct_keys;

verus! {

/// One step of a save.
#[derive(Clone, Debug, PartialEq, Eq)]
pub enum Effect {
    /// Write the text as the translated snapshot of the document, creating
    /// its directory where needed.
    WriteSnapshot { text: String },
    /// Write the structured ledger of the document with these keys, stamped
    /// with the time of the write.
    WriteLedger { keys: Vec<String> },
    /// Delete the legacy ledger of the document, if there is one.
    RemoveLegacyLedger,
}

/// A step of a save as contracts see it.
pub enum EffectView {
    WriteSnapshot { text: Text },
    WriteLedger { keys: Seq<Text> },
    RemoveLegacyLedger,
}

impl View for Effect {
    type V = EffectView;

    open spec fn view(&self) -> EffectView {
        match self {
            Effect::WriteSnapshot { text } => EffectView::WriteSnapshot { text: text@ },
            Effect::WriteLedger { keys } => EffectView::WriteLedger { keys: keys.deep_view() },
            Effect::RemoveLegacyLedger => EffectView::RemoveLegacyLedger,
        }
    }
}

impl DeepView for Effect {
    type V = EffectView;

    open spec fn deep_view(&self) -> EffectView {
        self@
    }
}

/// Why a save was not planned.
#[derive(Debug)]
pub enum SaveError {
    /// The snapshot could not be serialised.
    Snapshot(serde_json::Error),
}

/// Why a document was not opened.
#[derive(Debug)]
pub enum LoadError {
    /// The source is no JSON.
    InvalidJson(serde_json::Error),
    /// The source is JSON, but no object.
    NotAnObject,
    /// No document is opened but from the list of documents.
    NotSelecting,
}

/// The members of the snapshot: for every entry, marked or not, its key and
/// its translation.
pub open spec fn snapshot_members(entries: Seq<EntryView>) -> Members {
    Seq::new(entries.len(), |i: int| (entries[i].key, entries[i].translated))
}

/// The plan that writes the ledger: the structured ledger with the keys of
/// the marked entries, then the removal of the legacy ledger.
pub open spec fn ledger_plan(entries: Seq<EntryView>) -> Seq<EffectView> {
    seq![
        EffectView::WriteLedger { keys: completed_keys(entries) },
        EffectView::RemoveLegacyLedger,
    ]
}

/// The plan of a save: the snapshot, and right after it the ledger.
pub open spec fn save_plan(snapshot: Text, entries: Seq<EntryView>) -> Seq<EffectView> {
    seq![EffectView::WriteSnapshot { text: snapshot }] + ledger_plan(entries)
}

/// In a plan, every write of a snapshot is followed at once by a write of
/// the ledger.
pub open spec fn ledger_follows_snapshot(plan: Seq<EffectView>) -> bool {
    forall|i: int|
        0 <= i < plan.len() && #[trigger] plan[i] is WriteSnapshot ==> i + 1 < plan.len() && plan[i
            + 1] is WriteLedger
}

/// What a prior snapshot gives to merge: its members where the file is there
/// and holds a JSON object, else nothing.
pub open spec fn prior_members(content: Option<Text>) -> Members {
    match content {
        Some(text) => match json_object(text) {
            Ok(Some(members)) => members,
            _ => Seq::empty(),
        },
        None => Seq::empty(),
    }
}

/// The plans of a save keep the snapshot and the ledger together.
pub proof fn lemma_plans_keep_together(snapshot: Text, entries: Seq<EntryView>)
    ensures
        ledger_follows_snapshot(ledger_plan(entries)),
        ledger_follows_snapshot(save_plan(snapshot, entries)),
{
    let plan = save_plan(snapshot, entries);
    assert(plan[1] is WriteLedger);
}

/// The key and the translation of every entry.
pub fn collect_snapshot(entries: &Vec<Entry>) -> (members: Vec<(String, String)>)
    ensures
        members.deep_view() == snapshot_members(entries.deep_view()),
{
    let mut members: Vec<(String, String)> = Vec::new();
    let mut i: usize = 0;
    while i < entries.len()
        invariant
            i <= entries.len(),
            members.len() == i,
            forall|k: int|
                0 <= k < i ==> members[k].0@ == entries[k].key@ && members[k].1@
                    == entries[k].translated@,
        decreases entries.len() - i,
    {
        members.push((entries[i].key.clone(), entries[i].translated.clone()));
        i += 1;
    }
    assert(members.deep_view() =~= snapshot_members(entries.deep_view()));
    members
}

/// The plan that writes the ledger: the keys of the marked entries, in
/// order, then the removal of the legacy ledger.
pub fn save_translated_keys(entries: &Vec<Entry>) -> (plan: Vec<Effect>)
    ensures
        plan.deep_view() == ledger_plan(entries.deep_view()),
{
    let mut plan: Vec<Effect> = Vec::new();
    plan.push(Effect::WriteLedger { keys: collect_completed_keys(entries) });
    plan.push(Effect::RemoveLegacyLedger);
    assert(plan.deep_view() =~= ledger_plan(entries.deep_view()));
    plan
}

/// The plan that writes the ledger as it is to be once the mark of entry
/// `index` is flipped. The entries stay as they are: the flip takes effect
/// when the plan has been performed.
pub fn toggle_effects(entries: &Vec<Entry>, index: usize) -> (plan: Vec<Effect>)
    ensures
        plan.deep_view() == ledger_plan(toggled(entries.deep_view(), index as int)),
{
    let mut plan: Vec<Effect> = Vec::new();
    plan.push(Effect::WriteLedger { keys: collect_keys_after_toggle(entries, index) });
    plan.push(Effect::RemoveLegacyLedger);
    assert(plan.deep_view() =~= ledger_plan(toggled(entries.deep_view(), index as int)));
    plan
}

/// The plan of a save with the given snapshot text.
pub fn save_effects(snapshot: String, entries: &Vec<Entry>) -> (plan: Vec<Effect>)
    ensures
        plan.deep_view() == save_plan(snapshot@, entries.deep_view()),
{
    let mut plan: Vec<Effect> = Vec::new();
    plan.push(Effect::WriteSnapshot { text: snapshot });
    plan.push(Effect::WriteLedger { keys: collect_completed_keys(entries) });
    plan.push(Effect::RemoveLegacyLedger);
    assert(plan.deep_view() =~= save_plan(snapshot@, entries.deep_view()));
    plan
}

/// The plan of a save: the snapshot with the key and the translation of
/// every entry, marked or not, pretty-printed, and right after it the
/// ledger. It fails, with nothing planned, exactly where the snapshot cannot
/// be serialised. The object that the snapshot text prints holds every key
/// of the entries once, with the value of the last entry of that key.
pub fn save_translated_json(state: &EditingState) -> (out: Result<Vec<Effect>, SaveError>)
    ensures
        match out {
            Ok(plan) => pretty_object(snapshot_members(state@.entries)) matches Some(text)
                && plan.deep_view() == save_plan(text, state@.entries),
            Err(_) => pretty_object(snapshot_members(state@.entries)) is None,
        },
        out is Ok ==> holds_each_last(
            snapshot_members(state@.entries),
            filled(snapshot_members(state@.entries))->0,
        ),
{
    let members = collect_snapshot(&state.entries);
    match to_pretty_object(&members) {
        Ok(text) => Ok(save_effects(text, &state.entries)),
        Err(e) => Err(SaveError::Snapshot(e)),
    }
}

/// The prior snapshot of a document, to merge into it when it is reopened.
/// A snapshot that is missing, or that is no JSON object, gives the object
/// without members.
pub fn load_existing_translations(content: Option<&str>) -> (snapshot: JsonObject)
    ensures
        object_members(snapshot) == prior_members(
            match content {
                Some(text) => Some(text@),
                None => None,
            },
        ),
{
    let parsed = match content {
        Some(text) => parse_object(text),
        None => Ok(None),
    };
    match parsed {
        Ok(Some(map)) => map,
        _ => empty_object(),
    }
}

/// The members of a source document, in the order of the parsed object. It
/// fails where the text is no JSON, and where it is JSON but no object. The
/// keys of the members are pairwise distinct.
pub fn parse_document(content: &str) -> (out: Result<Vec<(String, String)>, LoadError>)
    ensures
        match json_object(content@) {
            Ok(Some(members)) => out matches Ok(document) && document.deep_view() == members
                && distinct_keys(members),
            Ok(None) => out matches Err(LoadError::NotAnObject),
            Err(_) => out matches Err(LoadError::InvalidJson(_)),
        },
{
    match parse_object(content) {
        Ok(Some(map)) => Ok(members_of(&map)),
        Ok(None) => Err(LoadError::NotAnObject),
        Err(e) => Err(LoadError::InvalidJson(e)),
    }
}

} // verus!
