//! The session: one open document, its entries, cursor, search and draft.

use vstd::prelude::*;
use crate::cursor::{
    indices, move_row_down, move_row_up, move_selection_down, move_selection_up, opt_index,
    row_down, row_up, same_positions, selection_down, selection_up, SelectionState,
};
use crate::draft::{draft_after, edit_draft, lemma_draft_caret};
use crate::entries::{
    count_marked, count_translated, keys_in_ledger, keys_of, lemma_count_bounded,
    lemma_count_update, load_entries, loaded_entries, toggled, with_translated, Entry, EntryView,
};
use crate::json::{
    format_json_value, json_string, json_string_text, object_members, without_quotes,
    JsonObject, Members, Text,
};
use crate::keys::Key;
use crate::search::{containing, lemma_containing, lowered, matching, query};
use crate::text::{distinct_keys, lowercase};

verus! {

/// The state of an open document.
#[derive(Clone, Debug, PartialEq, Eq)]
pub struct EditingState {
    pub entries: Vec<Entry>,
    pub table_state: SelectionState,
    pub original_path: String,
    pub editing: Option<usize>,
    pub input: String,
    pub cursor_pos: usize,
    pub search_query: String,
    pub search_mode: bool,
    pub search_results: Vec<usize>,
    pub search_selection: Option<usize>,
    pub total_keys: usize,
    pub translated_keys: usize,
    pub save_notification: Option<u64>,
}

/// A session as contracts see it.
pub struct EditingView {
    pub entries: Seq<EntryView>,
    pub selected: Option<int>,
    pub original_path: Text,
    pub editing: Option<int>,
    pub input: Text,
    pub cursor_pos: int,
    pub search_query: Text,
    pub search_mode: bool,
    pub search_results: Seq<int>,
    pub search_selection: Option<int>,
    pub total_keys: int,
    pub translated_keys: int,
    pub save_notification: Option<int>,
}

/// What a key asks for beyond the change of the session itself.
#[derive(Clone, Copy, Debug, PartialEq, Eq)]
pub enum Signal {
    /// Nothing more.
    Nothing,
    /// The user asks to flip the mark of the row under the cursor: the
    /// ledger is to be written first.
    Toggle,
    /// The snapshot and the ledger are to be written.
    Save,
    /// The user asks to save and go back to the list of documents.
    ConfirmReturn,
    /// The user asks to save and leave.
    ConfirmExit,
    /// The user asks for the other display language.
    SwitchLanguage,
}

/// An optional time as contracts see it.
pub open spec fn opt_time(time: Option<u64>) -> Option<int> {
    match time {
        Some(t) => Some(t as int),
        None => None,
    }
}

/// The key is the letter given, in either case.
pub open spec fn is_letter(key: Key, lower: char, upper: char) -> bool {
    key == Key::Char(lower) || key == Key::Char(upper)
}

impl View for EditingState {
    type V = EditingView;

    open spec fn view(&self) -> EditingView {
        EditingView {
            entries: self.entries.deep_view(),
            selected: self.table_state@,
            original_path: self.original_path@,
            editing: opt_index(self.editing),
            input: self.input@,
            cursor_pos: self.cursor_pos as int,
            search_query: self.search_query@,
            search_mode: self.search_mode,
            search_results: indices(self.search_results@),
            search_selection: opt_index(self.search_selection),
            total_keys: self.total_keys as int,
            translated_keys: self.translated_keys as int,
            save_notification: opt_time(self.save_notification),
        }
    }
}

impl EditingView {
    /// The invariant of a session: the counters equal a recount, the cursors
    /// stand on rows that exist, the caret stands inside the draft, a draft
    /// exists only during a field edit, and the matches are those of the
    /// query, which is empty outside search mode.
    pub open spec fn wf(self) -> bool {
        &&& self.total_keys == self.entries.len()
        &&& self.translated_keys == count_translated(self.entries)
        &&& self.selected matches Some(i) ==> i == 0 || 0 <= i < self.entries.len()
        &&& self.editing matches Some(i) ==> 0 <= i < self.entries.len()
        &&& 0 <= self.cursor_pos <= self.input.len()
        &&& self.editing is None ==> self.input.len() == 0
        &&& self.search_results == matching(keys_of(self.entries), self.search_query)
        &&& self.search_selection matches Some(j) ==> 0 <= j < self.search_results.len()
        &&& !self.search_mode ==> self.search_query.len() == 0 && self.search_selection is None
    }

    /// No two entries have the same key.
    pub open spec fn keys_distinct(self) -> bool {
        keys_of(self.entries).no_duplicates()
    }

    /// The session that opening a document gives: one entry per member, the
    /// cursor on the first row, no search, no draft, no notification.
    pub open spec fn loaded(
        document: Members,
        prior_snapshot: Members,
        completed: Seq<Text>,
        path: Text,
    ) -> EditingView {
        let entries = loaded_entries(document, prior_snapshot, completed);
        EditingView {
            entries,
            selected: Some(0),
            original_path: path,
            editing: None,
            input: Seq::empty(),
            cursor_pos: 0,
            search_query: Seq::empty(),
            search_mode: false,
            search_results: Seq::empty(),
            search_selection: None,
            total_keys: entries.len() as int,
            translated_keys: count_translated(entries) as int,
            save_notification: None,
        }
    }

    /// The session with the mark of entry `index` flipped and the counter of
    /// marked entries moved by one; unchanged where there is no such entry.
    pub open spec fn toggle(self, index: int) -> EditingView {
        if 0 <= index < self.entries.len() {
            EditingView {
                entries: toggled(self.entries, index),
                translated_keys: if self.entries[index].is_translated {
                    self.translated_keys - 1
                } else {
                    self.translated_keys + 1
                },
                ..self
            }
        } else {
            self
        }
    }

    /// The session with the translation of entry `index` replaced by the
    /// JSON text `json`; unchanged where there is no such entry.
    pub open spec fn store_translated(self, index: int, json: Text) -> EditingView {
        EditingView { entries: with_translated(self.entries, index, json), ..self }
    }

    /// The session with the translation of entry `index` set to the text
    /// `value`, held as a JSON string.
    pub open spec fn set_translated(self, index: int, value: Text) -> EditingView {
        self.store_translated(index, json_string_text(value))
    }

    /// The session with the matches of its query computed afresh and the
    /// first match selected, if there is one.
    pub open spec fn searched(self) -> EditingView {
        let results = matching(keys_of(self.entries), self.search_query);
        EditingView {
            search_results: results,
            search_selection: if results.len() > 0 {
                Some(0)
            } else {
                None
            },
            ..self
        }
    }

    /// The session out of search mode: no query, no matches, no selection.
    pub open spec fn search_closed(self) -> EditingView {
        EditingView {
            search_mode: false,
            search_query: Seq::empty(),
            search_results: Seq::empty(),
            search_selection: None,
            ..self
        }
    }

    /// The session out of field-edit mode, the draft dropped.
    pub open spec fn edit_closed(self) -> EditingView {
        EditingView { editing: None, input: Seq::empty(), cursor_pos: 0, ..self }
    }

    /// A key in search mode. Confirm moves the row cursor to the selected
    /// match and leaves search mode; cancel leaves it; up and down move the
    /// selection without wrapping around; a character or backspace changes
    /// the query, and the matches with it.
    pub open spec fn search_step(self, key: Key) -> EditingView {
        match key {
            Key::Enter => EditingView {
                selected: match self.search_selection {
                    Some(j) if 0 <= j < self.search_results.len() => Some(self.search_results[j]),
                    _ => self.selected,
                },
                ..self
            }.search_closed(),
            Key::Esc => self.search_closed(),
            Key::Up => EditingView {
                search_selection: selection_up(
                    self.search_selection,
                    self.search_results.len() as int,
                ),
                ..self
            },
            Key::Down => EditingView {
                search_selection: selection_down(
                    self.search_selection,
                    self.search_results.len() as int,
                ),
                ..self
            },
            Key::Char(c) => EditingView {
                search_query: self.search_query.push(c),
                ..self
            }.searched(),
            Key::Backspace => EditingView {
                search_query: if self.search_query.len() > 0 {
                    self.search_query.drop_last()
                } else {
                    self.search_query
                },
                ..self
            }.searched(),
            _ => self,
        }
    }

    /// A key in field-edit mode on entry `index`. Confirm stores the draft as
    /// the translation, as a JSON string, and leaves the mode; cancel leaves
    /// it and keeps the entry; every other key edits the draft.
    pub open spec fn edit_step(self, index: int, key: Key) -> EditingView {
        match key {
            Key::Enter => self.set_translated(index, self.input).edit_closed(),
            Key::Esc => self.edit_closed(),
            _ => {
                let after = draft_after(self.input, self.cursor_pos, key);
                EditingView { input: after.0, cursor_pos: after.1, ..self }
            },
        }
    }

    /// A key in normal navigation. `s` enters search mode with an empty
    /// query; up and down move the cursor, which stops at both ends; confirm
    /// starts a field edit on the row under the cursor, the draft being the
    /// translation without its quotes and the caret standing at its end.
    /// The keys that ask for a write (`t`, `b`, `q`, cancel) change nothing
    /// by themselves.
    pub open spec fn normal_step(self, key: Key) -> EditingView {
        if is_letter(key, 's', 'S') {
            EditingView { search_mode: true, search_query: Seq::empty(), ..self }.searched()
        } else {
            match key {
                Key::Up => EditingView { selected: row_up(self.selected), ..self },
                Key::Down => EditingView {
                    selected: row_down(self.selected, self.entries.len() as int),
                    ..self
                },
                Key::Enter => match self.selected {
                    Some(i) if 0 <= i < self.entries.len() => {
                        let draft = without_quotes(self.entries[i].translated);
                        EditingView {
                            editing: Some(i),
                            input: draft,
                            cursor_pos: draft.len() as int,
                            ..self
                        }
                    },
                    _ => self,
                },
                _ => self,
            }
        }
    }

    /// The session after a key. Search mode comes before field-edit mode,
    /// which comes before normal navigation.
    pub open spec fn step(self, key: Key) -> EditingView {
        if self.search_mode {
            self.search_step(key)
        } else {
            match self.editing {
                Some(index) => self.edit_step(index, key),
                None => self.normal_step(key),
            }
        }
    }

    /// What a key asks for beyond the change of the session. Only normal
    /// navigation asks for anything.
    pub open spec fn signal(self, key: Key) -> Signal {
        if self.search_mode || self.editing is Some {
            Signal::Nothing
        } else if is_letter(key, 't', 'T') {
            match self.selected {
                Some(i) if 0 <= i < self.entries.len() => Signal::Toggle,
                _ => Signal::Nothing,
            }
        } else if is_letter(key, 'b', 'B') {
            Signal::Save
        } else if is_letter(key, 'q', 'Q') {
            Signal::ConfirmExit
        } else {
            match key {
                Key::Esc => Signal::ConfirmReturn,
                Key::F(n) if n == 2 => Signal::SwitchLanguage,
                _ => Signal::Nothing,
            }
        }
    }
}

/// The entries of a document have its keys: where the keys of the document
/// are pairwise distinct, so are those of the entries.
pub proof fn lemma_loaded_keys(document: Members, prior_snapshot: Members, completed: Seq<Text>)
    ensures
        keys_of(loaded_entries(document, prior_snapshot, completed)).len() == document.len(),
        forall|i: int|
            0 <= i < document.len() ==> #[trigger] keys_of(
                loaded_entries(document, prior_snapshot, completed),
            )[i] == document[i].0,
        distinct_keys(document) ==> keys_of(
            loaded_entries(document, prior_snapshot, completed),
        ).no_duplicates(),
{
    let keys = keys_of(loaded_entries(document, prior_snapshot, completed));
    if distinct_keys(document) {
        assert forall|i: int, j: int|
            0 <= i < keys.len() && 0 <= j < keys.len() && i != j implies keys[i] != keys[j] by {
            if i < j {
                assert(document[i].0 != document[j].0);
            } else {
                assert(document[j].0 != document[i].0);
            }
        }
    }
}

/// Flipping a mark or replacing a translation keeps the keys.
pub proof fn lemma_keys_kept(entries: Seq<EntryView>, index: int, json: Text)
    ensures
        keys_of(toggled(entries, index)) == keys_of(entries),
        keys_of(with_translated(entries, index, json)) == keys_of(entries),
{
    assert(keys_of(toggled(entries, index)) =~= keys_of(entries));
    assert(keys_of(with_translated(entries, index, json)) =~= keys_of(entries));
}

/// Flipping a mark keeps the invariant: the counter still equals a recount.
pub proof fn lemma_toggle_wf(s: EditingView, index: int)
    requires
        s.wf(),
    ensures
        s.toggle(index).wf(),
{
    if 0 <= index < s.entries.len() {
        let flipped = EntryView {
            is_translated: !s.entries[index].is_translated,
            ..s.entries[index]
        };
        lemma_count_update(s.entries, index, flipped);
        lemma_keys_kept(s.entries, index, Seq::empty());
    }
}

/// Replacing a translation keeps the invariant.
pub proof fn lemma_store_wf(s: EditingView, index: int, json: Text)
    requires
        s.wf(),
    ensures
        s.store_translated(index, json).wf(),
{
    if 0 <= index < s.entries.len() {
        let stored = EntryView { translated: json, ..s.entries[index] };
        lemma_count_update(s.entries, index, stored);
        lemma_keys_kept(s.entries, index, json);
    }
}

/// A key in search mode keeps the invariant.
pub proof fn lemma_search_step_wf(s: EditingView, key: Key)
    requires
        s.wf(),
        s.search_mode,
    ensures
        s.search_step(key).wf(),
{
    match key {
        Key::Enter => {
            match s.search_selection {
                Some(j) => {
                    let found = containing(lowered(keys_of(s.entries)), lowercase(s.search_query));
                    lemma_containing(lowered(keys_of(s.entries)), lowercase(s.search_query));
                    assert(s.search_results == found);
                    assert(0 <= found[j] < s.entries.len());
                },
                None => {},
            }
        },
        _ => {},
    }
}

/// A key in field-edit mode keeps the invariant.
pub proof fn lemma_edit_step_wf(s: EditingView, index: int, key: Key)
    requires
        s.wf(),
        s.editing == Some(index),
    ensures
        s.edit_step(index, key).wf(),
{
    lemma_store_wf(s, index, json_string_text(s.input));
    lemma_draft_caret(s.input, s.cursor_pos, key);
}

/// A key in normal navigation keeps the invariant.
pub proof fn lemma_normal_step_wf(s: EditingView, key: Key)
    requires
        s.wf(),
        s.editing is None,
        !s.search_mode,
    ensures
        s.normal_step(key).wf(),
{
}

/// Every key keeps the invariant of the session.
pub proof fn lemma_step_wf(s: EditingView, key: Key)
    requires
        s.wf(),
    ensures
        s.step(key).wf(),
{
    if s.search_mode {
        lemma_search_step_wf(s, key);
    } else {
        match s.editing {
            Some(index) => {
                lemma_edit_step_wf(s, index, key);
            },
            None => {
                lemma_normal_step_wf(s, key);
            },
        }
    }
}

impl EditingState {
    /// The invariant of a session, on its view.
    pub open spec fn wf(&self) -> bool {
        self@.wf()
    }

    /// Whether the invariant of a session holds of this value.
    pub fn is_well_formed(&self) -> (ok: bool)
        ensures
            ok == self.wf(),
    {
        let rows = self.entries.len();
        let drafted = self.input.as_str().unicode_len();
        let fresh = query(&self.entries, self.search_query.as_str());
        let cursor_ok = match self.table_state.selected() {
            Some(i) => i == 0 || i < rows,
            None => true,
        };
        let edit_ok = match self.editing {
            Some(i) => i < rows,
            None => drafted == 0,
        };
        let selection_ok = match self.search_selection {
            Some(j) => j < self.search_results.len(),
            None => true,
        };
        let search_ok = self.search_mode || (self.search_query.as_str().is_empty()
            && self.search_selection.is_none());
        self.total_keys == rows && self.translated_keys == count_marked(&self.entries)
            && cursor_ok && edit_ok && self.cursor_pos <= drafted && same_positions(
            &self.search_results,
            &fresh,
        ) && selection_ok && search_ok
    }

    /// Opens a document: builds one entry per member of the source document,
    /// in its order. The translation of an entry is the value that the prior
    /// snapshot has for its key, else a copy of the original; the entry is
    /// marked iff its key is among the completed keys. The counter of marked
    /// entries is the number of keys of the document that the ledger holds.
    pub fn load(
        source_document: &Vec<(String, String)>,
        prior_snapshot: &JsonObject,
        completed_keys: &Vec<String>,
        path: String,
    ) -> (state: EditingState)
        ensures
            state@ == EditingView::loaded(
                source_document.deep_view(),
                object_members(*prior_snapshot),
                completed_keys.deep_view(),
                path@,
            ),
            state@.translated_keys == keys_in_ledger(
                source_document.deep_view(),
                completed_keys.deep_view(),
            ),
            distinct_keys(source_document.deep_view()) ==> state@.keys_distinct(),
            state.wf(),
    {
        proof {
            lemma_loaded_keys(
                source_document.deep_view(),
                object_members(*prior_snapshot),
                completed_keys.deep_view(),
            );
        }
        let (entries, translated_keys) = load_entries(
            source_document,
            prior_snapshot,
            completed_keys,
        );
        let total_keys = entries.len();
        let state = EditingState {
            entries,
            table_state: SelectionState::new(Some(0)),
            original_path: path,
            editing: None,
            input: String::new(),
            cursor_pos: 0,
            search_query: String::new(),
            search_mode: false,
            search_results: Vec::new(),
            search_selection: None,
            total_keys,
            translated_keys,
            save_notification: None,
        };
        assert(indices(state.search_results@) == Seq::<int>::empty());
        state
    }

    /// Replaces the translation of entry `index` by the JSON text `json`.
    /// Where there is no such entry, nothing happens.
    pub fn store_translated(&mut self, index: usize, json: String)
        requires
            old(self).wf(),
        ensures
            final(self)@ == old(self)@.store_translated(index as int, json@),
            final(self).wf(),
    {
        proof {
            lemma_store_wf(self@, index as int, json@);
        }
        if index < self.entries.len() {
            let ghost before = self.entries.deep_view();
            self.entries[index].translated = json;
            assert(self.entries.deep_view() == with_translated(before, index as int, json@));
        }
    }

    /// Sets the translation of entry `index` to the text `value`, held as a
    /// JSON string whatever the original was. Where there is no such entry,
    /// nothing happens.
    pub fn set_translated(&mut self, index: usize, value: &str)
        requires
            old(self).wf(),
        ensures
            final(self)@ == old(self)@.set_translated(index as int, value@),
            final(self).wf(),
    {
        let json = json_string(value);
        self.store_translated(index, json);
    }

    /// Computes the matches of the query afresh and selects the first one,
    /// if there is any. The empty query has no match.
    pub fn update_search_results(&mut self)
        ensures
            final(self)@ == old(self)@.searched(),
            old(self)@.search_query.len() == 0 ==> final(self)@.search_results.len() == 0
                && final(self)@.search_selection is None,
            old(self).wf() ==> final(self).wf(),
    {
        self.search_results = query(&self.entries, self.search_query.as_str());
        self.search_selection = if self.search_results.len() > 0 {
            Some(0)
        } else {
            None
        };
    }

    /// Leaves search mode and drops the query, the matches and the selection.
    pub fn close_search(&mut self)
        ensures
            final(self)@ == old(self)@.search_closed(),
            old(self).wf() ==> final(self).wf(),
    {
        self.search_mode = false;
        self.search_query = String::new();
        self.search_results = Vec::new();
        self.search_selection = None;
        assert(indices(self.search_results@) == Seq::<int>::empty());
    }

    /// Leaves field-edit mode and drops the draft.
    pub fn close_edit(&mut self)
        ensures
            final(self)@ == old(self)@.edit_closed(),
            old(self).wf() ==> final(self).wf(),
    {
        self.editing = None;
        self.input = String::new();
        self.cursor_pos = 0;
    }

    /// Handles a key in search mode.
    pub fn handle_search_key(&mut self, key: Key)
        requires
            old(self).wf(),
            old(self).search_mode,
        ensures
            final(self)@ == old(self)@.search_step(key),
            final(self).wf(),
    {
        proof {
            lemma_search_step_wf(self@, key);
        }
        match key {
            Key::Enter => {
                match self.search_selection {
                    Some(j) => {
                        if j < self.search_results.len() {
                            let row = self.search_results[j];
                            self.table_state.select(Some(row));
                        }
                    },
                    None => {},
                }
                self.close_search();
            },
            Key::Esc => {
                self.close_search();
            },
            Key::Up => {
                self.search_selection = move_selection_up(
                    self.search_selection,
                    self.search_results.len(),
                );
            },
            Key::Down => {
                self.search_selection = move_selection_down(
                    self.search_selection,
                    self.search_results.len(),
                );
            },
            Key::Char(c) => {
                self.search_query.push(c);
                self.update_search_results();
            },
            Key::Backspace => {
                self.search_query.pop();
                self.update_search_results();
            },
            _ => {},
        }
    }

    /// Handles a key during the field edit of entry `index`.
    pub fn handle_edit_key(&mut self, index: usize, key: Key)
        requires
            old(self).wf(),
            old(self).editing == Some(index),
        ensures
            final(self)@ == old(self)@.edit_step(index as int, key),
            final(self).wf(),
    {
        proof {
            lemma_edit_step_wf(self@, index as int, key);
        }
        match key {
            Key::Enter => {
                let draft = self.input.clone();
                self.set_translated(index, draft.as_str());
                self.close_edit();
            },
            Key::Esc => {
                self.close_edit();
            },
            _ => {
                let (text, caret) = edit_draft(self.input.as_str(), self.cursor_pos, key);
                self.input = text;
                self.cursor_pos = caret;
            },
        }
    }

    /// Handles a key in normal navigation, and says what it asks for.
    pub fn handle_normal_key(&mut self, key: Key) -> (signal: Signal)
        requires
            old(self).wf(),
            !old(self).search_mode,
            old(self).editing is None,
        ensures
            final(self)@ == old(self)@.normal_step(key),
            signal == old(self)@.signal(key),
            final(self).wf(),
    {
        proof {
            lemma_normal_step_wf(self@, key);
        }
        match key {
            Key::Char(c) => {
                if c == 't' || c == 'T' {
                    match self.table_state.selected() {
                        Some(i) => if i < self.entries.len() {
                            Signal::Toggle
                        } else {
                            Signal::Nothing
                        },
                        None => Signal::Nothing,
                    }
                } else if c == 's' || c == 'S' {
                    self.search_mode = true;
                    self.search_query = String::new();
                    self.update_search_results();
                    Signal::Nothing
                } else if c == 'b' || c == 'B' {
                    Signal::Save
                } else if c == 'q' || c == 'Q' {
                    Signal::ConfirmExit
                } else {
                    Signal::Nothing
                }
            },
            Key::Up => {
                self.table_state.select(move_row_up(self.table_state.selected()));
                Signal::Nothing
            },
            Key::Down => {
                self.table_state.select(
                    move_row_down(self.table_state.selected(), self.entries.len()),
                );
                Signal::Nothing
            },
            Key::Enter => {
                match self.table_state.selected() {
                    Some(i) => {
                        if i < self.entries.len() {
                            self.editing = Some(i);
                            self.input = format_json_value(self.entries[i].translated.as_str());
                            self.cursor_pos = self.input.as_str().unicode_len();
                        }
                    },
                    None => {},
                }
                Signal::Nothing
            },
            Key::Esc => Signal::ConfirmReturn,
            Key::F(n) => {
                if n == 2 {
                    Signal::SwitchLanguage
                } else {
                    Signal::Nothing
                }
            },
            _ => Signal::Nothing,
        }
    }

    /// Handles a key: in search mode if it is on, else in field-edit mode if
    /// a field is being edited, else in normal navigation.
    pub fn handle_key(&mut self, key: Key) -> (signal: Signal)
        requires
            old(self).wf(),
        ensures
            final(self)@ == old(self)@.step(key),
            signal == old(self)@.signal(key),
            final(self).wf(),
    {
        if self.search_mode {
            self.handle_search_key(key);
            Signal::Nothing
        } else {
            match self.editing {
                Some(index) => {
                    self.handle_edit_key(index, key);
                    Signal::Nothing
                },
                None => self.handle_normal_key(key),
            }
        }
    }

    /// Flips the mark of entry `index` and moves the counter of marked
    /// entries by one. Where there is no such entry, nothing happens.
    pub fn toggle(&mut self, index: usize)
        requires
            old(self).wf(),
        ensures
            final(self)@ == old(self)@.toggle(index as int),
            final(self).wf(),
    {
        proof {
            lemma_toggle_wf(self@, index as int);
        }
        if index < self.entries.len() {
            let ghost before = self.entries.deep_view();
            let flipped = !self.entries[index].is_translated;
            proof {
                lemma_count_bounded(toggled(before, index as int));
                let now = EntryView { is_translated: flipped, ..before[index as int] };
                lemma_count_update(before, index as int, now);
            }
            self.entries[index].is_translated = flipped;
            assert(self.entries.deep_view() == toggled(before, index as int));
            if flipped {
                self.translated_keys += 1;
            } else {
                self.translated_keys -= 1;
            }
        }
    }
}

} // verus!
