//! The application: which of its four states is active, and what each holds.

use vstd::prelude::*;
use crate::cursor::SelectionState;
use crate::entries::{toggled, EntryView};
use crate::json::{json_object, pretty_object, Text};
use crate::ledger::{load_translated_keys, merged_keys, LedgerView, TranslatedKeysData};
use crate::localization::Locale;
use crate::persistence::{
    ledger_plan, load_existing_translations, parse_document, prior_members, save_plan,
    save_translated_json, snapshot_members, toggle_effects, Effect, EffectView, LoadError,
    SaveError,
};
use crate::session::{EditingState, EditingView};
use crate::text::distinct_keys;

verus! {

/// How long a save notification is shown, in milliseconds.
pub const SAVE_NOTIFICATION_MILLIS: u64 = 2000;

/// The four states of the application. `Exiting` is final.
#[derive(Clone, Copy, Debug, PartialEq, Eq)]
pub enum AppState {
    FileSelection,
    Editing,
    SaveConfirmation,
    Exiting,
}

/// What a confirmed save is followed by.
#[derive(Clone, Copy, Debug, PartialEq, Eq)]
pub enum PendingAction {
    /// Save, then go back to the list of documents.
    SaveAndReturn,
    /// Save, then leave.
    SaveAndExit,
}

/// The list of candidate documents and the cursor over it.
#[derive(Clone, Debug, PartialEq, Eq)]
pub struct FileSelectionState {
    pub files: Vec<String>,
    pub list_state: SelectionState,
}

/// The question put before a save: its text, and what the save is followed
/// by.
#[derive(Clone, Debug, PartialEq, Eq)]
pub struct SaveConfirmationState {
    pub message: String,
    pub pending: PendingAction,
}

/// The application.
#[derive(Clone, Debug, PartialEq, Eq)]
pub struct App {
    pub state: AppState,
    pub file_selection: FileSelectionState,
    pub editing: Option<EditingState>,
    pub save_confirmation: Option<SaveConfirmationState>,
    pub locale: Locale,
}

/// A confirmation as contracts see it.
pub struct ConfirmationView {
    pub message: Text,
    pub pending: PendingAction,
}

/// The application as contracts see it.
pub struct AppView {
    pub state: AppState,
    pub files: Seq<Text>,
    pub file_cursor: Option<int>,
    pub editing: Option<EditingView>,
    pub confirmation: Option<ConfirmationView>,
    pub locale: Seq<(Text, Text)>,
}

/// What the engine asks its caller to do after an event.
#[derive(Clone, Debug, PartialEq, Eq)]
pub enum Request {
    /// Nothing.
    Nothing,
    /// Read the document at this place of the list, its prior snapshot and
    /// its ledgers, and hand them to `App::open_document`.
    OpenDocument { index: usize },
    /// Load the other display language and set it as the locale.
    SwitchLanguage,
    /// Perform the effects in order, and stop at the first that fails; when
    /// all are done, call `App::toggle_completed` with the index. Until
    /// then no mark has changed.
    Toggle { index: usize, effects: Vec<Effect> },
    /// Perform the effects in order, and stop at the first that fails; when
    /// all are done, call `App::save_completed`.
    Save { effects: Vec<Effect> },
}

/// A request as contracts see it.
pub enum RequestView {
    Nothing,
    OpenDocument { index: int },
    SwitchLanguage,
    Toggle { index: int, effects: Seq<EffectView> },
    Save { effects: Seq<EffectView> },
}

impl View for SaveConfirmationState {
    type V = ConfirmationView;

    open spec fn view(&self) -> ConfirmationView {
        ConfirmationView { message: self.message@, pending: self.pending }
    }
}

impl View for Request {
    type V = RequestView;

    open spec fn view(&self) -> RequestView {
        match self {
            Request::Nothing => RequestView::Nothing,
            Request::OpenDocument { index } => RequestView::OpenDocument { index: *index as int },
            Request::SwitchLanguage => RequestView::SwitchLanguage,
            Request::Toggle { index, effects } => RequestView::Toggle {
                index: *index as int,
                effects: effects.deep_view(),
            },
            Request::Save { effects } => RequestView::Save { effects: effects.deep_view() },
        }
    }
}

impl View for App {
    type V = AppView;

    open spec fn view(&self) -> AppView {
        AppView {
            state: self.state,
            files: self.file_selection.files.deep_view(),
            file_cursor: self.file_selection.list_state@,
            editing: match self.editing {
                Some(session) => Some(session@),
                None => None,
            },
            confirmation: match self.save_confirmation {
                Some(confirmation) => Some(confirmation@),
                None => None,
            },
            locale: self.locale.ui.deep_view(),
        }
    }
}

/// The outcome of an event with the error's content left out.
pub open spec fn outcome_of(out: Result<Request, SaveError>) -> Result<RequestView, ()> {
    match out {
        Ok(request) => Ok(request@),
        Err(_) => Err(()),
    }
}

/// An optional text as contracts see it.
pub open spec fn opt_text(text: Option<&str>) -> Option<Text> {
    match text {
        Some(t) => Some(t@),
        None => None,
    }
}

/// An optional ledger as contracts see it.
pub open spec fn opt_ledger(ledger: Option<&TranslatedKeysData>) -> Option<LedgerView> {
    match ledger {
        Some(data) => Some(data@),
        None => None,
    }
}

/// The outcome that a save of `entries` must have: the plan of the save
/// where the snapshot can be serialised, and an error where it cannot.
pub open spec fn is_save_of(out: Result<RequestView, ()>, entries: Seq<EntryView>) -> bool {
    match pretty_object(snapshot_members(entries)) {
        Some(text) => out == Ok::<RequestView, ()>(
            RequestView::Save { effects: save_plan(text, entries) },
        ),
        None => out is Err,
    }
}

/// What flipping the mark of the row under the cursor asks for: the write of
/// the ledger as it is to be after the flip, and nothing where the cursor
/// stands on no row.
pub open spec fn toggle_request(session: EditingView) -> RequestView {
    match session.selected {
        Some(i) if 0 <= i < session.entries.len() => RequestView::Toggle {
            index: i,
            effects: ledger_plan(toggled(session.entries, i)),
        },
        _ => RequestView::Nothing,
    }
}

impl AppView {
    /// The invariant of the application: no key stands twice in the locale,
    /// the cursor over the documents stands on one of them, a session is
    /// there while a document is edited or a save is to be confirmed, and it
    /// keeps its own invariant.
    pub open spec fn wf(self) -> bool {
        &&& distinct_keys(self.locale)
        &&& self.file_cursor matches Some(i) ==> 0 <= i < self.files.len()
        &&& self.editing matches Some(session) ==> session.wf()
        &&& self.state == AppState::Editing ==> self.editing is Some
        &&& self.state == AppState::SaveConfirmation ==> self.editing is Some
            && self.confirmation is Some
    }

    /// The application at its start: the list of documents with the cursor
    /// on the first one, if there is any.
    pub open spec fn initial(files: Seq<Text>, locale: Seq<(Text, Text)>) -> AppView {
        AppView {
            state: AppState::FileSelection,
            files,
            file_cursor: if files.len() > 0 {
                Some(0)
            } else {
                None
            },
            editing: None,
            confirmation: None,
            locale,
        }
    }

    /// The application with a freshly opened document.
    pub open spec fn opened(self, session: EditingView) -> AppView {
        AppView {
            state: AppState::Editing,
            editing: Some(session),
            confirmation: None,
            ..self
        }
    }

    /// The application after the write that a flip asked for has been
    /// performed: the mark of entry `index` of the open session is flipped
    /// and the counter of marked entries moved by one, in whatever state
    /// the application is.
    pub open spec fn toggled(self, index: int) -> AppView {
        match self.editing {
            Some(session) => AppView { editing: Some(session.toggle(index)), ..self },
            None => self,
        }
    }

    /// The application after a save of the open session has been performed.
    /// Where the save was asked for by a confirmation, the session is
    /// discarded and the application goes back to the list of documents, or
    /// leaves. In every other case the save notification of the session is
    /// armed with the time of the save. Without a session nothing changes.
    pub open spec fn saved(self, now: int) -> AppView {
        match self.editing {
            Some(session) => match self.confirmation {
                Some(confirmation) if self.state == AppState::SaveConfirmation => AppView {
                    state: match confirmation.pending {
                        PendingAction::SaveAndReturn => AppState::FileSelection,
                        PendingAction::SaveAndExit => AppState::Exiting,
                    },
                    editing: None,
                    confirmation: None,
                    ..self
                },
                _ => AppView {
                    editing: Some(EditingView { save_notification: Some(now), ..session }),
                    ..self
                },
            },
            None => self,
        }
    }

    /// The application at the time `now`: a save notification that has been
    /// shown for more than its duration is cleared.
    pub open spec fn ticked(self, now: int) -> AppView {
        match self.editing {
            Some(session) => match session.save_notification {
                Some(since) if now - since > SAVE_NOTIFICATION_MILLIS => AppView {
                    editing: Some(EditingView { save_notification: None, ..session }),
                    ..self
                },
                _ => self,
            },
            None => self,
        }
    }
}

impl App {
    /// The invariant of the application, on its view.
    pub open spec fn wf(&self) -> bool {
        self@.wf()
    }

    /// Whether the invariant of the application holds of this value.
    pub fn is_well_formed(&self) -> (ok: bool)
        ensures
            ok == self.wf(),
    {
        let cursor_ok = match self.file_selection.list_state.selected() {
            Some(i) => i < self.file_selection.files.len(),
            None => true,
        };
        let session_ok = match &self.editing {
            Some(session) => session.is_well_formed(),
            None => true,
        };
        let state_ok = match self.state {
            AppState::Editing => self.editing.is_some(),
            AppState::SaveConfirmation => self.editing.is_some()
                && self.save_confirmation.is_some(),
            _ => true,
        };
        self.locale.is_well_formed() && cursor_ok && session_ok && state_ok
    }

    /// The application at its start, over the candidate documents.
    pub fn new(files: Vec<String>, locale: Locale) -> (app: App)
        requires
            locale.wf(),
        ensures
            app@ == AppView::initial(files.deep_view(), locale.ui.deep_view()),
            app.wf(),
    {
        let selected = if files.len() > 0 {
            Some(0)
        } else {
            None
        };
        App {
            state: AppState::FileSelection,
            file_selection: FileSelectionState { files, list_state: SelectionState::new(selected) },
            editing: None,
            save_confirmation: None,
            locale,
        }
    }

    /// Clears the save notification once it has been shown for more than its
    /// duration. `now` is a time in milliseconds on the clock that armed it.
    pub fn check_notification_timeout(&mut self, now: u64)
        requires
            old(self).wf(),
        ensures
            final(self)@ == old(self)@.ticked(now as int),
            final(self).wf(),
    {
        match self.editing.take() {
            Some(mut session) => {
                match session.save_notification {
                    Some(since) => {
                        if now > since && now - since > SAVE_NOTIFICATION_MILLIS {
                            session.save_notification = None;
                        }
                    },
                    None => {},
                }
                self.editing = Some(session);
            },
            None => {},
        }
    }

    /// Computes the matches of the query of the open session afresh.
    pub fn update_search_results(&mut self)
        ensures
            final(self)@ == (AppView {
                editing: match old(self)@.editing {
                    Some(session) => Some(session.searched()),
                    None => None,
                },
                ..old(self)@
            }),
            old(self).wf() ==> final(self).wf(),
    {
        match self.editing.take() {
            Some(mut session) => {
                session.update_search_results();
                self.editing = Some(session);
            },
            None => {},
        }
    }

    /// What flipping the mark of the row under the cursor of the open
    /// session asks for: the write of the ledger as it is to be after the
    /// flip. Nothing changes here; the flip takes effect with
    /// `toggle_completed`, once the ledger has been written. Where the cursor
    /// stands on no row, or no document is open, nothing is asked for.
    pub fn toggle_translation(&self) -> (request: Request)
        ensures
            request@ == match self@.editing {
                Some(session) => toggle_request(session),
                None => RequestView::Nothing,
            },
    {
        match &self.editing {
            Some(session) => match session.table_state.selected() {
                Some(index) => {
                    if index < session.entries.len() {
                        Request::Toggle { index, effects: toggle_effects(&session.entries, index) }
                    } else {
                        Request::Nothing
                    }
                },
                None => Request::Nothing,
            },
            None => Request::Nothing,
        }
    }

    /// Takes note that the ledger asked for by a flip has been written:
    /// flips the mark of entry `index` of the open session and moves the
    /// counter of marked entries by one, in whatever state the application
    /// is. Where there is no such entry, or no open session, nothing
    /// happens.
    pub fn toggle_completed(&mut self, index: usize)
        requires
            old(self).wf(),
        ensures
            final(self)@ == old(self)@.toggled(index as int),
            final(self).wf(),
    {
        match self.editing.take() {
            Some(mut session) => {
                session.toggle(index);
                self.editing = Some(session);
            },
            None => {},
        }
    }

    /// The plan of a save of the open session, in whatever state the
    /// application is: the snapshot, and right after it the ledger. Nothing
    /// changes; `save_completed` follows once the plan has been performed.
    /// Without a session nothing is asked for.
    pub fn save_current_file(&self) -> (out: Result<Request, SaveError>)
        ensures
            match self@.editing {
                Some(session) => is_save_of(outcome_of(out), session.entries),
                None => outcome_of(out) == Ok::<RequestView, ()>(RequestView::Nothing),
            },
    {
        match &self.editing {
            Some(session) => match save_translated_json(session) {
                Ok(effects) => Ok(Request::Save { effects }),
                Err(e) => Err(e),
            },
            None => Ok(Request::Nothing),
        }
    }

    /// Takes note that a requested save has been performed: after a
    /// confirmation the application moves on and the session is discarded,
    /// else the save notification is armed with `now`.
    pub fn save_completed(&mut self, now: u64)
        requires
            old(self).wf(),
        ensures
            final(self)@ == old(self)@.saved(now as int),
            final(self).wf(),
    {
        let confirmed = match self.state {
            AppState::SaveConfirmation => self.save_confirmation.is_some(),
            _ => false,
        };
        match self.editing.take() {
            Some(mut session) => {
                if confirmed {
                    match self.save_confirmation.take() {
                        Some(confirmation) => {
                            self.state = match confirmation.pending {
                                PendingAction::SaveAndReturn => AppState::FileSelection,
                                PendingAction::SaveAndExit => AppState::Exiting,
                            };
                        },
                        None => {},
                    }
                } else {
                    session.save_notification = Some(now);
                    self.editing = Some(session);
                }
            },
            None => {},
        }
    }

    /// The path of the document under the cursor of the list.
    pub fn get_selected_file_path(&self) -> (path: Option<&str>)
        requires
            self.wf(),
        ensures
            match self@.file_cursor {
                Some(i) => path matches Some(p) && p@ == self@.files[i],
                None => path is None,
            },
    {
        match self.file_selection.list_state.selected() {
            Some(i) => Some(self.file_selection.files[i].as_str()),
            None => None,
        }
    }

    /// Opens a document from what its files hold: the text of the source,
    /// the text of the prior snapshot if there is one, the structured ledger
    /// if there is one that could be read, and the text of the legacy ledger
    /// if there is one. A document is opened from the list of documents
    /// only: in every other state nothing changes. Where the source is a
    /// JSON object, the application goes on to edit it. Where it is not,
    /// nothing changes and the error says why. A prior snapshot that is no
    /// JSON object counts as missing.
    pub fn open_document(
        &mut self,
        path: String,
        source: &str,
        prior_snapshot: Option<&str>,
        structured_ledger: Option<&TranslatedKeysData>,
        legacy_ledger: Option<&str>,
    ) -> (out: Result<(), LoadError>)
        requires
            old(self).wf(),
        ensures
            final(self).wf(),
            old(self)@.state != AppState::FileSelection ==> (out matches Err(
                LoadError::NotSelecting,
            )) && final(self)@ == old(self)@,
            old(self)@.state == AppState::FileSelection ==> match json_object(source@) {
                Ok(Some(document)) => {
                    let session = EditingView::loaded(
                        document,
                        prior_members(opt_text(prior_snapshot)),
                        merged_keys(opt_ledger(structured_ledger), opt_text(legacy_ledger)),
                        path@,
                    );
                    out is Ok && final(self)@ == old(self)@.opened(session)
                        && session.keys_distinct()
                },
                Ok(None) => out matches Err(LoadError::NotAnObject) && final(self)@ == old(self)@,
                Err(_) => out matches Err(LoadError::InvalidJson(_)) && final(self)@ == old(
                    self,
                )@,
            },
    {
        match self.state {
            AppState::FileSelection => {},
            _ => {
                return Err(LoadError::NotSelecting);
            },
        }
        match parse_document(source) {
            Ok(document) => {
                let prior = load_existing_translations(prior_snapshot);
                let completed = load_translated_keys(structured_ledger, legacy_ledger);
                let session = EditingState::load(&document, &prior, &completed, path);
                self.editing = Some(session);
                self.save_confirmation = None;
                self.state = AppState::Editing;
                Ok(())
            },
            Err(e) => Err(e),
        }
    }
}

} // verus!
