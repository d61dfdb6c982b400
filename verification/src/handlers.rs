//! The state machine: what a key does in each state of the application.

use vstd::prelude::*;
use crate::app::{
    is_save_of, outcome_of, toggle_request, App, AppState, AppView, ConfirmationView,
    PendingAction, Request, RequestView, SaveConfirmationState,
};
use crate::cursor::{list_down, list_up, move_list_down, move_list_up};
use crate::json::Text;
use crate::keys::Key;
use crate::localization::text_for;
use crate::persistence::{save_translated_json, toggle_effects, SaveError};
use crate::session::{is_letter, EditingView, Signal};

verus! {

/// The question put before a save that is followed by `pending`: the text
/// that the locale has for it.
pub open spec fn confirmation_for(
    locale: Seq<(Text, Text)>,
    pending: PendingAction,
) -> ConfirmationView {
    ConfirmationView {
        message: match pending {
            PendingAction::SaveAndReturn => text_for(locale, "save_return_confirmation"@),
            PendingAction::SaveAndExit => text_for(locale, "save_exit_confirmation"@),
        },
        pending,
    }
}

/// The key confirms a save.
pub open spec fn confirms(key: Key) -> bool {
    key == Key::Enter || key == Key::Char(' ')
}

/// The application after a key in the list of documents: `q` and cancel
/// leave; up and down move the cursor, which stops at both ends. In every
/// other state nothing changes.
pub open spec fn file_selection_step(app: AppView, key: Key) -> AppView {
    if app.state != AppState::FileSelection {
        app
    } else if is_letter(key, 'q', 'Q') || key == Key::Esc {
        AppView { state: AppState::Exiting, ..app }
    } else {
        match key {
            Key::Up => AppView { file_cursor: list_up(app.file_cursor), ..app },
            Key::Down => AppView {
                file_cursor: list_down(app.file_cursor, app.files.len() as int),
                ..app
            },
            _ => app,
        }
    }
}

/// What a key in the list of documents asks for: confirm asks to open the
/// document under the cursor.
pub open spec fn file_selection_request(app: AppView, key: Key) -> RequestView {
    if app.state != AppState::FileSelection {
        RequestView::Nothing
    } else {
        match key {
            Key::Enter => match app.file_cursor {
                Some(i) => RequestView::OpenDocument { index: i },
                None => RequestView::Nothing,
            },
            Key::F(n) if n == 2 => RequestView::SwitchLanguage,
            _ => RequestView::Nothing,
        }
    }
}

/// The session that a key is for while a document is edited: none in any
/// other state.
pub open spec fn edited(app: AppView) -> Option<EditingView> {
    if app.state == AppState::Editing {
        app.editing
    } else {
        None
    }
}

/// The application after a key while a document is edited: the session
/// takes the key; a request to save and return, or to save and leave, puts
/// the question before the save. In every other state nothing changes.
pub open spec fn editing_step(app: AppView, key: Key) -> AppView {
    match edited(app) {
        Some(session) => {
            let after = AppView { editing: Some(session.step(key)), ..app };
            match session.signal(key) {
                Signal::ConfirmReturn => AppView {
                    state: AppState::SaveConfirmation,
                    confirmation: Some(
                        confirmation_for(app.locale, PendingAction::SaveAndReturn),
                    ),
                    ..after
                },
                Signal::ConfirmExit => AppView {
                    state: AppState::SaveConfirmation,
                    confirmation: Some(confirmation_for(app.locale, PendingAction::SaveAndExit)),
                    ..after
                },
                _ => after,
            }
        },
        None => app,
    }
}

/// Whether `out` is what a key asks for while a document is edited: for the
/// key that flips a mark the write of the ledger as it is to be after the
/// flip; for the save key the save of the entries; else nothing but, on its
/// key, the switch of the language.
pub open spec fn is_editing_outcome(app: AppView, key: Key, out: Result<RequestView, ()>) -> bool {
    match edited(app) {
        Some(session) => match session.signal(key) {
            Signal::Toggle => out == Ok::<RequestView, ()>(toggle_request(session)),
            Signal::Save => is_save_of(out, session.entries),
            Signal::SwitchLanguage => out == Ok::<RequestView, ()>(RequestView::SwitchLanguage),
            _ => out == Ok::<RequestView, ()>(RequestView::Nothing),
        },
        None => out == Ok::<RequestView, ()>(RequestView::Nothing),
    }
}

/// A save is waiting to be confirmed.
pub open spec fn confirmation_pending(app: AppView) -> bool {
    app.state == AppState::SaveConfirmation && app.confirmation is Some
}

/// The application after a key before a save: cancel goes back to editing,
/// with no save. Confirm changes nothing yet: the save is asked for, and
/// `AppView::saved` follows once it is done. Where no save is waiting to be
/// confirmed, nothing changes.
pub open spec fn save_confirmation_step(app: AppView, key: Key) -> AppView {
    if !confirmation_pending(app) {
        app
    } else {
        match key {
            Key::Esc => AppView { state: AppState::Editing, confirmation: None, ..app },
            _ => app,
        }
    }
}

/// Whether `out` is what a key asks for before a save: the save of the
/// entries for a confirming key, else nothing; and nothing where no save is
/// waiting to be confirmed.
pub open spec fn is_confirmation_outcome(
    app: AppView,
    key: Key,
    out: Result<RequestView, ()>,
) -> bool {
    match app.editing {
        Some(session) if confirmation_pending(app) && confirms(key) => is_save_of(
            out,
            session.entries,
        ),
        _ => out == Ok::<RequestView, ()>(RequestView::Nothing),
    }
}

/// The application after a key, by its state. Nothing happens once it is
/// leaving.
pub open spec fn app_step(app: AppView, key: Key) -> AppView {
    match app.state {
        AppState::FileSelection => file_selection_step(app, key),
        AppState::Editing => editing_step(app, key),
        AppState::SaveConfirmation => save_confirmation_step(app, key),
        AppState::Exiting => app,
    }
}

/// Whether `out` is what a key asks for, by the state of the application.
pub open spec fn is_outcome(app: AppView, key: Key, out: Result<RequestView, ()>) -> bool {
    match app.state {
        AppState::FileSelection => out == Ok::<RequestView, ()>(file_selection_request(app, key)),
        AppState::Editing => is_editing_outcome(app, key, out),
        AppState::SaveConfirmation => is_confirmation_outcome(app, key, out),
        AppState::Exiting => out == Ok::<RequestView, ()>(RequestView::Nothing),
    }
}

/// Handles a key in the list of documents.
pub fn handle_file_selection(app: &mut App, key: Key) -> (request: Request)
    requires
        old(app).wf(),
    ensures
        final(app)@ == file_selection_step(old(app)@, key),
        request@ == file_selection_request(old(app)@, key),
        final(app).wf(),
{
    match app.state {
        AppState::FileSelection => {},
        _ => {
            return Request::Nothing;
        },
    }
    match key {
        Key::Char(c) => {
            if c == 'q' || c == 'Q' {
                app.state = AppState::Exiting;
            }
            Request::Nothing
        },
        Key::Esc => {
            app.state = AppState::Exiting;
            Request::Nothing
        },
        Key::Up => {
            let next = move_list_up(app.file_selection.list_state.selected());
            app.file_selection.list_state.select(next);
            Request::Nothing
        },
        Key::Down => {
            let next = move_list_down(
                app.file_selection.list_state.selected(),
                app.file_selection.files.len(),
            );
            app.file_selection.list_state.select(next);
            Request::Nothing
        },
        Key::Enter => match app.file_selection.list_state.selected() {
            Some(index) => Request::OpenDocument { index },
            None => Request::Nothing,
        },
        Key::F(n) => {
            if n == 2 {
                Request::SwitchLanguage
            } else {
                Request::Nothing
            }
        },
        _ => Request::Nothing,
    }
}

/// The question put before a save that is followed by `pending`.
pub fn ask_confirmation(app: &App, pending: PendingAction) -> (question: SaveConfirmationState)
    ensures
        question@ == confirmation_for(app@.locale, pending),
{
    let message = match pending {
        PendingAction::SaveAndReturn => app.locale.get("save_return_confirmation").to_owned(),
        PendingAction::SaveAndExit => app.locale.get("save_exit_confirmation").to_owned(),
    };
    SaveConfirmationState { message, pending }
}

/// Handles a key while a document is edited. Where a save cannot be planned,
/// the error comes back and nothing has changed.
pub fn handle_editing(app: &mut App, key: Key) -> (out: Result<Request, SaveError>)
    requires
        old(app).wf(),
    ensures
        final(app)@ == editing_step(old(app)@, key),
        is_editing_outcome(old(app)@, key, outcome_of(out)),
        out is Err ==> final(app)@ == old(app)@,
        final(app).wf(),
{
    match app.state {
        AppState::Editing => {},
        _ => {
            return Ok(Request::Nothing);
        },
    }
    match app.editing.take() {
        Some(mut session) => {
            let signal = session.handle_key(key);
            let out = match signal {
                Signal::Toggle => match session.table_state.selected() {
                    Some(index) => Ok(
                        Request::Toggle { index, effects: toggle_effects(&session.entries, index) },
                    ),
                    None => Ok(Request::Nothing),
                },
                Signal::Save => match save_translated_json(&session) {
                    Ok(effects) => Ok(Request::Save { effects }),
                    Err(e) => Err(e),
                },
                Signal::SwitchLanguage => Ok(Request::SwitchLanguage),
                Signal::ConfirmReturn => {
                    app.save_confirmation = Some(
                        ask_confirmation(app, PendingAction::SaveAndReturn),
                    );
                    app.state = AppState::SaveConfirmation;
                    Ok(Request::Nothing)
                },
                Signal::ConfirmExit => {
                    app.save_confirmation = Some(ask_confirmation(app, PendingAction::SaveAndExit));
                    app.state = AppState::SaveConfirmation;
                    Ok(Request::Nothing)
                },
                Signal::Nothing => Ok(Request::Nothing),
            };
            app.editing = Some(session);
            out
        },
        None => Ok(Request::Nothing),
    }
}

/// Handles a key before a save. A confirming key asks for the save; the
/// application moves on only when `App::save_completed` is called. Cancel
/// goes back to editing with no save.
pub fn handle_save_confirmation(app: &mut App, key: Key) -> (out: Result<Request, SaveError>)
    requires
        old(app).wf(),
    ensures
        final(app)@ == save_confirmation_step(old(app)@, key),
        is_confirmation_outcome(old(app)@, key, outcome_of(out)),
        out is Err ==> final(app)@ == old(app)@,
        final(app).wf(),
{
    let pending = match app.state {
        AppState::SaveConfirmation => app.save_confirmation.is_some(),
        _ => false,
    };
    if !pending {
        return Ok(Request::Nothing);
    }
    match key {
        Key::Esc => {
            app.state = AppState::Editing;
            app.save_confirmation = None;
            Ok(Request::Nothing)
        },
        Key::Enter => app.save_current_file(),
        Key::Char(c) => {
            if c == ' ' {
                app.save_current_file()
            } else {
                Ok(Request::Nothing)
            }
        },
        _ => Ok(Request::Nothing),
    }
}

/// Handles one key: changes the application as its state says, and hands
/// out what the caller is to do. Where a save cannot be planned, the error
/// comes back and nothing has changed.
pub fn handle_events(app: &mut App, key: Key) -> (out: Result<Request, SaveError>)
    requires
        old(app).wf(),
    ensures
        final(app)@ == app_step(old(app)@, key),
        is_outcome(old(app)@, key, outcome_of(out)),
        out is Err ==> final(app)@ == old(app)@,
        final(app).wf(),
{
    match app.state {
        AppState::FileSelection => Ok(handle_file_selection(app, key)),
        AppState::Editing => handle_editing(app, key),
        AppState::SaveConfirmation => handle_save_confirmation(app, key),
        AppState::Exiting => Ok(Request::Nothing),
    }
}

} // verus!
