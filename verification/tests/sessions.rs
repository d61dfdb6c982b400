use json_translate::app::{App, AppState, PendingAction, Request, SAVE_NOTIFICATION_MILLIS};
use json_translate::handlers::{
    ask_confirmation, handle_editing, handle_events, handle_file_selection,
    handle_save_confirmation,
};
use json_translate::keys::Key;
use json_translate::ledger::{ledger_record, TranslatedKeysData};
use json_translate::localization::Locale;
use json_translate::persistence::{Effect, LoadError, SaveError};
use json_translate::session::{EditingState, Signal};

const SOURCE: &str = "{\"a\":\"Hello\",\"b\":\"World\"}";

fn locale() -> Locale {
    Locale {
        ui: vec![
            ("save_exit_confirmation".to_string(), "Save and quit?".to_string()),
            ("save_return_confirmation".to_string(), "Save and go back?".to_string()),
        ],
    }
}

fn fresh_app() -> App {
    App::new(vec!["one.json".to_string(), "two.json".to_string()], locale())
}

fn editing_app() -> App {
    let mut app = fresh_app();
    app.open_document("one.json".to_string(), SOURCE, None, None, None).unwrap();
    app
}

/// Presses a key without performing what it asks for.
fn press_only(app: &mut App, key: Key) -> Request {
    assert!(app.is_well_formed());
    let request = handle_events(app, key).unwrap();
    assert!(app.is_well_formed());
    request
}

/// Presses a key as a caller does whose writes succeed.
fn press(app: &mut App, key: Key) -> Request {
    let request = press_only(app, key);
    if let Request::Toggle { index, .. } = &request {
        app.toggle_completed(*index);
        assert!(app.is_well_formed());
    }
    request
}

fn type_text(app: &mut App, text: &str) {
    for c in text.chars() {
        assert_eq!(press(app, Key::Char(c)), Request::Nothing);
    }
}

fn session(app: &App) -> &EditingState {
    app.editing.as_ref().unwrap()
}

fn ledger_keys(effect: &Effect) -> Vec<String> {
    match effect {
        Effect::WriteLedger { keys } => keys.clone(),
        other => panic!("{:?} writes no ledger", other),
    }
}

#[test]
fn the_app_starts_on_the_first_document() {
    let app = fresh_app();
    assert_eq!(app.state, AppState::FileSelection);
    assert_eq!(app.file_selection.list_state.selected(), Some(0));
    assert_eq!(app.get_selected_file_path(), Some("one.json"));
    assert!(app.editing.is_none());
    assert!(app.save_confirmation.is_none());
    assert!(app.is_well_formed());
}

#[test]
fn the_app_starts_without_a_cursor_where_there_is_no_document() {
    let mut app = App::new(Vec::new(), locale());
    assert_eq!(app.file_selection.list_state.selected(), None);
    assert_eq!(app.get_selected_file_path(), None);
    assert_eq!(press(&mut app, Key::Enter), Request::Nothing);
    assert_eq!(press(&mut app, Key::Down), Request::Nothing);
    assert_eq!(press(&mut app, Key::Up), Request::Nothing);
    assert_eq!(app.file_selection.list_state.selected(), None);
    assert_eq!(app.state, AppState::FileSelection);
}

#[test]
fn the_list_cursor_is_clamped() {
    let mut app = fresh_app();
    press(&mut app, Key::Up);
    assert_eq!(app.file_selection.list_state.selected(), Some(0));
    press(&mut app, Key::Down);
    assert_eq!(app.file_selection.list_state.selected(), Some(1));
    press(&mut app, Key::Down);
    assert_eq!(app.file_selection.list_state.selected(), Some(1));
    assert_eq!(app.get_selected_file_path(), Some("two.json"));
}

#[test]
fn confirm_in_the_list_asks_for_the_document_under_the_cursor() {
    let mut app = fresh_app();
    press(&mut app, Key::Down);
    assert_eq!(press(&mut app, Key::Enter), Request::OpenDocument { index: 1 });
    assert_eq!(app.state, AppState::FileSelection);
}

#[test]
fn quit_and_cancel_leave_from_the_list() {
    for key in [Key::Char('q'), Key::Char('Q'), Key::Esc] {
        let mut app = fresh_app();
        assert_eq!(press(&mut app, key), Request::Nothing);
        assert_eq!(app.state, AppState::Exiting);
    }
}

#[test]
fn nothing_happens_once_the_app_is_leaving() {
    let mut app = fresh_app();
    press(&mut app, Key::Esc);
    let before = app.clone();
    for key in [Key::Enter, Key::Down, Key::Char('t'), Key::Esc] {
        assert_eq!(press(&mut app, key), Request::Nothing);
        assert_eq!(app, before);
    }
}

#[test]
fn the_language_key_asks_for_the_other_language() {
    let mut app = fresh_app();
    assert_eq!(press(&mut app, Key::F(2)), Request::SwitchLanguage);
    assert_eq!(press(&mut app, Key::F(3)), Request::Nothing);
    let mut app = editing_app();
    assert_eq!(press(&mut app, Key::F(2)), Request::SwitchLanguage);
    assert_eq!(press(&mut app, Key::F(1)), Request::Nothing);
}

#[test]
fn loading_a_fresh_document_copies_the_originals() {
    let app = editing_app();
    assert_eq!(app.state, AppState::Editing);
    let state = session(&app);
    assert_eq!(state.entries.len(), 2);
    assert_eq!(state.total_keys, 2);
    assert_eq!(state.translated_keys, 0);
    assert_eq!(state.original_path, "one.json");
    assert_eq!(state.table_state.selected(), Some(0));
    let expected = [("a", "\"Hello\""), ("b", "\"World\"")];
    for (entry, (key, value)) in state.entries.iter().zip(expected) {
        assert_eq!(entry.key, key);
        assert_eq!(entry.original, value);
        assert_eq!(entry.translated, entry.original);
        assert!(!entry.is_translated);
    }
}

#[test]
fn toggling_then_saving_writes_the_ledger_and_the_snapshot() {
    let mut app = editing_app();
    let request = press(&mut app, Key::Char('t'));
    assert!(session(&app).entries[0].is_translated);
    assert_eq!(session(&app).translated_keys, 1);
    match request {
        Request::Toggle { index, effects } => {
            assert_eq!(index, 0);
            assert_eq!(effects.len(), 2);
            assert_eq!(ledger_keys(&effects[0]), vec!["a".to_string()]);
            assert_eq!(effects[1], Effect::RemoveLegacyLedger);
        }
        other => panic!("toggling asked for {:?}", other),
    }
    match press(&mut app, Key::Char('b')) {
        Request::Save { effects } => {
            assert_eq!(effects.len(), 3);
            assert_eq!(
                effects[0],
                Effect::WriteSnapshot {
                    text: "{\n  \"a\": \"Hello\",\n  \"b\": \"World\"\n}".to_string(),
                }
            );
            assert_eq!(ledger_keys(&effects[1]), vec!["a".to_string()]);
            assert_eq!(effects[2], Effect::RemoveLegacyLedger);
            let reread = String::from(match &effects[0] {
                Effect::WriteSnapshot { text } => text.as_str(),
                _ => "",
            });
            let compact: serde_json::Value = serde_json::from_str(&reread).unwrap();
            assert_eq!(compact.to_string(), SOURCE);
        }
        other => panic!("saving asked for {:?}", other),
    }
}

#[test]
fn toggling_twice_gives_the_session_back() {
    let mut app = editing_app();
    press(&mut app, Key::Down);
    let before = app.clone();
    press(&mut app, Key::Char('T'));
    assert!(session(&app).entries[1].is_translated);
    assert_eq!(session(&app).translated_keys, 1);
    press(&mut app, Key::Char('t'));
    assert_eq!(app, before);
}

#[test]
fn a_toggle_takes_effect_only_when_the_ledger_is_written() {
    let mut app = editing_app();
    press(&mut app, Key::Down);
    let before = app.clone();
    let request = press_only(&mut app, Key::Char('t'));
    assert_eq!(app, before);
    assert!(!session(&app).entries[1].is_translated);
    assert_eq!(session(&app).translated_keys, 0);
    let index = match request {
        Request::Toggle { index, effects } => {
            assert_eq!(ledger_keys(&effects[0]), vec!["b".to_string()]);
            assert_eq!(effects[1], Effect::RemoveLegacyLedger);
            assert_eq!(effects.len(), 2);
            index
        }
        other => panic!("toggling asked for {:?}", other),
    };
    assert_eq!(index, 1);
    app.toggle_completed(index);
    assert!(session(&app).entries[1].is_translated);
    assert!(!session(&app).entries[0].is_translated);
    assert_eq!(session(&app).translated_keys, 1);
    match press_only(&mut app, Key::Char('t')) {
        Request::Toggle { index, effects } => {
            assert_eq!(index, 1);
            assert_eq!(
                effects,
                vec![Effect::WriteLedger { keys: Vec::new() }, Effect::RemoveLegacyLedger]
            );
        }
        other => panic!("toggling asked for {:?}", other),
    }
    assert!(session(&app).entries[1].is_translated);
    assert_eq!(session(&app).translated_keys, 1);
}

#[test]
fn completing_a_toggle_without_a_row_changes_nothing() {
    let mut app = editing_app();
    let before = app.clone();
    app.toggle_completed(2);
    assert_eq!(app, before);
    let mut none = fresh_app();
    let before = none.clone();
    none.toggle_completed(0);
    assert_eq!(none, before);
}

#[test]
fn a_toggle_is_completed_in_whatever_state_the_session_is_open() {
    let mut asked = editing_app();
    press(&mut asked, Key::Down);
    press(&mut asked, Key::Esc);
    assert_eq!(asked.state, AppState::SaveConfirmation);
    let index = match asked.toggle_translation() {
        Request::Toggle { index, effects } => {
            assert_eq!(ledger_keys(&effects[0]), vec!["b".to_string()]);
            index
        }
        other => panic!("toggling asked for {:?}", other),
    };
    asked.toggle_completed(index);
    assert!(asked.is_well_formed());
    assert_eq!(asked.state, AppState::SaveConfirmation);
    assert!(session(&asked).entries[1].is_translated);
    assert!(!session(&asked).entries[0].is_translated);
    assert_eq!(session(&asked).translated_keys, 1);
    assert_eq!(session(&asked).total_keys, 2);
    assert_eq!(session(&asked).table_state.selected(), Some(1));
    asked.toggle_completed(index);
    assert!(!session(&asked).entries[1].is_translated);
    assert_eq!(session(&asked).translated_keys, 0);
}

#[test]
fn toggling_out_of_range_changes_nothing() {
    let mut app = editing_app();
    let mut state = app.editing.take().unwrap();
    let before = state.clone();
    state.toggle(2);
    assert_eq!(state, before);
    state.toggle(usize::MAX);
    assert_eq!(state, before);
}

#[test]
fn toggling_on_an_empty_document_asks_for_nothing() {
    let mut app = fresh_app();
    app.open_document("e.json".to_string(), "{}", None, None, None).unwrap();
    assert_eq!(session(&app).table_state.selected(), Some(0));
    assert_eq!(press(&mut app, Key::Char('t')), Request::Nothing);
    assert_eq!(press(&mut app, Key::Enter), Request::Nothing);
    assert_eq!(session(&app).editing, None);
    assert_eq!(press(&mut app, Key::Down), Request::Nothing);
    assert_eq!(session(&app).table_state.selected(), Some(0));
    assert_eq!(app.toggle_translation(), Request::Nothing);
}

#[test]
fn confirming_an_edit_stores_the_draft_as_text() {
    let mut app = editing_app();
    press(&mut app, Key::Down);
    press(&mut app, Key::Enter);
    assert_eq!(session(&app).editing, Some(1));
    assert_eq!(session(&app).input, "World");
    assert_eq!(session(&app).cursor_pos, 5);
    for _ in 0..5 {
        press(&mut app, Key::Backspace);
    }
    type_text(&mut app, "Mundo");
    assert_eq!(session(&app).input, "Mundo");
    assert_eq!(press(&mut app, Key::Enter), Request::Nothing);
    let state = session(&app);
    assert_eq!(state.entries[1].translated, "\"Mundo\"");
    assert_eq!(json_translate::json::format_json_value(&state.entries[1].translated), "Mundo");
    assert_eq!(state.entries[1].original, "\"World\"");
    assert!(!state.entries[1].is_translated);
    assert_eq!(state.entries[0].translated, "\"Hello\"");
    assert_eq!(state.editing, None);
    assert_eq!(state.input, "");
    assert_eq!(state.cursor_pos, 0);
    assert_eq!(state.translated_keys, 0);
}

#[test]
fn an_empty_draft_becomes_the_empty_string() {
    let mut app = editing_app();
    press(&mut app, Key::Enter);
    for _ in 0..5 {
        press(&mut app, Key::Backspace);
    }
    assert_eq!(session(&app).input, "");
    press(&mut app, Key::Enter);
    assert_eq!(session(&app).entries[0].translated, "\"\"");
}

#[test]
fn a_number_becomes_text_once_it_is_edited() {
    let mut app = fresh_app();
    app.open_document("n.json".to_string(), "{\"n\": 42, \"ok\": true}", None, None, None).unwrap();
    press(&mut app, Key::Enter);
    assert_eq!(session(&app).input, "42");
    press(&mut app, Key::Enter);
    assert_eq!(session(&app).entries[0].translated, "\"42\"");
    assert_eq!(session(&app).entries[0].original, "42");
    assert_eq!(session(&app).entries[1].translated, "true");
}

#[test]
fn a_draft_with_special_characters_is_escaped() {
    let mut app = editing_app();
    let mut state = app.editing.take().unwrap();
    state.set_translated(0, "a\"b\\c\nd");
    assert_eq!(state.entries[0].translated, "\"a\\\"b\\\\c\\nd\"");
    state.set_translated(7, "x");
    assert_eq!(state.entries.len(), 2);
    state.store_translated(1, "[1]".to_string());
    assert_eq!(state.entries[1].translated, "[1]");
    assert!(state.is_well_formed());
}

#[test]
fn cancelling_an_edit_keeps_the_entry() {
    let mut app = editing_app();
    press(&mut app, Key::Enter);
    type_text(&mut app, "!!");
    press(&mut app, Key::Home);
    type_text(&mut app, ">");
    assert_eq!(session(&app).input, ">Hello!!");
    assert_eq!(session(&app).cursor_pos, 1);
    assert_eq!(press(&mut app, Key::Esc), Request::Nothing);
    assert_eq!(app.state, AppState::Editing);
    let state = session(&app);
    assert_eq!(state.entries[0].translated, "\"Hello\"");
    assert_eq!(state.editing, None);
    assert_eq!(state.input, "");
}

#[test]
fn letters_are_text_during_an_edit() {
    let mut app = editing_app();
    press(&mut app, Key::Enter);
    type_text(&mut app, "tbsq");
    assert_eq!(session(&app).input, "Hellotbsq");
    assert_eq!(app.state, AppState::Editing);
    assert!(!session(&app).search_mode);
    assert!(!session(&app).entries[0].is_translated);
}

#[test]
fn the_row_cursor_is_clamped() {
    let mut app = editing_app();
    press(&mut app, Key::Up);
    assert_eq!(session(&app).table_state.selected(), Some(0));
    press(&mut app, Key::Down);
    press(&mut app, Key::Down);
    assert_eq!(session(&app).table_state.selected(), Some(1));
    press(&mut app, Key::Up);
    assert_eq!(session(&app).table_state.selected(), Some(0));
}

#[test]
fn search_starts_empty_with_no_match() {
    let mut app = editing_app();
    assert_eq!(press(&mut app, Key::Char('s')), Request::Nothing);
    let state = session(&app);
    assert!(state.search_mode);
    assert_eq!(state.search_query, "");
    assert!(state.search_results.is_empty());
    assert_eq!(state.search_selection, None);
}

#[test]
fn the_query_is_matched_on_every_key_stroke() {
    let mut app = fresh_app();
    let source = "{\"apple\":\"1\",\"Banana\":\"2\",\"grape\":\"3\"}";
    app.open_document("f.json".to_string(), source, None, None, None).unwrap();
    assert_eq!(session(&app).entries[0].key, "Banana");
    press(&mut app, Key::Char('S'));
    type_text(&mut app, "A");
    assert_eq!(session(&app).search_results, vec![0, 1, 2]);
    assert_eq!(session(&app).search_selection, Some(0));
    type_text(&mut app, "p");
    assert_eq!(session(&app).search_query, "Ap");
    assert_eq!(session(&app).search_results, vec![1, 2]);
    type_text(&mut app, "p");
    assert_eq!(session(&app).search_results, vec![1]);
    type_text(&mut app, "x");
    assert!(session(&app).search_results.is_empty());
    assert_eq!(session(&app).search_selection, None);
    press(&mut app, Key::Backspace);
    assert_eq!(session(&app).search_results, vec![1]);
    assert_eq!(session(&app).search_selection, Some(0));
    for _ in 0..3 {
        press(&mut app, Key::Backspace);
    }
    assert_eq!(session(&app).search_query, "");
    assert!(session(&app).search_results.is_empty());
    assert_eq!(session(&app).search_selection, None);
    press(&mut app, Key::Backspace);
    assert_eq!(session(&app).search_query, "");
    assert!(session(&app).search_mode);
}

#[test]
fn the_search_selection_does_not_wrap_around() {
    let mut app = editing_app();
    press(&mut app, Key::Char('s'));
    type_text(&mut app, "o");
    assert!(session(&app).search_results.is_empty());
    press(&mut app, Key::Up);
    assert_eq!(session(&app).search_selection, None);
    press(&mut app, Key::Backspace);
    let mut app = fresh_app();
    let source = "{\"k1\":\"1\",\"k2\":\"2\",\"k3\":\"3\"}";
    app.open_document("f.json".to_string(), source, None, None, None).unwrap();
    press(&mut app, Key::Char('s'));
    type_text(&mut app, "k");
    assert_eq!(session(&app).search_selection, Some(0));
    press(&mut app, Key::Up);
    assert_eq!(session(&app).search_selection, None);
    press(&mut app, Key::Up);
    assert_eq!(session(&app).search_selection, Some(2));
    press(&mut app, Key::Down);
    assert_eq!(session(&app).search_selection, None);
    press(&mut app, Key::Down);
    assert_eq!(session(&app).search_selection, Some(0));
    press(&mut app, Key::Down);
    assert_eq!(session(&app).search_selection, Some(1));
}

#[test]
fn confirming_a_search_jumps_to_the_match() {
    let mut app = fresh_app();
    let source = "{\"k1\":\"1\",\"k2\":\"2\",\"other\":\"3\",\"k4\":\"4\"}";
    app.open_document("f.json".to_string(), source, None, None, None).unwrap();
    press(&mut app, Key::Char('s'));
    type_text(&mut app, "K");
    assert_eq!(session(&app).search_results, vec![0, 1, 2]);
    press(&mut app, Key::Down);
    press(&mut app, Key::Down);
    assert_eq!(press(&mut app, Key::Enter), Request::Nothing);
    let state = session(&app);
    assert_eq!(state.table_state.selected(), Some(2));
    assert_eq!(state.entries[2].key, "k4");
    assert!(!state.search_mode);
    assert_eq!(state.search_query, "");
    assert!(state.search_results.is_empty());
    assert_eq!(state.search_selection, None);
}

#[test]
fn confirming_a_search_without_selection_keeps_the_cursor() {
    let mut app = editing_app();
    press(&mut app, Key::Down);
    press(&mut app, Key::Char('s'));
    type_text(&mut app, "a");
    press(&mut app, Key::Up);
    assert_eq!(session(&app).search_selection, None);
    press(&mut app, Key::Enter);
    assert_eq!(session(&app).table_state.selected(), Some(1));
    assert!(!session(&app).search_mode);
}

#[test]
fn cancelling_a_search_keeps_the_cursor() {
    let mut app = editing_app();
    press(&mut app, Key::Char('s'));
    type_text(&mut app, "b");
    assert_eq!(session(&app).search_results, vec![1]);
    assert_eq!(press(&mut app, Key::Esc), Request::Nothing);
    let state = session(&app);
    assert_eq!(app.state, AppState::Editing);
    assert_eq!(state.table_state.selected(), Some(0));
    assert!(!state.search_mode);
    assert_eq!(state.search_query, "");
    assert!(state.search_results.is_empty());
}

#[test]
fn letters_are_query_text_in_search_mode() {
    let mut app = editing_app();
    press(&mut app, Key::Char('s'));
    type_text(&mut app, "tqb");
    assert_eq!(session(&app).search_query, "tqb");
    assert_eq!(app.state, AppState::Editing);
    assert_eq!(session(&app).translated_keys, 0);
}

#[test]
fn update_search_results_follows_the_query() {
    let mut app = editing_app();
    {
        let state = app.editing.as_mut().unwrap();
        state.search_mode = true;
        state.search_query = "HELLO".to_string();
    }
    app.update_search_results();
    assert!(session(&app).search_results.is_empty());
    app.editing.as_mut().unwrap().search_query = "B".to_string();
    app.update_search_results();
    assert_eq!(session(&app).search_results, vec![1]);
    assert_eq!(session(&app).search_selection, Some(0));
    app.editing.as_mut().unwrap().search_query = String::new();
    app.update_search_results();
    assert!(session(&app).search_results.is_empty());
    assert_eq!(session(&app).search_selection, None);
}

#[test]
fn asking_to_return_puts_the_question() {
    let mut app = editing_app();
    assert_eq!(press(&mut app, Key::Esc), Request::Nothing);
    assert_eq!(app.state, AppState::SaveConfirmation);
    let question = app.save_confirmation.as_ref().unwrap();
    assert_eq!(question.message, "Save and go back?");
    assert_eq!(question.pending, PendingAction::SaveAndReturn);
}

#[test]
fn asking_to_quit_puts_the_question() {
    let mut app = editing_app();
    assert_eq!(press(&mut app, Key::Char('q')), Request::Nothing);
    assert_eq!(app.state, AppState::SaveConfirmation);
    let question = app.save_confirmation.as_ref().unwrap();
    assert_eq!(question.message, "Save and quit?");
    assert_eq!(question.pending, PendingAction::SaveAndExit);
}

#[test]
fn the_question_falls_back_to_its_key() {
    let app = App::new(Vec::new(), Locale { ui: Vec::new() });
    assert_eq!(
        ask_confirmation(&app, PendingAction::SaveAndExit).message,
        "save_exit_confirmation"
    );
    assert_eq!(
        ask_confirmation(&app, PendingAction::SaveAndReturn).message,
        "save_return_confirmation"
    );
}

#[test]
fn cancelling_the_question_goes_back_to_editing_without_a_save() {
    let mut app = editing_app();
    press(&mut app, Key::Esc);
    assert_eq!(press(&mut app, Key::Esc), Request::Nothing);
    assert_eq!(app.state, AppState::Editing);
    assert!(app.save_confirmation.is_none());
    assert_eq!(session(&app).entries.len(), 2);
}

#[test]
fn confirming_the_question_saves_then_returns() {
    let mut app = editing_app();
    press(&mut app, Key::Esc);
    match press(&mut app, Key::Enter) {
        Request::Save { effects } => assert_eq!(effects.len(), 3),
        other => panic!("confirming asked for {:?}", other),
    }
    assert_eq!(app.state, AppState::SaveConfirmation);
    app.save_completed(10);
    assert_eq!(app.state, AppState::FileSelection);
    assert!(app.editing.is_none());
    assert!(app.save_confirmation.is_none());
    assert!(app.is_well_formed());
}

#[test]
fn confirming_the_question_saves_then_leaves() {
    let mut app = editing_app();
    press(&mut app, Key::Char('Q'));
    match press(&mut app, Key::Char(' ')) {
        Request::Save { effects } => assert_eq!(effects.len(), 3),
        other => panic!("confirming asked for {:?}", other),
    }
    app.save_completed(10);
    assert_eq!(app.state, AppState::Exiting);
    assert!(app.editing.is_none());
    assert!(app.is_well_formed());
}

#[test]
fn other_keys_leave_the_question() {
    let mut app = editing_app();
    press(&mut app, Key::Esc);
    let before = app.clone();
    for key in [Key::Char('x'), Key::Up, Key::Down, Key::Backspace, Key::Other] {
        assert_eq!(press(&mut app, key), Request::Nothing);
        assert_eq!(app, before);
    }
}

#[test]
fn a_save_arms_the_notification_until_it_times_out() {
    let mut app = editing_app();
    assert!(matches!(press(&mut app, Key::Char('B')), Request::Save { .. }));
    assert_eq!(session(&app).save_notification, None);
    app.save_completed(1_000);
    assert_eq!(app.state, AppState::Editing);
    assert_eq!(session(&app).save_notification, Some(1_000));
    app.check_notification_timeout(1_000 + SAVE_NOTIFICATION_MILLIS);
    assert_eq!(session(&app).save_notification, Some(1_000));
    app.check_notification_timeout(500);
    assert_eq!(session(&app).save_notification, Some(1_000));
    app.check_notification_timeout(1_001 + SAVE_NOTIFICATION_MILLIS);
    assert_eq!(session(&app).save_notification, None);
    app.check_notification_timeout(9_000);
    assert_eq!(session(&app).save_notification, None);
    assert_eq!(SAVE_NOTIFICATION_MILLIS, 2000);
}

#[test]
fn a_failed_save_changes_nothing() {
    let mut app = editing_app();
    app.editing.as_mut().unwrap().entries[1].translated = "nonsense".to_string();
    let before = app.clone();
    assert!(matches!(handle_events(&mut app, Key::Char('b')), Err(SaveError::Snapshot(_))));
    assert_eq!(app, before);
    assert!(matches!(app.save_current_file(), Err(SaveError::Snapshot(_))));
    press(&mut app, Key::Esc);
    let asked = app.clone();
    assert!(matches!(handle_events(&mut app, Key::Enter), Err(SaveError::Snapshot(_))));
    assert_eq!(app, asked);
    assert_eq!(app.state, AppState::SaveConfirmation);
}

#[test]
fn a_source_that_is_no_object_is_not_opened() {
    let mut app = fresh_app();
    let before = app.clone();
    let refused = app.open_document("one.json".to_string(), "[1,2]", None, None, None);
    assert!(matches!(refused, Err(LoadError::NotAnObject)));
    assert_eq!(app, before);
    let refused = app.open_document("one.json".to_string(), "{ nope", None, None, None);
    assert!(matches!(refused, Err(LoadError::InvalidJson(_))));
    assert_eq!(app, before);
    assert_eq!(app.state, AppState::FileSelection);
}

#[test]
fn reopening_merges_the_snapshot_and_the_ledger() {
    let mut app = fresh_app();
    let ledger = TranslatedKeysData {
        keys: vec!["b".to_string(), "gone".to_string()],
        last_updated: "2024-05-01T10:00:00+02:00".to_string(),
    };
    app.open_document(
        "one.json".to_string(),
        SOURCE,
        Some("{\"b\":\"Mundo\",\"c\":\"extra\"}"),
        Some(&ledger),
        Some("a"),
    ).unwrap();
    let state = session(&app);
    assert_eq!(state.entries.len(), 2);
    assert_eq!(state.entries[0].translated, "\"Hello\"");
    assert!(!state.entries[0].is_translated);
    assert_eq!(state.entries[1].translated, "\"Mundo\"");
    assert_eq!(state.entries[1].original, "\"World\"");
    assert!(state.entries[1].is_translated);
    assert_eq!(state.translated_keys, 1);
    assert_eq!(state.total_keys, 2);
}

#[test]
fn a_corrupt_snapshot_does_not_stop_the_opening() {
    let mut app = fresh_app();
    app.open_document("one.json".to_string(), SOURCE, Some("{{"), None, None).unwrap();
    assert_eq!(session(&app).entries[1].translated, "\"World\"");
}

#[test]
fn a_legacy_ledger_marks_its_keys_and_is_replaced_by_the_next_save() {
    let mut app = fresh_app();
    app.open_document("one.json".to_string(), SOURCE, None, None, Some("a; b")).unwrap();
    let state = session(&app);
    assert!(state.entries[0].is_translated);
    assert!(state.entries[1].is_translated);
    assert_eq!(state.translated_keys, 2);
    match press(&mut app, Key::Char('b')) {
        Request::Save { effects } => {
            assert!(matches!(effects[0], Effect::WriteSnapshot { .. }));
            assert_eq!(ledger_keys(&effects[1]), vec!["a".to_string(), "b".to_string()]);
            assert_eq!(effects[2], Effect::RemoveLegacyLedger);
        }
        other => panic!("saving asked for {:?}", other),
    }
}

#[test]
fn saving_then_reloading_gives_the_entries_back() {
    let mut app = editing_app();
    press(&mut app, Key::Char('t'));
    press(&mut app, Key::Down);
    press(&mut app, Key::Enter);
    type_text(&mut app, " wide");
    press(&mut app, Key::Enter);
    let saved = session(&app).entries.clone();
    let effects = match press(&mut app, Key::Char('b')) {
        Request::Save { effects } => effects,
        other => panic!("saving asked for {:?}", other),
    };
    let snapshot = match &effects[0] {
        Effect::WriteSnapshot { text } => text.clone(),
        other => panic!("{:?} writes no snapshot", other),
    };
    let ledger = match &effects[1] {
        Effect::WriteLedger { keys } => {
            ledger_record(keys.clone(), "2024-05-01T10:00:00+02:00".to_string())
        }
        other => panic!("{:?} writes no ledger", other),
    };
    let mut again = fresh_app();
    again
        .open_document("one.json".to_string(), SOURCE, Some(&snapshot), Some(&ledger), None)
        .unwrap();
    assert_eq!(session(&again).entries, saved);
    assert_eq!(session(&again).translated_keys, 1);
    assert_eq!(session(&again).entries[1].translated, "\"World wide\"");
}

#[test]
fn a_document_is_opened_from_the_list_only() {
    let mut app = editing_app();
    press(&mut app, Key::Char('t'));
    let before = app.clone();
    let refused = app.open_document("two.json".to_string(), "{\"z\": null}", None, None, None);
    assert!(matches!(refused, Err(LoadError::NotSelecting)));
    assert_eq!(app, before);
    press(&mut app, Key::Esc);
    let asked = app.clone();
    let refused = app.open_document("two.json".to_string(), SOURCE, None, None, None);
    assert!(matches!(refused, Err(LoadError::NotSelecting)));
    assert_eq!(app, asked);
    let mut gone = fresh_app();
    press(&mut gone, Key::Esc);
    let refused = gone.open_document("two.json".to_string(), SOURCE, None, None, None);
    assert!(matches!(refused, Err(LoadError::NotSelecting)));
    assert_eq!(gone.state, AppState::Exiting);
    assert!(gone.editing.is_none());
}

#[test]
fn a_second_document_is_opened_after_the_return_to_the_list() {
    let mut app = editing_app();
    press(&mut app, Key::Esc);
    press(&mut app, Key::Enter);
    app.save_completed(3);
    assert_eq!(app.state, AppState::FileSelection);
    app.open_document("two.json".to_string(), "{\"z\": null}", None, None, None).unwrap();
    let state = session(&app);
    assert_eq!(state.original_path, "two.json");
    assert_eq!(state.entries.len(), 1);
    assert_eq!(state.entries[0].original, "null");
    assert_eq!(state.translated_keys, 0);
    assert_eq!(app.state, AppState::Editing);
}

#[test]
fn toggle_translation_hands_out_the_ledger() {
    let app = editing_app();
    let before = app.clone();
    match app.toggle_translation() {
        Request::Toggle { index, effects } => {
            assert_eq!(index, 0);
            assert_eq!(ledger_keys(&effects[0]), vec!["a".to_string()]);
        }
        other => panic!("toggling asked for {:?}", other),
    }
    assert_eq!(app, before);
    let mut none = fresh_app();
    assert_eq!(none.toggle_translation(), Request::Nothing);
    assert!(matches!(none.save_current_file(), Ok(Request::Nothing)));
    none.save_completed(5);
    assert_eq!(none.state, AppState::FileSelection);
}

#[test]
fn each_state_has_its_handler() {
    let mut app = fresh_app();
    assert_eq!(handle_file_selection(&mut app, Key::Enter), Request::OpenDocument { index: 0 });
    assert!(matches!(handle_editing(&mut app, Key::Char('t')), Ok(Request::Nothing)));
    let mut app = editing_app();
    assert!(matches!(handle_editing(&mut app, Key::Char('t')), Ok(Request::Toggle { .. })));
    press(&mut app, Key::Esc);
    assert!(matches!(handle_save_confirmation(&mut app, Key::Enter), Ok(Request::Save { .. })));
}

#[test]
fn a_handler_does_nothing_outside_its_state() {
    let mut app = fresh_app();
    let before = app.clone();
    for key in [Key::Esc, Key::Enter, Key::Char(' '), Key::Char('x')] {
        assert!(matches!(handle_save_confirmation(&mut app, key), Ok(Request::Nothing)));
        assert_eq!(app, before);
        assert!(matches!(handle_editing(&mut app, key), Ok(Request::Nothing)));
        assert_eq!(app, before);
    }
    let mut app = App::new(Vec::new(), locale());
    assert!(matches!(handle_save_confirmation(&mut app, Key::Esc), Ok(Request::Nothing)));
    assert_eq!(app.state, AppState::FileSelection);
    assert!(app.is_well_formed());
    let mut app = editing_app();
    let before = app.clone();
    for key in [Key::Esc, Key::Enter, Key::Char(' '), Key::Down, Key::Char('q')] {
        assert!(matches!(handle_save_confirmation(&mut app, key), Ok(Request::Nothing)));
        assert_eq!(app, before);
        assert_eq!(handle_file_selection(&mut app, key), Request::Nothing);
        assert_eq!(app, before);
    }
    press(&mut app, Key::Esc);
    let asked = app.clone();
    for key in [Key::Esc, Key::Char('t'), Key::Char('b'), Key::Down] {
        assert!(matches!(handle_editing(&mut app, key), Ok(Request::Nothing)));
        assert_eq!(app, asked);
    }
}

#[test]
fn the_session_says_what_a_key_asks_for() {
    let document = vec![("a".to_string(), "1".to_string())];
    let none = serde_json::Map::new();
    let mut state = EditingState::load(&document, &none, &Vec::new(), "p".to_string());
    let fresh = state.clone();
    assert_eq!(state.handle_key(Key::Char('t')), Signal::Toggle);
    assert_eq!(state, fresh);
    assert_eq!(state.handle_key(Key::Char('b')), Signal::Save);
    assert_eq!(state.handle_key(Key::Char('q')), Signal::ConfirmExit);
    assert_eq!(state.handle_key(Key::Esc), Signal::ConfirmReturn);
    assert_eq!(state.handle_key(Key::F(2)), Signal::SwitchLanguage);
    assert_eq!(state.handle_key(Key::Down), Signal::Nothing);
    assert_eq!(state.handle_key(Key::Char('s')), Signal::Nothing);
    assert_eq!(state.handle_key(Key::Char('q')), Signal::Nothing);
    assert_eq!(state.search_query, "q");
    state.close_search();
    assert!(state.is_well_formed());
    state.handle_normal_key(Key::Enter);
    state.handle_edit_key(0, Key::Char('0'));
    assert_eq!(state.input, "10");
    state.close_edit();
    assert!(state.is_well_formed());
    state.search_mode = true;
    state.handle_search_key(Key::Char('A'));
    assert_eq!(state.search_results, vec![0]);
}

#[test]
fn a_broken_value_is_told_from_a_sound_one() {
    let mut app = editing_app();
    app.editing.as_mut().unwrap().translated_keys = 2;
    assert!(!app.is_well_formed());
    let mut app = editing_app();
    app.editing.as_mut().unwrap().search_results = vec![0];
    assert!(!app.is_well_formed());
    let mut app = editing_app();
    app.editing.as_mut().unwrap().cursor_pos = 1;
    assert!(!app.is_well_formed());
    let mut app = editing_app();
    app.editing.as_mut().unwrap().editing = Some(2);
    assert!(!app.is_well_formed());
    let mut app = editing_app();
    app.file_selection.list_state.select(Some(2));
    assert!(!app.is_well_formed());
    let mut app = editing_app();
    app.editing = None;
    assert!(!app.is_well_formed());
}
