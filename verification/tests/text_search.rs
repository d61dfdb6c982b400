use json_translate::cursor::{
    move_list_down, move_list_up, move_row_down, move_row_up, move_selection_down,
    move_selection_up, same_positions,
};
use json_translate::entries::Entry;
use json_translate::search::{find_containing, query};
use json_translate::text::{
    chars_of, contains_text, find_pair, has_key, matches_at, string_of,
};

fn entry(key: &str) -> Entry {
    Entry {
        key: key.to_string(),
        original: "\"x\"".to_string(),
        translated: "\"x\"".to_string(),
        is_translated: false,
    }
}

fn chars(s: &str) -> Vec<char> {
    s.chars().collect()
}

#[test]
fn characters_round_trip_through_a_string() {
    let v = chars_of("añ€😀");
    assert_eq!(v, vec!['a', 'ñ', '€', '😀']);
    assert_eq!(string_of(&v), "añ€😀");
}

#[test]
fn a_needle_is_found_where_it_stands() {
    assert!(matches_at(&chars("hello"), &chars("ll"), 2));
    assert!(!matches_at(&chars("hello"), &chars("ll"), 3));
    assert!(!matches_at(&chars("hello"), &chars("lo"), 4));
    assert!(matches_at(&chars("hello"), &chars(""), 5));
    assert!(!matches_at(&chars("hello"), &chars(""), 6));
}

#[test]
fn substring_search_finds_first_middle_and_last() {
    assert!(contains_text(&chars("hello"), &chars("he")));
    assert!(contains_text(&chars("hello"), &chars("ell")));
    assert!(contains_text(&chars("hello"), &chars("lo")));
    assert!(contains_text(&chars("hello"), &chars("hello")));
    assert!(contains_text(&chars("hello"), &chars("")));
    assert!(contains_text(&chars(""), &chars("")));
    assert!(!contains_text(&chars("hello"), &chars("hello!")));
    assert!(!contains_text(&chars("hello"), &chars("lol")));
}

#[test]
fn the_first_pair_of_a_key_is_found() {
    let pairs = vec![
        ("a".to_string(), "1".to_string()),
        ("b".to_string(), "2".to_string()),
        ("a".to_string(), "3".to_string()),
    ];
    assert_eq!(find_pair(&pairs, "a"), Some(0));
    assert_eq!(find_pair(&pairs, "b"), Some(1));
    assert_eq!(find_pair(&pairs, "c"), None);
}

#[test]
fn a_key_is_looked_up_among_keys() {
    let keys = vec!["a".to_string(), "b".to_string()];
    assert!(has_key(&keys, "b"));
    assert!(!has_key(&keys, "B"));
    assert!(!has_key(&Vec::new(), "a"));
}

#[test]
fn query_matches_whatever_the_case() {
    let entries = vec![entry("greeting.hello"), entry("Farewell"), entry("HELLO_AGAIN")];
    assert_eq!(query(&entries, "hello"), vec![0, 2]);
    assert_eq!(query(&entries, "HeLLo"), vec![0, 2]);
    assert_eq!(query(&entries, "farewell"), vec![1]);
    assert_eq!(query(&entries, "e"), vec![0, 1, 2]);
    assert_eq!(query(&entries, "zzz"), Vec::<usize>::new());
}

#[test]
fn the_empty_query_matches_no_entry() {
    let entries = vec![entry("a"), entry("b")];
    assert_eq!(query(&entries, ""), Vec::<usize>::new());
    assert_eq!(query(&Vec::new(), ""), Vec::<usize>::new());
}

#[test]
fn find_containing_compares_exactly() {
    let keys = vec!["abc".to_string(), "ABC".to_string(), "xabcx".to_string()];
    assert_eq!(find_containing(&keys, "abc"), vec![0, 2]);
    assert_eq!(find_containing(&keys, ""), vec![0, 1, 2]);
}

#[test]
fn the_selection_does_not_wrap_around() {
    assert_eq!(move_selection_up(Some(0), 3), None);
    assert_eq!(move_selection_down(Some(2), 3), None);
    assert_eq!(move_selection_up(Some(0), 1), None);
    assert_eq!(move_selection_down(Some(0), 1), None);
}

#[test]
fn the_selection_moves_by_one_match() {
    assert_eq!(move_selection_up(Some(2), 3), Some(1));
    assert_eq!(move_selection_down(Some(0), 3), Some(1));
    assert_eq!(move_selection_up(None, 3), Some(2));
    assert_eq!(move_selection_down(None, 3), Some(0));
}

#[test]
fn the_selection_stays_where_nothing_matches() {
    assert_eq!(move_selection_up(None, 0), None);
    assert_eq!(move_selection_down(None, 0), None);
    assert_eq!(move_selection_up(Some(1), 0), Some(1));
}

#[test]
fn the_row_cursor_stops_at_both_ends() {
    assert_eq!(move_row_up(Some(0)), Some(0));
    assert_eq!(move_row_up(Some(3)), Some(2));
    assert_eq!(move_row_up(None), Some(0));
    assert_eq!(move_row_down(Some(1), 3), Some(2));
    assert_eq!(move_row_down(Some(2), 3), Some(2));
    assert_eq!(move_row_down(None, 3), Some(1));
    assert_eq!(move_row_down(Some(0), 0), Some(0));
    assert_eq!(move_row_down(Some(usize::MAX), 3), Some(usize::MAX));
}

#[test]
fn the_list_cursor_stops_at_both_ends() {
    assert_eq!(move_list_up(Some(0)), Some(0));
    assert_eq!(move_list_up(Some(2)), Some(1));
    assert_eq!(move_list_up(None), None);
    assert_eq!(move_list_down(Some(0), 2), Some(1));
    assert_eq!(move_list_down(Some(1), 2), Some(1));
    assert_eq!(move_list_down(None, 2), None);
}

#[test]
fn positions_compare_in_order() {
    assert!(same_positions(&vec![1, 2], &vec![1, 2]));
    assert!(!same_positions(&vec![1, 2], &vec![2, 1]));
    assert!(!same_positions(&vec![1], &vec![1, 2]));
}
