use crossterm::event::{Event, KeyCode, KeyEvent, KeyModifiers};
use jex::app_state::{AppState, SearchState};
use jex::parse_json::parse_json_string;

fn open(json: &str) -> AppState {
    let rows = parse_json_string(json).unwrap();
    assert!(!rows.is_empty() && rows.len() < usize::MAX);
    AppState::new(rows, String::new())
}

fn key(code: KeyCode) -> Event {
    Event::Key(KeyEvent::new(code, KeyModifiers::NONE))
}

fn type_text(state: &mut AppState, text: &str) {
    for c in text.chars() {
        state.update_search(&key(KeyCode::Char(c)));
    }
}

fn results(state: &AppState) -> Vec<usize> {
    state
        .items()
        .iter()
        .filter(|row| row.name_is_search_result || row.value_is_search_result)
        .map(|row| row.line_number)
        .collect()
}

fn list_of(count: usize) -> String {
    let mut json = String::from("[");
    for i in 0..count {
        if i > 0 {
            json.push(',');
        }
        json.push('1');
    }
    json.push(']');
    json
}

const TWO_IDS: &str = "{\"a\": {\"id\": 42}, \"b\": {\"id\": 7}}";
const THREE_OF_NINE: &str =
    "{\"a\":1,\"m1\":1,\"b\":1,\"c\":1,\"m2\":1,\"d\":1,\"e\":1,\"f\":1,\"m3\":1}";

#[test]
fn starting_a_search_expands_everything_and_empties_the_query() {
    let mut state = open(TWO_IDS);
    state.select_next(1);
    state.toggle_collapsed();
    state.set_search_text("id".to_string());
    state.start_searching();
    assert_eq!(state.search_state(), SearchState::Searching);
    assert_eq!(state.search_text(), "");
    assert_eq!(state.visible_len(), 8);
    assert_eq!(results(&state), Vec::<usize>::new());
    assert_eq!(state.selection_index(), Some(1));
    assert_eq!(state.status_text(""), "0 results");
}

#[test]
fn typing_marks_the_results_and_selects_the_first() {
    let mut state = open(TWO_IDS);
    state.start_searching();
    type_text(&mut state, "i");
    assert_eq!(state.search_text(), "i");
    assert_eq!(results(&state), vec![2, 5]);
    type_text(&mut state, "d=7");
    assert_eq!(state.search_text(), "id=7");
    assert_eq!(results(&state), vec![5]);
    assert_eq!(state.selection_index(), Some(5));
    assert_eq!(state.status_text(""), "1 results");
    state.update_search(&key(KeyCode::Backspace));
    state.update_search(&key(KeyCode::Backspace));
    assert_eq!(state.search_text(), "id");
    assert_eq!(results(&state), vec![2, 5]);
    assert_eq!(state.selection_index(), Some(2));
    assert_eq!(state.status_text(""), "2 results");
}

#[test]
fn typing_without_results_leaves_the_selection() {
    let mut state = open(TWO_IDS);
    state.select_next(4);
    state.start_searching();
    type_text(&mut state, "zz");
    assert_eq!(results(&state), Vec::<usize>::new());
    assert_eq!(state.selection_index(), Some(4));
}

#[test]
fn submitting_a_query_with_results_browses_them() {
    let mut state = open(TWO_IDS);
    state.start_searching();
    type_text(&mut state, "id");
    state.finish_searching();
    assert_eq!(state.search_state(), SearchState::BrowsingSearch(Some(0)));
    assert_eq!(state.selection_index(), Some(2));
    assert_eq!(state.status_text(""), "Result 1 of 2");
    state.next_search_result();
    assert_eq!(state.status_text(""), "Result 2 of 2");
}

#[test]
fn submitting_a_query_without_results_ends_the_search() {
    let mut state = open(TWO_IDS);
    state.start_searching();
    type_text(&mut state, "nothing");
    state.finish_searching();
    assert_eq!(state.search_state(), SearchState::NotSearching);
    assert_eq!(state.search_text(), "nothing");
}

#[test]
fn cancelling_takes_the_marks_down() {
    let mut state = open(TWO_IDS);
    state.start_searching();
    type_text(&mut state, "id");
    state.finish_searching();
    state.cancel_searching();
    assert_eq!(state.search_state(), SearchState::NotSearching);
    assert_eq!(results(&state), Vec::<usize>::new());
    assert_eq!(state.search_text(), "id");
    assert_eq!(state.selection_index(), Some(2));
}

#[test]
fn results_are_browsed_in_a_cycle() {
    let mut state = open(THREE_OF_NINE);
    state.set_list_height(4);
    state.start_searching();
    type_text(&mut state, "m");
    state.finish_searching();
    assert_eq!(results(&state), vec![2, 5, 9]);
    assert_eq!(state.selected_position(), 2);
    state.next_search_result();
    assert_eq!(state.selected_position(), 5);
    assert_eq!(state.search_state(), SearchState::BrowsingSearch(Some(1)));
    state.next_search_result();
    assert_eq!(state.selected_position(), 9);
    assert_eq!(state.search_state(), SearchState::BrowsingSearch(Some(2)));
    state.next_search_result();
    assert_eq!(state.selected_position(), 2);
    assert_eq!(state.search_state(), SearchState::BrowsingSearch(Some(0)));
    state.previous_search_result();
    assert_eq!(state.selected_position(), 9);
    assert_eq!(state.search_state(), SearchState::BrowsingSearch(Some(2)));
    state.previous_search_result();
    assert_eq!(state.selected_position(), 5);
    let selected = state.selected_position();
    assert!(state.top_index() <= selected && selected < state.window_end());
}

#[test]
fn browsing_steps_do_nothing_without_a_browsed_search() {
    let mut state = open(THREE_OF_NINE);
    state.select_next(3);
    state.next_search_result();
    state.previous_search_result();
    assert_eq!(state.selected_position(), 3);
    assert_eq!(state.search_state(), SearchState::NotSearching);
    state.start_searching();
    type_text(&mut state, "m");
    state.next_search_result();
    assert_eq!(state.search_state(), SearchState::Searching);
    assert_eq!(state.selected_position(), 2);
}

#[test]
fn a_hidden_result_selects_the_container_that_hides_it() {
    let mut state = open("{\"a\":{\"id\":1},\"b\":{\"id\":2},\"id\":3}");
    state.start_searching();
    type_text(&mut state, "id");
    state.finish_searching();
    assert_eq!(results(&state), vec![2, 5, 7]);
    state.select_top();
    state.select_next(1);
    state.toggle_collapsed();
    assert_eq!(results(&state), vec![2, 5, 7]);
    assert_eq!(state.status_text(""), "Result 1 of 3");
    state.next_search_result();
    assert_eq!(state.selection_index(), Some(5));
    state.next_search_result();
    assert_eq!(state.selection_index(), Some(7));
    state.next_search_result();
    assert_eq!(state.search_state(), SearchState::BrowsingSearch(Some(0)));
    assert_eq!(state.selection_index(), Some(1));
    state.previous_search_result();
    assert_eq!(state.search_state(), SearchState::BrowsingSearch(Some(2)));
    assert_eq!(state.selection_index(), Some(7));
}

#[test]
fn browsing_under_a_collapsed_root_stays_on_the_root() {
    let mut state = open("{\"a\":{\"id\":1}}");
    state.start_searching();
    type_text(&mut state, "id");
    state.finish_searching();
    state.select_top();
    state.toggle_collapsed();
    state.next_search_result();
    state.previous_search_result();
    assert_eq!(state.search_state(), SearchState::BrowsingSearch(Some(0)));
    assert_eq!(state.selection_index(), Some(0));
    assert_eq!(state.status_text(""), "Result 1 of 1");
}

#[test]
fn a_cursor_past_the_results_comes_back() {
    let mut state = open("{\"a\":{\"id\":1},\"b\":{\"id\":2},\"id\":3}");
    state.start_searching();
    type_text(&mut state, "id");
    state.finish_searching();
    state.next_search_result();
    state.next_search_result();
    assert_eq!(state.search_state(), SearchState::BrowsingSearch(Some(2)));
    state.set_search_text("id=2".to_string());
    assert_eq!(results(&state), vec![5]);
    state.previous_search_result();
    assert_eq!(state.search_state(), SearchState::BrowsingSearch(Some(0)));
    assert_eq!(state.selection_index(), Some(5));
    state.set_search_text("nothing".to_string());
    state.next_search_result();
    state.previous_search_result();
    assert_eq!(state.search_state(), SearchState::BrowsingSearch(Some(0)));
    assert_eq!(state.selection_index(), Some(5));
    assert_eq!(state.status_text(""), "Result 1 of 0");
}

#[test]
fn searching_for_the_name_of_the_selected_row() {
    let mut state = open(TWO_IDS);
    state.select_next(5);
    state.start_searching_for_name();
    assert_eq!(state.search_text(), "id");
    assert_eq!(state.search_state(), SearchState::BrowsingSearch(Some(0)));
    assert_eq!(results(&state), vec![2, 5]);
    assert_eq!(state.selection_index(), Some(2));
}

#[test]
fn searching_for_a_name_needs_a_named_row() {
    let mut state = open(TWO_IDS);
    state.select_next(1);
    state.toggle_collapsed();
    state.select_top();
    state.start_searching_for_name();
    assert_eq!(state.search_state(), SearchState::NotSearching);
    assert_eq!(state.search_text(), "");
    assert_eq!(state.visible_len(), 6);
}

#[test]
fn searching_for_a_name_expands_everything() {
    let mut state = open(TWO_IDS);
    state.select_next(4);
    state.toggle_collapsed();
    state.select_top();
    state.select_next(1);
    assert_eq!(state.selection_index(), Some(1));
    state.start_searching_for_name();
    assert_eq!(state.search_text(), "a");
    assert_eq!(state.visible_len(), 8);
    assert_eq!(results(&state), vec![1]);
    assert_eq!(state.search_state(), SearchState::BrowsingSearch(Some(0)));
}

#[test]
fn the_query_can_be_set_as_a_whole() {
    let mut state = open(TWO_IDS);
    state.set_search_text("id".to_string());
    assert_eq!(state.search_text(), "id");
    assert_eq!(results(&state), Vec::<usize>::new());
    state.start_searching();
    state.set_search_text("id=42".to_string());
    assert_eq!(results(&state), vec![2]);
    assert_eq!(state.selection_index(), Some(2));
}

#[test]
fn live_search_is_off_for_a_large_document() {
    let mut state = open(&list_of(100_000));
    assert_eq!(state.num_items_in_file(), 100_001);
    state.start_searching();
    type_text(&mut state, "=1");
    assert_eq!(state.search_text(), "=1");
    assert_eq!(results(&state), Vec::<usize>::new());
    assert_eq!(state.selection_index(), Some(0));
    state.finish_searching();
    assert_eq!(results(&state).len(), 100_000);
    assert_eq!(state.search_state(), SearchState::BrowsingSearch(Some(0)));
    assert_eq!(state.selection_index(), Some(1));
    assert_eq!(state.status_text(""), "Result 1 of 100000");
}

#[test]
fn live_search_is_on_up_to_a_hundred_thousand_values() {
    let mut state = open(&list_of(99_999));
    assert_eq!(state.num_items_in_file(), 100_000);
    state.start_searching();
    type_text(&mut state, "=1");
    assert_eq!(results(&state).len(), 99_999);
    assert_eq!(state.status_text(""), "99999 results");
}

#[test]
fn keys_that_edit_nothing_leave_the_query() {
    let mut state = open(TWO_IDS);
    state.start_searching();
    type_text(&mut state, "id");
    state.update_search(&key(KeyCode::Tab));
    state.update_search(&Event::FocusGained);
    assert_eq!(state.search_text(), "id");
    state.update_search(&key(KeyCode::Left));
    state.update_search(&key(KeyCode::Char('x')));
    assert_eq!(state.search_text(), "ixd");
}
