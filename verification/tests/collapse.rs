use jex::app_state::AppState;
use jex::json_item::{JsonItem, SpanRole};
use jex::parse_json::parse_json_string;

fn open(json: &str) -> AppState {
    let rows = parse_json_string(json).unwrap();
    assert!(!rows.is_empty() && rows.len() < usize::MAX);
    AppState::new(rows, String::new())
}

fn numbers(rows: &[JsonItem]) -> Vec<usize> {
    rows.iter().map(|row| row.line_number).collect()
}

fn visible_flags(state: &AppState) -> Vec<bool> {
    state.items().iter().map(|row| row.visible).collect()
}

fn collapsed_rows(state: &AppState) -> Vec<usize> {
    state.items().iter().filter(|row| row.collapsed).map(|row| row.line_number).collect()
}

const LIST: &str = "{\"x\":[1,2,3]}";
const LIST_AND_SCALAR: &str = "{\"a\":[1],\"b\":5}";
const TWO_LISTS: &str = "{\"a\":[1],\"b\":[2]}";
const NESTED: &str = "{\"a\":{\"b\":[1,2]}}";

#[test]
fn collapsing_an_array_hides_its_children_and_its_closing_row() {
    let mut state = open(LIST);
    state.set_list_height(20);
    state.select_next(1);
    state.toggle_collapsed();
    assert_eq!(collapsed_rows(&state), vec![1]);
    assert_eq!(visible_flags(&state), vec![true, true, false, false, false, false, true]);
    assert_eq!(numbers(&state.visible_items()), vec![0, 1, 6]);
    assert_eq!(numbers(&state.display_items()), vec![0, 1, 6]);
    assert_eq!(state.selection_index(), Some(1));
    let spans = state.items()[1].display_text(state.selection_index());
    let summary: Vec<&str> = spans
        .iter()
        .filter(|span| span.role == SpanRole::ItemCount)
        .map(|span| span.text.as_str())
        .collect();
    assert_eq!(summary, vec!["3 items"]);
}

#[test]
fn toggling_twice_restores_every_visible_flag() {
    for json in [LIST, LIST_AND_SCALAR, TWO_LISTS, NESTED, "[[[1],2],[3,[4]]]", "7"] {
        let rows = parse_json_string(json).unwrap().len();
        for position in 0..rows {
            let mut state = open(json);
            state.set_list_height(4);
            state.select_next(position);
            let before = visible_flags(&state);
            state.toggle_collapsed();
            state.toggle_collapsed();
            assert_eq!(visible_flags(&state), before);
            assert_eq!(collapsed_rows(&state), Vec::<usize>::new());
        }
    }
}

#[test]
fn toggling_twice_restores_visibility_under_a_collapsed_parent() {
    let mut state = open(NESTED);
    state.select_next(2);
    state.toggle_collapsed();
    let before = visible_flags(&state);
    assert_eq!(before, vec![true, true, true, false, false, false, true, true]);
    state.select_next(1);
    assert_eq!(state.selection_index(), Some(6));
    state.toggle_collapsed();
    state.toggle_collapsed();
    assert_eq!(visible_flags(&state), before);
    assert_eq!(collapsed_rows(&state), vec![2]);
}

#[test]
fn collapsing_a_closed_sibling_leaves_the_selection_on_its_row() {
    let mut state = open(LIST_AND_SCALAR);
    state.select_next(4);
    assert_eq!(state.selection_index(), Some(4));
    state.toggle_collapsed();
    assert_eq!(collapsed_rows(&state), vec![1]);
    assert_eq!(numbers(&state.visible_items()), vec![0, 1, 4, 5]);
    assert_eq!(state.selection_index(), Some(4));
    assert_eq!(state.selected_position(), 2);
    assert!(state.items()[4].visible);
    state.toggle_collapsed();
    assert_eq!(collapsed_rows(&state), Vec::<usize>::new());
    assert_eq!(state.selection_index(), Some(4));
    assert_eq!(state.selected_position(), 4);
}

#[test]
fn collapsing_from_a_leaf_moves_the_selection_to_the_container() {
    let mut state = open(LIST);
    state.select_next(3);
    assert_eq!(state.selection_index(), Some(3));
    state.toggle_collapsed();
    assert_eq!(collapsed_rows(&state), vec![1]);
    assert_eq!(state.selection_index(), Some(1));
    assert_eq!(state.selected_position(), 1);
    assert!(state.items()[1].visible);
    assert!(!state.items()[3].visible);
}

#[test]
fn collapsing_from_a_closing_row_moves_the_selection_to_the_container() {
    let mut state = open(LIST);
    state.select_next(5);
    state.toggle_collapsed();
    assert_eq!(collapsed_rows(&state), vec![1]);
    assert_eq!(state.selection_index(), Some(1));
}

#[test]
fn toggling_without_a_container_changes_nothing() {
    let mut state = open("42");
    state.toggle_collapsed();
    assert_eq!(visible_flags(&state), vec![true]);
    assert_eq!(collapsed_rows(&state), Vec::<usize>::new());
    assert_eq!(state.selection_index(), Some(0));
}

#[test]
fn collapsing_the_root_leaves_one_row() {
    let mut state = open(TWO_LISTS);
    state.toggle_collapsed();
    assert_eq!(numbers(&state.visible_items()), vec![0]);
    assert_eq!(state.selection_index(), Some(0));
    state.select_next(5);
    assert_eq!(state.selected_position(), 0);
    state.select_bottom();
    assert_eq!(state.selected_position(), 0);
    state.toggle_collapsed();
    assert_eq!(state.visible_len(), 8);
}

#[test]
fn an_inner_collapse_survives_collapsing_the_parent() {
    let mut state = open(NESTED);
    state.select_next(2);
    state.toggle_collapsed();
    assert_eq!(numbers(&state.visible_items()), vec![0, 1, 2, 6, 7]);
    state.select_previous(1);
    state.toggle_collapsed();
    assert_eq!(numbers(&state.visible_items()), vec![0, 1, 7]);
    assert_eq!(collapsed_rows(&state), vec![1, 2]);
    state.toggle_collapsed();
    assert_eq!(numbers(&state.visible_items()), vec![0, 1, 2, 6, 7]);
    assert_eq!(collapsed_rows(&state), vec![2]);
}

#[test]
fn collapse_level_collapses_every_container_of_the_depth() {
    let mut state = open(TWO_LISTS);
    state.select_next(4);
    assert_eq!(state.selection_index(), Some(4));
    state.collapse_level();
    assert_eq!(collapsed_rows(&state), vec![1, 4]);
    assert_eq!(numbers(&state.visible_items()), vec![0, 1, 4, 7]);
    assert_eq!(state.selection_index(), Some(4));
    assert_eq!(state.selected_position(), 2);
}

#[test]
fn collapse_level_leaves_other_depths_alone() {
    let mut state = open("{\"a\":{\"b\":[1]},\"c\":[2]}");
    state.select_next(1);
    state.collapse_level();
    assert_eq!(collapsed_rows(&state), vec![1, 6]);
    assert_eq!(numbers(&state.visible_items()), vec![0, 1, 6, 9]);
}

#[test]
fn collapse_level_on_a_scalar_or_a_closing_row_changes_nothing() {
    let mut state = open(TWO_LISTS);
    state.select_next(2);
    state.collapse_level();
    assert_eq!(collapsed_rows(&state), Vec::<usize>::new());
    state.select_next(1);
    state.collapse_level();
    assert_eq!(collapsed_rows(&state), Vec::<usize>::new());
    assert_eq!(state.visible_len(), 8);
    assert_eq!(state.selection_index(), Some(3));
}

#[test]
fn uncollapse_all_shows_every_row_and_keeps_the_selection() {
    let mut state = open(TWO_LISTS);
    state.select_next(1);
    state.collapse_level();
    state.select_next(1);
    assert_eq!(state.selection_index(), Some(4));
    state.uncollapse_all();
    assert_eq!(collapsed_rows(&state), Vec::<usize>::new());
    assert_eq!(visible_flags(&state), vec![true; 8]);
    assert_eq!(state.selection_index(), Some(4));
    assert_eq!(state.selected_position(), 4);
}

#[test]
fn the_selection_is_always_visible() {
    let json = "{\"a\":[1,[2,3],{\"b\":4}],\"c\":{\"d\":[5]},\"e\":6}";
    let rows = parse_json_string(json).unwrap().len();
    for first in 0..rows {
        for second in 0..rows {
            let mut state = open(json);
            state.set_list_height(5);
            state.select_next(first);
            state.toggle_collapsed();
            state.select_top();
            state.select_next(second);
            state.toggle_collapsed();
            let id = state.selection_index().unwrap();
            assert!(state.items()[id].visible);
            let selected = state.selected_position();
            assert_eq!(state.visible_items()[selected].line_number, id);
            assert!(state.top_index() <= selected && selected < state.window_end());
        }
    }
}

#[test]
fn the_window_follows_a_collapse() {
    let mut state = open("[[1,2,3,4,5,6,7,8],9]");
    state.set_list_height(4);
    state.select_next(8);
    assert_eq!(state.selection_index(), Some(8));
    assert_eq!((state.top_index(), state.window_end()), (6, 9));
    state.toggle_collapsed();
    assert_eq!(state.selection_index(), Some(1));
    assert_eq!(numbers(&state.visible_items()), vec![0, 1, 11, 12]);
    assert_eq!((state.top_index(), state.window_end()), (1, 4));
    assert_eq!(numbers(&state.display_items()), vec![1, 11, 12]);
}
