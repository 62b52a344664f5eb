use jex::app_state::{AppState, SearchState};
use jex::json_item::JsonItem;
use jex::parse_json::parse_json_string;

fn open(json: &str) -> AppState {
    let rows = parse_json_string(json).unwrap();
    assert!(!rows.is_empty() && rows.len() < usize::MAX);
    AppState::new(rows, "doc.json".to_string())
}

fn numbers(rows: &[JsonItem]) -> Vec<usize> {
    rows.iter().map(|row| row.line_number).collect()
}

fn levels(state: &AppState) -> Vec<Option<usize>> {
    state.items().iter().map(|row| row.selection_level).collect()
}

const TEN: &str = "[0,1,2,3,4,5,6,7,8,9]";
const TWO_LISTS: &str = "{\"a\":[1],\"b\":[2]}";

#[test]
fn a_new_state_selects_the_first_row() {
    let state = open(TEN);
    assert_eq!(state.selected_position(), 0);
    assert_eq!(state.selection_index(), Some(0));
    assert_eq!(state.top_index(), 0);
    assert_eq!(state.list_height(), 0);
    assert_eq!(state.search_state(), SearchState::NotSearching);
    assert_eq!(state.search_text(), "");
    assert_eq!(state.filename(), "doc.json");
    assert_eq!(state.visible_len(), 12);
    assert_eq!(state.num_items_in_file(), 11);
    assert_eq!(state.list_state().selected(), Some(0));
    assert_eq!(state.search_input().value(), "");
}

#[test]
fn a_new_state_numbers_the_rows_it_is_given() {
    let rows = vec![
        JsonItem::new(None, 0, jex::json_item::JsonValueType::Array, String::new(), 1),
        JsonItem::new(None, 1, jex::json_item::JsonValueType::Null, "[0]".to_string(), 0),
        JsonItem::new(None, 0, jex::json_item::JsonValueType::ArrayEnd, String::new(), 0),
    ];
    let state = AppState::new(rows, String::new());
    assert_eq!(numbers(state.items()), vec![0, 1, 2]);
    assert_eq!(numbers(&state.visible_items()), vec![0, 1, 2]);
}

#[test]
fn steps_stop_at_the_ends() {
    let mut state = open(TEN);
    state.select_next(1);
    assert_eq!(state.selected_position(), 1);
    state.select_next(4);
    assert_eq!(state.selected_position(), 5);
    state.select_next(100);
    assert_eq!(state.selected_position(), 11);
    state.select_next(usize::MAX);
    assert_eq!(state.selected_position(), 11);
    state.select_previous(3);
    assert_eq!(state.selected_position(), 8);
    state.select_previous(8);
    assert_eq!(state.selected_position(), 0);
    state.select_next(2);
    state.select_previous(100);
    assert_eq!(state.selected_position(), 0);
    state.select_next(0);
    assert_eq!(state.selected_position(), 0);
}

#[test]
fn top_and_bottom_jump_to_the_ends() {
    let mut state = open(TEN);
    state.select_bottom();
    assert_eq!(state.selection_index(), Some(11));
    state.select_top();
    assert_eq!(state.selection_index(), Some(0));
}

#[test]
fn window_follows_the_selection_down_and_up() {
    let mut state = open(TEN);
    state.set_list_height(5);
    state.select_next(3);
    assert_eq!((state.top_index(), state.window_end()), (0, 4));
    state.select_next(1);
    assert_eq!(state.selected_position(), 4);
    assert_eq!((state.top_index(), state.window_end()), (1, 5));
    assert_eq!(numbers(&state.display_items()), vec![1, 2, 3, 4]);
    state.select_bottom();
    assert_eq!((state.top_index(), state.window_end()), (8, 12));
    assert_eq!(numbers(&state.display_items()), vec![8, 9, 10, 11]);
    state.select_previous(2);
    assert_eq!((state.top_index(), state.window_end()), (8, 12));
    state.select_previous(2);
    assert_eq!(state.selected_position(), 7);
    assert_eq!((state.top_index(), state.window_end()), (7, 11));
    state.select_top();
    assert_eq!((state.top_index(), state.window_end()), (0, 4));
}

#[test]
fn window_holds_the_selection_after_every_step() {
    for height in 2u16..9 {
        let mut state = open(TEN);
        state.set_list_height(height);
        let steps: [(bool, usize); 8] = [
            (true, 1),
            (true, 3),
            (true, 20),
            (false, 2),
            (false, 5),
            (true, 7),
            (false, 1),
            (false, 30),
        ];
        for (down, step) in steps {
            if down {
                state.select_next(step);
            } else {
                state.select_previous(step);
            }
            let selected = state.selected_position();
            assert!(state.top_index() <= selected && selected < state.window_end());
            assert!(numbers(&state.display_items()).contains(&state.selection_index().unwrap()));
        }
    }
}

#[test]
fn window_is_cut_at_the_end_of_the_document() {
    let mut state = open("[1]");
    state.set_list_height(10);
    state.select_next(1);
    assert_eq!((state.top_index(), state.window_end()), (0, 3));
    assert_eq!(numbers(&state.display_items()), vec![0, 1, 2]);
}

#[test]
fn a_list_without_height_shows_at_most_the_first_row() {
    let mut state = open(TEN);
    assert_eq!(state.window_end(), 1);
    assert_eq!(numbers(&state.display_items()), vec![0]);
    state.select_next(1);
    assert_eq!(state.selected_position(), 1);
    assert_eq!(state.top_index(), 3);
    assert_eq!(state.window_end(), 1);
    assert_eq!(state.display_items().len(), 0);
    state.set_list_height(1);
    state.select_next(1);
    assert_eq!(state.selected_position(), 2);
    assert_eq!(state.top_index(), 3);
    state.select_bottom();
    assert_eq!(state.top_index(), 12);
    state.select_top_of_screen();
    assert_eq!(state.selected_position(), 11);
}

#[test]
fn screen_jumps_go_to_the_rows_of_the_window() {
    let mut state = open(TEN);
    state.set_list_height(6);
    state.select_bottom_of_screen();
    assert_eq!(state.selected_position(), 4);
    state.select_middle_of_screen();
    assert_eq!(state.selected_position(), 2);
    state.select_top_of_screen();
    assert_eq!(state.selected_position(), 0);
    state.select_next(7);
    assert_eq!((state.top_index(), state.window_end()), (3, 8));
    state.select_top_of_screen();
    assert_eq!(state.selected_position(), 3);
    state.select_bottom_of_screen();
    assert_eq!(state.selected_position(), 7);
    state.select_middle_of_screen();
    assert_eq!(state.selected_position(), 5);
}

#[test]
fn screen_jumps_stay_inside_a_short_document() {
    let mut state = open("[1]");
    state.set_list_height(10);
    state.select_bottom_of_screen();
    assert_eq!(state.selected_position(), 2);
    state.select_middle_of_screen();
    assert_eq!(state.selected_position(), 1);
}

#[test]
fn sibling_steps_go_by_the_depth_of_the_selected_row() {
    let mut state = open(TWO_LISTS);
    state.select_next(1);
    let mut seen = vec![];
    for _ in 0..4 {
        state.select_next_object();
        seen.push(state.selected_position());
    }
    assert_eq!(seen, vec![3, 4, 6, 6]);
    let mut seen = vec![];
    for _ in 0..4 {
        state.select_previous_object();
        seen.push(state.selected_position());
    }
    assert_eq!(seen, vec![4, 3, 1, 1]);
}

#[test]
fn sibling_steps_from_a_scalar_go_to_rows_of_its_own_depth() {
    let mut state = open(TWO_LISTS);
    state.select_next(2);
    state.select_next_object();
    assert_eq!(state.selected_position(), 5);
    state.select_next_object();
    assert_eq!(state.selected_position(), 5);
    state.select_previous_object();
    assert_eq!(state.selected_position(), 2);
    state.select_previous_object();
    assert_eq!(state.selected_position(), 2);
}

#[test]
fn sibling_steps_on_the_root() {
    let mut state = open(TWO_LISTS);
    state.select_next_object();
    assert_eq!(state.selected_position(), 7);
    state.select_previous_object();
    assert_eq!(state.selected_position(), 0);
    let mut scalar = open("42");
    scalar.select_next_object();
    scalar.select_previous_object();
    assert_eq!(scalar.selected_position(), 0);
}

#[test]
fn selection_levels_of_a_new_state() {
    let state = open("{\"x\":[1,2,3]}");
    assert_eq!(levels(&state), vec![Some(1), None, None, None, None, None, None]);
}

#[test]
fn selection_levels_count_shared_segments() {
    let mut state = open("{\"a\":{\"b\":{\"c\":1}}}");
    state.set_list_height(20);
    state.select_next(3);
    assert_eq!(
        levels(&state),
        vec![Some(0), Some(0), Some(2), Some(2), Some(2), Some(0), Some(0)]
    );
    state.select_previous(2);
    assert_eq!(
        levels(&state),
        vec![Some(0), Some(1), Some(1), Some(1), Some(1), Some(1), Some(0)]
    );
    state.select_top();
    assert_eq!(
        levels(&state),
        vec![Some(1), Some(0), Some(0), Some(0), Some(0), Some(0), Some(1)]
    );
}

#[test]
fn selection_level_of_a_scalar_goes_by_its_parent() {
    let mut state = open("{\"x\":[1,2,3]}");
    state.set_list_height(10);
    state.select_next(2);
    assert_eq!(
        levels(&state),
        vec![Some(0), Some(1), Some(1), Some(1), Some(1), Some(1), Some(0)]
    );
}

#[test]
fn selection_level_is_zero_where_a_segment_only_begins_alike() {
    let mut state = open("{\"ab\":[],\"abc\":[]}");
    state.set_list_height(10);
    state.select_next(1);
    assert_eq!(levels(&state), vec![Some(0), Some(1), Some(1), Some(0), Some(0), Some(0)]);
}

#[test]
fn selection_levels_are_computed_for_the_window_only() {
    let mut state = open(TEN);
    state.set_list_height(4);
    state.select_next(1);
    assert_eq!(
        levels(&state),
        vec![
            Some(1),
            Some(0),
            Some(0),
            None,
            None,
            None,
            None,
            None,
            None,
            None,
            None,
            None
        ]
    );
}

#[test]
fn breadcrumbs_of_the_selection() {
    let mut state = open("{\"x\":[1,2,3]}");
    assert_eq!(state.breadbrumbs_text(), "");
    state.select_next(3);
    assert_eq!(state.breadbrumbs_text(), "x \u{25b6} [1]");
    state.select_next(2);
    assert_eq!(state.breadbrumbs_text(), "x");
}

#[test]
fn status_counts_the_values() {
    let state = open("{\"x\":[1,2,3]}");
    assert_eq!(state.status_text("50"), " 5 values in file | 50 %");
    assert_eq!(state.status_text(""), " 5 values in file |  %");
}

#[test]
fn status_groups_the_digits_of_the_count() {
    let mut json = String::from("[");
    for i in 0..1500 {
        if i > 0 {
            json.push(',');
        }
        json.push('7');
    }
    json.push(']');
    let state = open(&json);
    assert_eq!(state.num_items_in_file(), 1501);
    assert_eq!(state.status_text("0"), " 1 501 values in file | 0 %");
    let mut longer = String::from("[");
    for i in 0..12_004 {
        if i > 0 {
            longer.push(',');
        }
        longer.push('7');
    }
    longer.push(']');
    assert_eq!(open(&longer).status_text("0"), " 12 005 values in file | 0 %");
}

#[test]
fn changing_the_height_moves_nothing() {
    let mut state = open(TEN);
    state.set_list_height(5);
    state.select_next(6);
    let top = state.top_index();
    state.set_list_height(50);
    assert_eq!(state.list_height(), 50);
    assert_eq!(state.top_index(), top);
    assert_eq!(state.selected_position(), 6);
    assert_eq!(state.window_end(), 12);
}

#[test]
fn a_sibling_step_without_a_sibling_changes_nothing() {
    let mut state = open(TEN);
    state.set_list_height(5);
    state.select_bottom();
    let top = state.top_index();
    state.set_list_height(3);
    state.select_next_object();
    assert_eq!(state.selected_position(), 11);
    assert_eq!(state.top_index(), top);
    state.select_top();
    state.select_previous_object();
    assert_eq!(state.selected_position(), 0);
}
