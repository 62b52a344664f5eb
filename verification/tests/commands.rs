use crossterm::event::{Event, KeyCode, KeyEvent, KeyModifiers};
use jex::app_state::{AppState, SearchState};
use jex::commands::{command_for_key, Command, Key};
use jex::parse_json::parse_json_string;

fn open(json: &str) -> AppState {
    let rows = parse_json_string(json).unwrap();
    assert!(!rows.is_empty() && rows.len() < usize::MAX);
    AppState::new(rows, String::new())
}

fn event(c: char) -> Event {
    Event::Key(KeyEvent::new(KeyCode::Char(c), KeyModifiers::NONE))
}

fn press(state: &mut AppState, c: char) -> bool {
    state.handle_key(Key::Char(c), &event(c), Some(30))
}

const TEN: &str = "[0,1,2,3,4,5,6,7,8,9]";

#[test]
fn keys_while_browsing() {
    let table = [
        ('n', Command::NextMatch),
        ('N', Command::PreviousMatch),
        ('q', Command::Quit),
        ('j', Command::LineDown),
        ('J', Command::SiblingDown),
        ('k', Command::LineUp),
        ('K', Command::SiblingUp),
        ('c', Command::ToggleCollapse),
        ('C', Command::CollapseLevel),
        ('u', Command::UncollapseAll),
        ('g', Command::Top),
        ('G', Command::Bottom),
        ('H', Command::ScreenTop),
        ('M', Command::ScreenMiddle),
        ('L', Command::ScreenBottom),
        (' ', Command::PageDown),
        ('/', Command::StartSearch),
        ('*', Command::StartSearchForName),
        ('x', Command::Ignore),
        ('Q', Command::Ignore),
    ];
    for state in [SearchState::NotSearching, SearchState::BrowsingSearch(Some(3))] {
        for (c, command) in table {
            assert_eq!(command_for_key(state, Key::Char(c)), command);
        }
        assert_eq!(command_for_key(state, Key::Esc), Command::SearchCancel);
        assert_eq!(command_for_key(state, Key::Backspace), Command::PageUp);
        assert_eq!(command_for_key(state, Key::Enter), Command::Ignore);
        assert_eq!(command_for_key(state, Key::Other), Command::Ignore);
    }
}

#[test]
fn keys_while_typing_a_query() {
    let state = SearchState::Searching;
    assert_eq!(command_for_key(state, Key::Enter), Command::SearchSubmit);
    assert_eq!(command_for_key(state, Key::Esc), Command::SearchCancel);
    assert_eq!(command_for_key(state, Key::Char('q')), Command::EditSearch);
    assert_eq!(command_for_key(state, Key::Char('j')), Command::EditSearch);
    assert_eq!(command_for_key(state, Key::Backspace), Command::EditSearch);
    assert_eq!(command_for_key(state, Key::Other), Command::EditSearch);
}

#[test]
fn only_quit_ends_the_session() {
    let mut state = open(TEN);
    assert!(!press(&mut state, 'j'));
    assert!(!press(&mut state, 'x'));
    assert!(press(&mut state, 'q'));
    assert_eq!(state.selected_position(), 1);
    assert!(state.run_command(Command::Quit, &event('q'), None));
    assert!(!state.run_command(Command::Ignore, &event('q'), None));
}

#[test]
fn letters_browse_the_document() {
    let mut state = open("{\"a\":[1],\"b\":[2]}");
    state.set_list_height(20);
    press(&mut state, 'j');
    assert_eq!(state.selection_index(), Some(1));
    press(&mut state, 'J');
    assert_eq!(state.selection_index(), Some(3));
    press(&mut state, 'K');
    assert_eq!(state.selection_index(), Some(1));
    press(&mut state, 'C');
    assert_eq!(state.visible_len(), 4);
    press(&mut state, 'u');
    assert_eq!(state.visible_len(), 8);
    press(&mut state, 'c');
    assert_eq!(state.visible_len(), 6);
    press(&mut state, 'G');
    assert_eq!(state.selection_index(), Some(7));
    press(&mut state, 'k');
    assert_eq!(state.selection_index(), Some(6));
    press(&mut state, 'g');
    assert_eq!(state.selection_index(), Some(0));
    press(&mut state, 'L');
    assert_eq!(state.selection_index(), Some(7));
    press(&mut state, 'M');
    assert_eq!(state.selection_index(), Some(4));
    press(&mut state, 'H');
    assert_eq!(state.selection_index(), Some(0));
}

#[test]
fn a_page_is_five_lines_less_than_the_terminal() {
    let mut state = open(TEN);
    let space = event(' ');
    state.handle_key(Key::Char(' '), &space, Some(9));
    assert_eq!(state.selected_position(), 4);
    state.handle_key(Key::Char(' '), &space, Some(5));
    assert_eq!(state.selected_position(), 4);
    state.handle_key(Key::Char(' '), &space, None);
    assert_eq!(state.selected_position(), 4);
    state.handle_key(Key::Char(' '), &space, Some(6));
    assert_eq!(state.selected_position(), 5);
    let back = Event::Key(KeyEvent::new(KeyCode::Backspace, KeyModifiers::NONE));
    state.handle_key(Key::Backspace, &back, Some(8));
    assert_eq!(state.selected_position(), 2);
    state.handle_key(Key::Backspace, &back, Some(4));
    assert_eq!(state.selected_position(), 2);
    state.handle_key(Key::Backspace, &back, Some(u16::MAX));
    assert_eq!(state.selected_position(), 0);
}

#[test]
fn a_search_from_the_keyboard() {
    let mut state = open("{\"a\": {\"id\": 42}, \"b\": {\"id\": 7}}");
    let enter = Event::Key(KeyEvent::new(KeyCode::Enter, KeyModifiers::NONE));
    let esc = Event::Key(KeyEvent::new(KeyCode::Esc, KeyModifiers::NONE));
    press(&mut state, '/');
    assert_eq!(state.search_state(), SearchState::Searching);
    assert!(!press(&mut state, 'q'));
    assert_eq!(state.search_text(), "q");
    state.handle_key(Key::Backspace, &Event::Key(KeyEvent::new(KeyCode::Backspace, KeyModifiers::NONE)), Some(30));
    press(&mut state, 'i');
    press(&mut state, 'd');
    assert_eq!(state.search_text(), "id");
    state.handle_key(Key::Enter, &enter, Some(30));
    assert_eq!(state.search_state(), SearchState::BrowsingSearch(Some(0)));
    assert_eq!(state.selection_index(), Some(2));
    press(&mut state, 'n');
    assert_eq!(state.selection_index(), Some(5));
    press(&mut state, 'n');
    assert_eq!(state.selection_index(), Some(2));
    press(&mut state, 'N');
    assert_eq!(state.selection_index(), Some(5));
    state.handle_key(Key::Esc, &esc, Some(30));
    assert_eq!(state.search_state(), SearchState::NotSearching);
    press(&mut state, '*');
    assert_eq!(state.search_state(), SearchState::BrowsingSearch(Some(0)));
    assert_eq!(state.search_text(), "id");
}
