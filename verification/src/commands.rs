//! Keys and commands: which command a key stands for, and what a command
//! makes of the state. The caller reads the keys and draws the state.

use crate::app_state::{AppState, SearchState};
use crate::model::StateView;
use crossterm::event::Event;
use vstd::prelude::*;

verus! {

/// A key, as far as the commands tell keys apart.
#[derive(Clone, Copy, Debug, PartialEq, Eq, Structural)]
pub enum Key {
    Char(char),
    Enter,
    Esc,
    Backspace,
    Other,
}

/// What a key asks for.
#[derive(Clone, Copy, Debug, PartialEq, Eq, Structural)]
pub enum Command {
    LineDown,
    LineUp,
    SiblingDown,
    SiblingUp,
    ToggleCollapse,
    CollapseLevel,
    UncollapseAll,
    Top,
    Bottom,
    ScreenTop,
    ScreenMiddle,
    ScreenBottom,
    PageDown,
    PageUp,
    StartSearch,
    StartSearchForName,
    SearchSubmit,
    SearchCancel,
    NextMatch,
    PreviousMatch,
    /// The key is handed to the query's input field.
    EditSearch,
    Quit,
    Ignore,
}

/// The command of a key. While a query is typed, Enter submits it, Esc
/// cancels it and every other key edits it; otherwise the letters below
/// browse the document.
pub open spec fn key_command(search_state: SearchState, key: Key) -> Command {
    if search_state is Searching {
        match key {
            Key::Enter => Command::SearchSubmit,
            Key::Esc => Command::SearchCancel,
            _ => Command::EditSearch,
        }
    } else {
        match key {
            Key::Char(c) => if c == 'n' {
                Command::NextMatch
            } else if c == 'N' {
                Command::PreviousMatch
            } else if c == 'q' {
                Command::Quit
            } else if c == 'j' {
                Command::LineDown
            } else if c == 'J' {
                Command::SiblingDown
            } else if c == 'k' {
                Command::LineUp
            } else if c == 'K' {
                Command::SiblingUp
            } else if c == 'c' {
                Command::ToggleCollapse
            } else if c == 'C' {
                Command::CollapseLevel
            } else if c == 'u' {
                Command::UncollapseAll
            } else if c == 'g' {
                Command::Top
            } else if c == 'G' {
                Command::Bottom
            } else if c == 'H' {
                Command::ScreenTop
            } else if c == 'M' {
                Command::ScreenMiddle
            } else if c == 'L' {
                Command::ScreenBottom
            } else if c == ' ' {
                Command::PageDown
            } else if c == '/' {
                Command::StartSearch
            } else if c == '*' {
                Command::StartSearchForName
            } else {
                Command::Ignore
            },
            Key::Esc => Command::SearchCancel,
            Key::Backspace => Command::PageUp,
            _ => Command::Ignore,
        }
    }
}

/// The rows that a page step moves by on a terminal of `terminal_height`
/// lines: five less than the height, and none where the height is unknown or
/// at most five.
pub open spec fn page_step(terminal_height: Option<u16>) -> nat {
    match terminal_height {
        Some(height) => if height > 5 {
            (height - 5) as nat
        } else {
            0
        },
        None => 0,
    }
}

impl StateView {
    /// The state after a command. `edited` is the query text after the
    /// input field has handled the key of `EditSearch`; no other command
    /// reads it.
    pub open spec fn after_command(
        self,
        command: Command,
        terminal_height: Option<u16>,
        edited: Seq<char>,
    ) -> StateView {
        match command {
            Command::LineDown => self.select_next(1),
            Command::LineUp => self.select_previous(1),
            Command::SiblingDown => self.select_next_object(),
            Command::SiblingUp => self.select_previous_object(),
            Command::ToggleCollapse => self.toggle_collapsed(),
            Command::CollapseLevel => self.collapse_level(),
            Command::UncollapseAll => self.uncollapse_all(),
            Command::Top => self.select_top(),
            Command::Bottom => self.select_bottom(),
            Command::ScreenTop => self.select_top_of_screen(),
            Command::ScreenMiddle => self.select_middle_of_screen(),
            Command::ScreenBottom => self.select_bottom_of_screen(),
            Command::PageDown => if page_step(terminal_height) > 0 {
                self.select_next(page_step(terminal_height))
            } else {
                self
            },
            Command::PageUp => if page_step(terminal_height) > 0 {
                self.select_previous(page_step(terminal_height))
            } else {
                self
            },
            Command::StartSearch => self.start_searching(),
            Command::StartSearchForName => self.start_searching_for_name(),
            Command::SearchSubmit => self.finish_searching(),
            Command::SearchCancel => self.cancel_searching(),
            Command::NextMatch => self.next_search_result(),
            Command::PreviousMatch => self.previous_search_result(),
            Command::EditSearch => self.with_query(edited),
            Command::Quit => self,
            Command::Ignore => self,
        }
    }
}

/// The command that a key stands for.
pub fn command_for_key(search_state: SearchState, key: Key) -> (command: Command)
    ensures
        command == key_command(search_state, key),
{
    match search_state {
        SearchState::Searching => match key {
            Key::Enter => Command::SearchSubmit,
            Key::Esc => Command::SearchCancel,
            _ => Command::EditSearch,
        },
        _ => match key {
            Key::Char('n') => Command::NextMatch,
            Key::Char('N') => Command::PreviousMatch,
            Key::Esc => Command::SearchCancel,
            Key::Char('q') => Command::Quit,
            Key::Char('j') => Command::LineDown,
            Key::Char('J') => Command::SiblingDown,
            Key::Char('k') => Command::LineUp,
            Key::Char('K') => Command::SiblingUp,
            Key::Char('c') => Command::ToggleCollapse,
            Key::Char('C') => Command::CollapseLevel,
            Key::Char('u') => Command::UncollapseAll,
            Key::Char('g') => Command::Top,
            Key::Char('G') => Command::Bottom,
            Key::Char('H') => Command::ScreenTop,
            Key::Char('M') => Command::ScreenMiddle,
            Key::Char('L') => Command::ScreenBottom,
            Key::Char(' ') => Command::PageDown,
            Key::Backspace => Command::PageUp,
            Key::Char('/') => Command::StartSearch,
            Key::Char('*') => Command::StartSearchForName,
            _ => Command::Ignore,
        },
    }
}

impl AppState {
    /// Carries out a command and says whether the session ends. `event` is
    /// the terminal event of the key; only `EditSearch` hands it on, to the
    /// query's input field. `terminal_height` is the height of the terminal
    /// in lines, if it is known.
    pub fn run_command(
        &mut self,
        command: Command,
        event: &Event,
        terminal_height: Option<u16>,
    ) -> (quit: bool)
        requires
            old(self).wf(),
        ensures
            final(self).wf(),
            quit == (command is Quit),
            final(self)@ == old(self)@.after_command(command, terminal_height, final(self)@.query),
    {
        let step: usize = match terminal_height {
            Some(height) => if height > 5 {
                (height - 5) as usize
            } else {
                0
            },
            None => 0,
        };
        match command {
            Command::LineDown => self.select_next(1),
            Command::LineUp => self.select_previous(1),
            Command::SiblingDown => self.select_next_object(),
            Command::SiblingUp => self.select_previous_object(),
            Command::ToggleCollapse => self.toggle_collapsed(),
            Command::CollapseLevel => self.collapse_level(),
            Command::UncollapseAll => self.uncollapse_all(),
            Command::Top => self.select_top(),
            Command::Bottom => self.select_bottom(),
            Command::ScreenTop => self.select_top_of_screen(),
            Command::ScreenMiddle => self.select_middle_of_screen(),
            Command::ScreenBottom => self.select_bottom_of_screen(),
            Command::PageDown => {
                if step > 0 {
                    self.select_next(step);
                }
            },
            Command::PageUp => {
                if step > 0 {
                    self.select_previous(step);
                }
            },
            Command::StartSearch => self.start_searching(),
            Command::StartSearchForName => self.start_searching_for_name(),
            Command::SearchSubmit => self.finish_searching(),
            Command::SearchCancel => self.cancel_searching(),
            Command::NextMatch => self.next_search_result(),
            Command::PreviousMatch => self.previous_search_result(),
            Command::EditSearch => self.update_search(event),
            Command::Quit => {
                return true;
            },
            Command::Ignore => {},
        }
        false
    }

    /// Carries out the command of a key and says whether the session ends.
    pub fn handle_key(&mut self, key: Key, event: &Event, terminal_height: Option<u16>) -> (quit:
        bool)
        requires
            old(self).wf(),
        ensures
            final(self).wf(),
            quit == (key_command(old(self)@.search_state, key) is Quit),
            final(self)@ == old(self)@.after_command(
                key_command(old(self)@.search_state, key),
                terminal_height,
                final(self)@.query,
            ),
    {
        let command = command_for_key(self.search_state(), key);
        self.run_command(command, event, terminal_height)
    }
}

} // verus!
