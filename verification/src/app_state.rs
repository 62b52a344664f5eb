//! The view state and its operations.

use crate::breadcrumbs::{
    compute_selection_level, find_last_separator, selection_breadcrumbs,
};
use crate::json_item::{clone_name, rows_view, ItemView, JsonItem};
use crate::model::{
    all_expanded, collapsed_at_depth, lemma_flags_keep_rows, lemma_recomputed_valid,
    lemma_result_ids, lemma_rows_valid_same, lemma_select_index, leveled_rows,
    next_at_depth, previous_at_depth, result_ids, rows_at, rows_valid,
    toggle_target, toggled, value_count, StateView,
};
use crate::parse_json::{number_rows, numbered};
use crate::scroll::{scroll_to, window_end};
use crate::search::{clear_search_results, update_search_results};
use crate::text::{chars_of, decimal_string, separate_with_spaces};
use crate::visibility::{
    anchor, ids_view, lemma_anchor, lemma_anchor_is, lemma_first_row_visible, lemma_visible_ids,
    recalculate_visible, recomputed, visible_sequence,
};
use crossterm::event::Event;
use ratatui::widgets::ListState;
use tui_input::Input;
use vstd::prelude::*;
use vstd::string::*;

verus! {

/// `ratatui::widgets::ListState`, which holds the selection.
#[verifier::external_type_specification]
#[verifier::external_body]
pub struct ExListState(ListState);

/// `tui_input::Input`, the input field that holds the query.
#[verifier::external_type_specification]
#[verifier::external_body]
pub struct ExInput(Input);

/// `crossterm::event::Event`, a terminal event; it is handed on to the input
/// field unread.
#[verifier::external_type_specification]
#[verifier::external_body]
pub struct ExEvent(Event);

/// The index that a `ratatui::widgets::ListState` holds as selected.
pub uninterp spec fn list_selected(state: ListState) -> Option<usize>;

/// The text that a `tui_input::Input` holds.
pub uninterp spec fn input_text(input: Input) -> Seq<char>;

/// `ListState::selected` returns the index that the state holds.
pub assume_specification[ ListState::selected ](state: &ListState) -> (r: Option<usize>)
    ensures
        r == list_selected(*state),
;

/// `ListState::select` stores the index.
pub assume_specification[ ListState::select ](state: &mut ListState, index: Option<usize>)
    ensures
        list_selected(*final(state)) == index,
;

/// A default `ListState` has nothing selected.
pub assume_specification[ <ListState as Default>::default ]() -> (r: ListState)
    ensures
        list_selected(r) is None,
;

/// `Input::new` holds the text it is given.
pub assume_specification[ Input::new ](value: String) -> (r: Input)
    ensures
        input_text(r) == value@,
;

/// `Input::value` returns the text that the input holds.
pub assume_specification<'a>[ Input::value ](input: &'a Input) -> (r: &'a str)
    ensures
        r@ == input_text(*input),
;

/// Calls `handle_event` of `tui_input::backend::crossterm::EventHandler`,
/// which edits the input's text and cursor as the event asks. Nothing is
/// claimed of the text afterwards.
#[verifier::external_body]
fn edit_input(input: &mut Input, event: &Event) {
    tui_input::backend::crossterm::EventHandler::handle_event(input, event);
}

/// Whether a search is going on.
#[derive(Clone, Copy, Debug, PartialEq, Eq, Structural)]
pub enum SearchState {
    /// No search.
    NotSearching,
    /// A query is being typed.
    Searching,
    /// The results of a submitted query are browsed; the cursor is the index
    /// of the current result among the search results.
    BrowsingSearch(Option<usize>),
}

/// The state of a session: the rows of one document, what is collapsed,
/// selected and shown, and the search.
pub struct AppState {
    list_state: ListState,
    items: Vec<JsonItem>,
    visible: Vec<usize>,
    filename: String,
    list_height: u16,
    search_state: SearchState,
    search_input: Input,
    num_items_in_file: usize,
    top_index: usize,
}

impl View for AppState {
    type V = StateView;

    closed spec fn view(&self) -> StateView {
        StateView {
            rows: rows_view(self.items@),
            selected: match list_selected(self.list_state) {
                Some(index) => index as nat,
                None => 0,
            },
            top_index: self.top_index as nat,
            list_height: self.list_height as nat,
            search_state: self.search_state,
            query: input_text(self.search_input),
            filename: self.filename@,
        }
    }
}

/// The state that a session begins with: the rows numbered by position,
/// with visibility as their collapse flags imply, the first row selected,
/// a list of no height, and no search.
pub open spec fn initial_state(rows: Seq<ItemView>, filename: Seq<char>) -> StateView {
    (StateView {
        rows: recomputed(numbered(rows)),
        selected: 0,
        top_index: 0,
        list_height: 0,
        search_state: SearchState::NotSearching,
        query: Seq::empty(),
        filename,
    }).select_index(0)
}

/// The breadcrumbs that a selected row is compared by.
fn selection_path(item: &JsonItem) -> (path: Vec<char>)
    ensures
        path@ == selection_breadcrumbs(item@),
{
    let mut path = chars_of(item.breadcrumbs.as_str());
    if item.value.is_scalar() {
        match find_last_separator(&path) {
            Some(at) => {
                path.truncate(at);
            },
            None => {
                path.truncate(0);
            },
        }
    }
    path
}

/// Computes the selection level of the rows that `visible` holds from `top`
/// up to `bottom`.
fn apply_selection_levels(
    items: &mut Vec<JsonItem>,
    visible: &Vec<usize>,
    top: usize,
    bottom: usize,
    path: &Vec<char>,
)
    requires
        bottom <= visible.len(),
        forall|k: int| 0 <= k < visible.len() ==> visible@[k] < old(items).len(),
    ensures
        rows_view(final(items)@) == leveled_rows(
            rows_view(old(items)@),
            ids_view(visible@),
            top as int,
            bottom as int,
            path@,
        ),
{
    let ghost before = rows_view(items@);
    let ghost ids = ids_view(visible@);
    if top >= bottom {
        return ;
    }
    let mut p: usize = top;
    while p < bottom
        invariant
            top <= p <= bottom <= visible.len(),
            items.len() == before.len(),
            ids == ids_view(visible@),
            forall|k: int| 0 <= k < visible.len() ==> visible@[k] < items.len(),
            forall|i: int|
                0 <= i < items.len() ==> #[trigger] items@[i]@ == leveled_rows(
                    before,
                    ids,
                    top as int,
                    p as int,
                    path@,
                )[i],
        decreases bottom - p,
    {
        let ghost prev = items@;
        let id = visible[p];
        let crumbs = chars_of(items[id].breadcrumbs.as_str());
        let level = compute_selection_level(path, &crumbs);
        items[id].selection_level = Some(level);
        proof {
            assert(ids[p as int] == id);
            assert forall|i: int| 0 <= i < items.len() implies #[trigger] items@[i]@
                == leveled_rows(before, ids, top as int, p + 1, path@)[i] by {
                if i == id {
                    assert(prev[i]@.breadcrumbs == before[i].breadcrumbs);
                }
            }
        }
        p += 1;
    }
}

/// Counts the rows that stand for a value.
fn count_values(items: &Vec<JsonItem>) -> (count: usize)
    ensures
        count == value_count(rows_view(items@), items.len() as int),
{
    let mut count: usize = 0;
    let mut i: usize = 0;
    while i < items.len()
        invariant
            i <= items.len(),
            count <= i,
            count == value_count(rows_view(items@), i as int),
        decreases items.len() - i,
    {
        if !items[i].value.is_end() {
            count += 1;
        }
        i += 1;
    }
    count
}

impl AppState {
    /// The stored parts fit together: something is selected, the visible
    /// sequence is stored as the rows imply it, and so is the number of
    /// values.
    pub closed spec fn linked(&self) -> bool {
        &&& list_selected(self.list_state) is Some
        &&& self.items.len() < usize::MAX
        &&& ids_view(self.visible@) == visible_sequence(rows_view(self.items@))
        &&& self.num_items_in_file == value_count(rows_view(self.items@), self.items.len() as int)
    }

    /// The state is well formed: its parts fit together and its view is
    /// valid.
    pub closed spec fn wf(&self) -> bool {
        self.linked() && self@.valid()
    }

    /// A well-formed state has a valid view.
    pub proof fn lemma_wf_valid(&self)
        requires
            self.wf(),
        ensures
            self@.valid(),
    {
    }

    /// The stored visible sequence holds positions of rows, and is the
    /// visible sequence of the view.
    proof fn lemma_linked(&self)
        requires
            self.linked(),
        ensures
            self.items.len() == self@.rows.len(),
            self.visible@.len() == self@.visible().len(),
            self.visible@.len() <= self.items.len(),
            forall|k: int|
                0 <= k < self.visible@.len() ==> (#[trigger] self.visible@[k]) as nat
                    == self@.visible()[k] && self.visible@[k] < self.items.len(),
            forall|i: int| 0 <= i < self.items.len() ==> (#[trigger] self.items@[i])@ == self@.rows[i],
    {
        lemma_visible_ids(self@.rows, self@.rows.len() as int);
    }

    /// A state for the rows of a document.
    pub fn new(items: Vec<JsonItem>, filename: String) -> (app_state: AppState)
        requires
            0 < items.len() < usize::MAX,
        ensures
            app_state.wf(),
            app_state@ == initial_state(rows_view(items@), filename@),
    {
        let mut items = items;
        let ghost given = rows_view(items@);
        number_rows(&mut items);
        let visible = recalculate_visible(&mut items);
        let num_items_in_file = count_values(&items);
        let mut list_state = ListState::default();
        list_state.select(Some(0));
        let mut app_state = AppState {
            list_state,
            items,
            visible,
            filename,
            list_height: 0,
            search_state: SearchState::NotSearching,
            search_input: Input::new(String::new()),
            num_items_in_file,
            top_index: 0,
        };
        proof {
            lemma_recomputed_valid(numbered(given));
            lemma_first_row_visible(app_state@.rows, app_state@.rows.len() as int);
        }
        app_state.select_index(0);
        app_state
    }

    /// The index of the selection in the visible sequence.
    fn selected(&self) -> (index: usize)
        requires
            self.linked(),
        ensures
            index == self@.selected,
    {
        match self.list_state.selected() {
            Some(index) => index,
            None => 0,
        }
    }

    /// The end of the render window, exclusive.
    fn bottom_index(&self) -> (bottom: usize)
        requires
            self.linked(),
        ensures
            bottom == self@.bottom_index(),
    {
        window_end(self.top_index, self.list_height, self.visible.len())
    }

    /// Scrolls the window so that it holds the selection.
    fn recalculate_scroll_position(&mut self)
        requires
            old(self).linked(),
            rows_valid(old(self)@.rows),
            old(self)@.selected < old(self)@.visible().len(),
        ensures
            final(self).linked(),
            final(self)@ == old(self)@.scrolled(),
    {
        proof {
            lemma_visible_ids(self@.rows, self@.rows.len() as int);
        }
        let index = self.selected();
        self.top_index = scroll_to(self.top_index, self.list_height, self.visible.len(), index);
    }

    /// Computes the selection level of every row of the render window.
    fn recalculate_selection_level(&mut self)
        requires
            old(self).linked(),
            rows_valid(old(self)@.rows),
            old(self)@.selected < old(self)@.visible().len(),
        ensures
            final(self).linked(),
            final(self)@ == old(self)@.with_levels(),
    {
        proof {
            lemma_visible_ids(self@.rows, self@.rows.len() as int);
        }
        assert forall|k: int| 0 <= k < self.visible.len() implies self.visible@[k]
            < self.items.len() by {
            assert(ids_view(self.visible@)[k] == self@.visible()[k]);
        }
        let index = self.selected();
        let id = self.visible[index];
        let path = selection_path(&self.items[id]);
        let bottom = self.bottom_index();
        apply_selection_levels(&mut self.items, &self.visible, self.top_index, bottom, &path);
        proof {
            lemma_rows_valid_same(old(self)@.rows, self@.rows);
            lemma_value_count_same(
                old(self)@.rows,
                self@.rows,
                self@.rows.len() as int,
            );
        }
    }

    /// Moves the selection to index `index` of the visible sequence.
    fn select_index(&mut self, index: usize)
        requires
            old(self).linked(),
            rows_valid(old(self)@.rows),
            index < old(self)@.visible().len(),
            old(self)@.search_state matches SearchState::BrowsingSearch(Some(cursor)) ==> cursor
                < old(self)@.rows.len(),
        ensures
            final(self).wf(),
            final(self)@ == old(self)@.select_index(index as nat),
            final(self)@.rows.len() == old(self)@.rows.len(),
    {
        self.list_state.select(Some(index));
        self.recalculate_scroll_position();
        self.recalculate_selection_level();
        proof {
            lemma_select_index(old(self)@, index as nat);
        }
    }

    /// Moves the selection `step` rows down; it stops at the last row.
    pub fn select_next(&mut self, step: usize)
        requires
            old(self).wf(),
        ensures
            final(self).wf(),
            final(self)@ == old(self)@.select_next(step as nat),
    {
        proof {
            self.lemma_linked();
        }
        let index = self.selected();
        let last: usize = self.visible.len() - 1;
        let new_index: usize = if step <= last - index {
            index + step
        } else {
            last
        };
        self.select_index(new_index);
    }

    /// Moves the selection `step` rows up; it stops at the first row.
    pub fn select_previous(&mut self, step: usize)
        requires
            old(self).wf(),
        ensures
            final(self).wf(),
            final(self)@ == old(self)@.select_previous(step as nat),
    {
        proof {
            self.lemma_linked();
        }
        let index = self.selected();
        let new_index: usize = if index > step {
            index - step
        } else {
            0
        };
        self.select_index(new_index);
    }

    /// Moves the selection to the next visible row of the selected row's
    /// depth; does nothing where there is none.
    pub fn select_next_object(&mut self)
        requires
            old(self).wf(),
        ensures
            final(self).wf(),
            final(self)@ == old(self)@.select_next_object(),
    {
        proof {
            self.lemma_linked();
        }
        let index = self.selected();
        let indent = self.items[self.visible[index]].indent;
        let mut next: usize = index + 1;
        while next < self.visible.len() && self.items[self.visible[next]].indent != indent
            invariant
                self.linked(),
                index < next <= self.visible.len(),
                self.items.len() == self@.rows.len(),
                self.visible@.len() == self@.visible().len(),
                forall|k: int|
                    0 <= k < self.visible@.len() ==> (#[trigger] self.visible@[k]) as nat
                        == self@.visible()[k] && self.visible@[k] < self.items.len(),
                forall|i: int|
                    0 <= i < self.items.len() ==> (#[trigger] self.items@[i])@ == self@.rows[i],
                next_at_depth(self@.rows, self@.visible(), indent as nat, index + 1)
                    == next_at_depth(self@.rows, self@.visible(), indent as nat, next as int),
            decreases self.visible.len() - next,
        {
            next += 1;
        }
        if next < self.visible.len() {
            self.select_index(next);
        }
    }

    /// Moves the selection to the previous visible row of the selected row's
    /// depth; does nothing where there is none.
    pub fn select_previous_object(&mut self)
        requires
            old(self).wf(),
        ensures
            final(self).wf(),
            final(self)@ == old(self)@.select_previous_object(),
    {
        proof {
            self.lemma_linked();
        }
        let index = self.selected();
        let indent = self.items[self.visible[index]].indent;
        let mut upto: usize = index;
        while upto > 0 && self.items[self.visible[upto - 1]].indent != indent
            invariant
                self.linked(),
                upto <= index < self.visible.len(),
                self.items.len() == self@.rows.len(),
                self.visible@.len() == self@.visible().len(),
                forall|k: int|
                    0 <= k < self.visible@.len() ==> (#[trigger] self.visible@[k]) as nat
                        == self@.visible()[k] && self.visible@[k] < self.items.len(),
                forall|i: int|
                    0 <= i < self.items.len() ==> (#[trigger] self.items@[i])@ == self@.rows[i],
                previous_at_depth(self@.rows, self@.visible(), indent as nat, index as int)
                    == previous_at_depth(self@.rows, self@.visible(), indent as nat, upto as int),
            decreases upto,
        {
            upto -= 1;
        }
        if upto > 0 {
            self.select_index(upto - 1);
        }
    }

    /// Moves the selection to the first visible row.
    pub fn select_top(&mut self)
        requires
            old(self).wf(),
        ensures
            final(self).wf(),
            final(self)@ == old(self)@.select_top(),
    {
        self.select_index(0);
    }

    /// Moves the selection to the last visible row.
    pub fn select_bottom(&mut self)
        requires
            old(self).wf(),
        ensures
            final(self).wf(),
            final(self)@ == old(self)@.select_bottom(),
    {
        proof {
            self.lemma_linked();
        }
        self.select_index(self.visible.len() - 1);
    }

    /// The first row of the render window.
    fn screen_top(&self) -> (index: usize)
        requires
            self.wf(),
        ensures
            index == self@.screen_top(),
            index < self@.visible().len(),
    {
        proof {
            self.lemma_linked();
        }
        if self.top_index < self.visible.len() {
            self.top_index
        } else {
            self.visible.len() - 1
        }
    }

    /// The last row of the render window.
    fn screen_bottom(&self) -> (index: usize)
        requires
            self.wf(),
        ensures
            index == self@.screen_bottom(),
            self@.screen_top() <= index < self@.visible().len(),
    {
        proof {
            self.lemma_linked();
        }
        let bottom = self.bottom_index();
        if self.top_index < bottom {
            bottom - 1
        } else {
            self.screen_top()
        }
    }

    /// Moves the selection to the first row of the render window.
    pub fn select_top_of_screen(&mut self)
        requires
            old(self).wf(),
        ensures
            final(self).wf(),
            final(self)@ == old(self)@.select_top_of_screen(),
    {
        let index = self.screen_top();
        self.select_index(index);
    }

    /// Moves the selection to the middle row of the render window.
    pub fn select_middle_of_screen(&mut self)
        requires
            old(self).wf(),
        ensures
            final(self).wf(),
            final(self)@ == old(self)@.select_middle_of_screen(),
    {
        let top = self.screen_top();
        let bottom = self.screen_bottom();
        let index: usize = top + (bottom - top) / 2;
        self.select_index(index);
    }

    /// Moves the selection to the last row of the render window.
    pub fn select_bottom_of_screen(&mut self)
        requires
            old(self).wf(),
        ensures
            final(self).wf(),
            final(self)@ == old(self)@.select_bottom_of_screen(),
    {
        let index = self.screen_bottom();
        self.select_index(index);
    }

    /// Sets the `visible` flag of every row and stores the visible sequence.
    fn recalculate_visible(&mut self)
        ensures
            rows_view(final(self).items@) == recomputed(rows_view(old(self).items@)),
            ids_view(final(self).visible@) == visible_sequence(rows_view(final(self).items@)),
            final(self).list_state == old(self).list_state,
            final(self).filename == old(self).filename,
            final(self).list_height == old(self).list_height,
            final(self).search_state == old(self).search_state,
            final(self).search_input == old(self).search_input,
            final(self).num_items_in_file == old(self).num_items_in_file,
            final(self).top_index == old(self).top_index,
    {
        self.visible = recalculate_visible(&mut self.items);
    }

    /// The index in the visible sequence of the last visible row at or
    /// before row `id`.
    fn anchor_of(&self, id: usize) -> (p: usize)
        requires
            self.linked(),
            rows_valid(self@.rows),
            id < self.items.len(),
        ensures
            p == anchor(self@.rows, id as int),
            p < self@.visible().len(),
    {
        proof {
            lemma_anchor(self@.rows, id as int);
            lemma_first_row_visible(self@.rows, self@.rows.len() as int);
            self.lemma_linked();
        }
        let mut p: usize = 0;
        while p + 1 < self.visible.len() && self.visible[p + 1] <= id
            invariant
                p < self.visible.len(),
                self.visible.len() <= self.items.len() < usize::MAX,
                self.visible@[p as int] <= id,
            decreases self.visible.len() - p,
        {
            p += 1;
        }
        proof {
            lemma_anchor_is(self@.rows, id as int, p as int);
        }
        p
    }

    /// Moves the selection to row `id`, or to the container that hides it.
    fn select_row(&mut self, id: usize)
        requires
            old(self).linked(),
            rows_valid(old(self)@.rows),
            id < old(self)@.rows.len(),
            old(self)@.search_state matches SearchState::BrowsingSearch(Some(cursor)) ==> cursor
                < old(self)@.rows.len(),
        ensures
            final(self).wf(),
            final(self)@ == old(self)@.select_row(id as nat),
            final(self)@.rows.len() == old(self)@.rows.len(),
    {
        proof {
            self.lemma_linked();
        }
        let index = self.anchor_of(id);
        self.select_index(index);
    }

    /// After a change of collapse flags: sets visibility anew and moves the
    /// selection to the row that stands for row `id`.
    fn reanchor(&mut self, id: usize)
        requires
            list_selected(old(self).list_state) is Some,
            id < old(self).items.len() < usize::MAX,
            forall|i: int|
                0 <= i < old(self).items.len() ==> (#[trigger] old(self).items@[i])@.line_number == i,
            old(self).num_items_in_file == value_count(
                rows_view(old(self).items@),
                old(self).items.len() as int,
            ),
            old(self).search_state matches SearchState::BrowsingSearch(Some(cursor)) ==> cursor
                < old(self).items.len(),
        ensures
            final(self).wf(),
            final(self)@ == old(self)@.reanchored(recomputed(old(self)@.rows), id as nat),
    {
        let ghost given = self@.rows;
        self.recalculate_visible();
        proof {
            lemma_recomputed_valid(given);
            lemma_value_count_same(given, self@.rows, given.len() as int);
        }
        self.select_row(id);
    }

    /// Collapses or expands a container: the selected row where it opens
    /// one, else the nearest opening row before it. The selection stays on
    /// its row, or moves to the container where that now hides it.
    pub fn toggle_collapsed(&mut self)
        requires
            old(self).wf(),
        ensures
            final(self).wf(),
            final(self)@ == old(self)@.toggle_collapsed(),
    {
        proof {
            self.lemma_linked();
        }
        let index = self.selected();
        let id = self.visible[index];
        let mut i: usize = id;
        loop
            invariant_except_break
                i <= id < self.items.len(),
                id == old(self)@.selected_id(),
                self.wf(),
                *self == *old(self),
                toggle_target(self@.rows, id as int) == toggle_target(self@.rows, i as int),
            ensures
                i <= id < self.items.len(),
                id == old(self)@.selected_id(),
                self.wf(),
                *self == *old(self),
                toggle_target(self@.rows, id as int) == i,
            decreases i,
        {
            proof {
                self.lemma_linked();
            }
            if self.items[i].value.is_open() {
                break ;
            }
            if i == 0 {
                assert(toggle_target(self@.rows, -1) == -1);
                return ;
            }
            i -= 1;
        }
        proof {
            self.lemma_linked();
        }
        self.items[i].collapsed = !self.items[i].collapsed;
        proof {
            assert(rows_view(self.items@) =~= toggled(old(self)@.rows, i as int));
            lemma_value_count_same(old(self)@.rows, self@.rows, self.items.len() as int);
        }
        self.reanchor(id);
    }

    /// Where the selected row opens a container, collapses every container
    /// of its depth. The selection stays on its row.
    pub fn collapse_level(&mut self)
        requires
            old(self).wf(),
        ensures
            final(self).wf(),
            final(self)@ == old(self)@.collapse_level(),
    {
        proof {
            self.lemma_linked();
        }
        let index = self.selected();
        let id = self.visible[index];
        if self.items[id].value.is_open() {
            let indent = self.items[id].indent;
            collapse_depth(&mut self.items, indent);
            proof {
                lemma_value_count_same(old(self)@.rows, self@.rows, self.items.len() as int);
                assert forall|i: int| 0 <= i < self.items.len() implies (#[trigger] self.items@[i])@.line_number
                    == i by {
                    assert(self@.rows[i].line_number == old(self)@.rows[i].line_number);
                }
            }
            self.reanchor(id);
        }
    }

    /// Expands every container. The selection stays on its row.
    pub fn uncollapse_all(&mut self)
        requires
            old(self).wf(),
        ensures
            final(self).wf(),
            final(self)@ == old(self)@.uncollapse_all(),
    {
        proof {
            self.lemma_linked();
        }
        let index = self.selected();
        let id = self.visible[index];
        expand_all(&mut self.items);
        proof {
            lemma_value_count_same(old(self)@.rows, self@.rows, self.items.len() as int);
            assert forall|i: int| 0 <= i < self.items.len() implies (#[trigger] self.items@[i])@.line_number
                == i by {
                assert(self@.rows[i].line_number == old(self)@.rows[i].line_number);
            }
        }
        self.reanchor(id);
    }

    /// The search results: the positions of the rows that are search
    /// results.
    fn search_results(&self) -> (results: Vec<usize>)
        ensures
            ids_view(results@) == self@.search_results(),
            results.len() <= self@.rows.len(),
            forall|k: int| 0 <= k < results.len() ==> results@[k] < self@.rows.len(),
    {
        let mut results: Vec<usize> = Vec::new();
        let mut i: usize = 0;
        while i < self.items.len()
            invariant
                i <= self.items.len(),
                ids_view(results@) == result_ids(self@.rows, i as int),
            decreases self.items.len() - i,
        {
            let item = &self.items[i];
            if item.name_is_search_result || item.value_is_search_result {
                results.push(i);
            }
            i += 1;
        }
        proof {
            lemma_result_ids(self@.rows, self@.rows.len() as int);
            assert forall|k: int| 0 <= k < results.len() implies results@[k]
                < self@.rows.len() by {
                assert(ids_view(results@)[k] == self@.search_results()[k]);
            }
        }
        results
    }

    /// Sets the search flags of every row anew: for the query while a search
    /// is typed or browsed, down otherwise. While a search is typed, the
    /// selection moves to the first result, if there is one.
    fn update_search_results(&mut self)
        requires
            old(self).wf(),
        ensures
            final(self).wf(),
            final(self)@ == old(self)@.refreshed(),
    {
        proof {
            self.lemma_linked();
        }
        match self.search_state {
            SearchState::NotSearching => {
                clear_search_results(&mut self.items);
            },
            _ => {
                update_search_results(&mut self.items, self.search_input.value());
            },
        }
        proof {
            lemma_flags_keep_rows(old(self)@.rows, self@.rows);
            lemma_value_count_same(old(self)@.rows, self@.rows, self.items.len() as int);
        }
        match self.search_state {
            SearchState::Searching => {
                let results = self.search_results();
                if results.len() > 0 {
                    self.select_row(results[0]);
                }
            },
            _ => {},
        }
    }

    /// Begins a search: expands everything and empties the query.
    pub fn start_searching(&mut self)
        requires
            old(self).wf(),
        ensures
            final(self).wf(),
            final(self)@ == old(self)@.start_searching(),
    {
        self.uncollapse_all();
        self.search_state = SearchState::Searching;
        self.search_input = Input::new(String::new());
        self.update_search_results();
    }

    /// Begins and submits a search for the selected row's name. Does nothing
    /// where the selected row has no name.
    pub fn start_searching_for_name(&mut self)
        requires
            old(self).wf(),
        ensures
            final(self).wf(),
            final(self)@ == old(self)@.start_searching_for_name(),
    {
        proof {
            self.lemma_linked();
        }
        let index = self.selected();
        let id = self.visible[index];
        match clone_name(&self.items[id].name) {
            Some(name) => {
                self.start_searching();
                self.search_input = Input::new(name);
                self.finish_searching();
            },
            None => {},
        }
    }

    /// Ends the search and takes the search flags down.
    pub fn cancel_searching(&mut self)
        requires
            old(self).wf(),
        ensures
            final(self).wf(),
            final(self)@ == old(self)@.cancel_searching(),
    {
        self.search_state = SearchState::NotSearching;
        self.update_search_results();
    }

    /// Submits the query: its results are browsed from the first on; without
    /// results the search ends.
    pub fn finish_searching(&mut self)
        requires
            old(self).wf(),
        ensures
            final(self).wf(),
            final(self)@ == old(self)@.finish_searching(),
    {
        self.update_search_results();
        let results = self.search_results();
        self.search_state = if results.len() > 0 {
            SearchState::BrowsingSearch(Some(0))
        } else {
            SearchState::NotSearching
        };
    }

    /// Sets the query text; the search flags follow at once unless the
    /// document is large.
    pub fn set_search_text(&mut self, text: String)
        requires
            old(self).wf(),
        ensures
            final(self).wf(),
            final(self)@ == old(self)@.with_query(text@),
    {
        let is_large_file = self.num_items_in_file > 100_000;
        self.search_input = Input::new(text);
        if !is_large_file {
            self.update_search_results();
        }
    }

    /// Lets the query's input field handle a terminal event; the search flags
    /// follow the edited text at once unless the document is large. What the
    /// text becomes is the input field's matter.
    pub fn update_search(&mut self, event: &Event)
        requires
            old(self).wf(),
        ensures
            final(self).wf(),
            final(self)@ == old(self)@.with_query(final(self)@.query),
    {
        let is_large_file = self.num_items_in_file > 100_000;
        edit_input(&mut self.search_input, event);
        if !is_large_file {
            self.update_search_results();
        }
    }

    /// The query text.
    pub fn search_text(&self) -> (text: &str)
        ensures
            text@ == self@.query,
    {
        self.search_input.value()
    }

    /// While results are browsed, moves cursor and selection to the next
    /// result, and from the last to the first.
    pub fn next_search_result(&mut self)
        requires
            old(self).wf(),
        ensures
            final(self).wf(),
            final(self)@ == old(self)@.next_search_result(),
    {
        proof {
            self.lemma_linked();
        }
        match self.search_state {
            SearchState::BrowsingSearch(Some(index)) => {
                let search_results = self.search_results();
                if search_results.len() > 0 {
                    let new_index: usize = (index + 1) % search_results.len();
                    self.select_row(search_results[new_index]);
                    self.search_state = SearchState::BrowsingSearch(Some(new_index));
                }
            },
            _ => {},
        }
    }

    /// While results are browsed, moves cursor and selection to the previous
    /// result, and from the first to the last.
    pub fn previous_search_result(&mut self)
        requires
            old(self).wf(),
        ensures
            final(self).wf(),
            final(self)@ == old(self)@.previous_search_result(),
    {
        proof {
            self.lemma_linked();
        }
        match self.search_state {
            SearchState::BrowsingSearch(Some(index)) => {
                let search_results = self.search_results();
                if search_results.len() > 0 {
                    let new_index: usize = if index == 0 || index > search_results.len() {
                        search_results.len() - 1
                    } else {
                        index - 1
                    };
                    self.select_row(search_results[new_index]);
                    self.search_state = SearchState::BrowsingSearch(Some(new_index));
                }
            },
            _ => {},
        }
    }

    /// Copies of the rows that the visible sequence holds from index `from`
    /// up to `to`.
    fn copy_rows(&self, from: usize, to: usize) -> (rows: Vec<JsonItem>)
        requires
            self.wf(),
            from <= to <= self@.visible().len(),
        ensures
            rows_view(rows@) == rows_at(self@.rows, self@.visible().subrange(from as int, to as int)),
    {
        proof {
            self.lemma_linked();
        }
        let ghost wanted = rows_at(self@.rows, self@.visible().subrange(from as int, to as int));
        let mut rows: Vec<JsonItem> = Vec::new();
        let mut p: usize = from;
        while p < to
            invariant
                from <= p <= to <= self.visible.len(),
                self.visible@.len() == self@.visible().len(),
                forall|k: int|
                    0 <= k < self.visible@.len() ==> (#[trigger] self.visible@[k]) as nat
                        == self@.visible()[k] && self.visible@[k] < self.items.len(),
                forall|i: int|
                    0 <= i < self.items.len() ==> (#[trigger] self.items@[i])@ == self@.rows[i],
                wanted == rows_at(self@.rows, self@.visible().subrange(from as int, to as int)),
                rows.len() == p - from,
                forall|k: int| 0 <= k < rows.len() ==> (#[trigger] rows@[k])@ == wanted[k],
            decreases to - p,
        {
            let row = self.items[self.visible[p]].clone();
            rows.push(row);
            p += 1;
        }
        rows
    }

    /// All rows of the document.
    pub fn items(&self) -> (items: &Vec<JsonItem>)
        ensures
            rows_view(items@) == self@.rows,
    {
        &self.items
    }

    /// Copies of the rows of the visible sequence.
    pub fn visible_items(&self) -> (rows: Vec<JsonItem>)
        requires
            self.wf(),
        ensures
            rows_view(rows@) == self@.visible_rows(),
    {
        proof {
            self.lemma_linked();
        }
        self.copy_rows(0, self.visible.len())
    }

    /// Copies of the rows of the render window: all that a renderer draws.
    pub fn display_items(&self) -> (rows: Vec<JsonItem>)
        requires
            self.wf(),
        ensures
            rows_view(rows@) == self@.display_rows(),
    {
        proof {
            self.lemma_linked();
        }
        let bottom = self.bottom_index();
        if self.top_index < bottom {
            self.copy_rows(self.top_index, bottom)
        } else {
            let rows: Vec<JsonItem> = Vec::new();
            rows
        }
    }

    /// The position of the selected row among all rows.
    pub fn selection_index(&self) -> (id: Option<usize>)
        requires
            self.wf(),
        ensures
            id == Some(self@.selected_id() as usize),
            self@.selected_id() < self@.rows.len(),
    {
        proof {
            self.lemma_linked();
        }
        let index = self.selected();
        Some(self.visible[index])
    }

    /// The index of the selection in the visible sequence.
    pub fn selected_position(&self) -> (index: usize)
        requires
            self.wf(),
        ensures
            index == self@.selected,
    {
        self.selected()
    }

    /// The breadcrumbs of the selected row.
    pub fn breadbrumbs_text(&self) -> (text: String)
        requires
            self.wf(),
        ensures
            text@ == self@.selected_row().breadcrumbs,
    {
        proof {
            self.lemma_linked();
        }
        let index = self.selected();
        self.items[self.visible[index]].breadcrumbs.clone()
    }

    /// The status line; `percent` is written into it while no search is
    /// going on.
    pub fn status_text(&self, percent: &str) -> (text: String)
        requires
            self.wf(),
        ensures
            text@ == self@.status_text(percent@),
    {
        match self.search_state {
            SearchState::Searching => {
                let num_results = self.search_results().len();
                let mut text = decimal_string(num_results);
                text.append(" results");
                text
            },
            SearchState::BrowsingSearch(Some(index)) => {
                let num_results = self.search_results().len();
                let mut text = String::from_str("Result ");
                text.append(decimal_string(index + 1).as_str());
                text.append(" of ");
                text.append(decimal_string(num_results).as_str());
                text
            },
            _ => {
                let mut text = String::from_str(" ");
                text.append(separate_with_spaces(self.num_items_in_file).as_str());
                text.append(" values in file | ");
                text.append(percent);
                text.append(" %");
                text
            },
        }
    }

    /// The first index of the visible sequence that the render window shows.
    pub fn top_index(&self) -> (top: usize)
        ensures
            top == self@.top_index,
    {
        self.top_index
    }

    /// The end of the render window, exclusive, as an index of the visible
    /// sequence.
    pub fn window_end(&self) -> (bottom: usize)
        requires
            self.wf(),
        ensures
            bottom == self@.bottom_index(),
    {
        self.bottom_index()
    }

    /// The number of visible rows.
    pub fn visible_len(&self) -> (len: usize)
        requires
            self.wf(),
        ensures
            len == self@.visible().len(),
    {
        proof {
            self.lemma_linked();
        }
        self.visible.len()
    }

    /// The height of the list, in lines.
    pub fn list_height(&self) -> (height: u16)
        ensures
            height == self@.list_height,
    {
        self.list_height
    }

    /// Sets the height of the list, in lines. The window follows with the
    /// next change of the selection.
    pub fn set_list_height(&mut self, height: u16)
        requires
            old(self).wf(),
        ensures
            final(self).wf(),
            final(self)@ == (StateView { list_height: height as nat, ..old(self)@ }),
    {
        self.list_height = height;
    }

    /// Whether a search is going on.
    pub fn search_state(&self) -> (state: SearchState)
        ensures
            state == self@.search_state,
    {
        self.search_state
    }

    /// The name of the document's source.
    pub fn filename(&self) -> (name: &String)
        ensures
            name@ == self@.filename,
    {
        &self.filename
    }

    /// The number of values in the document.
    pub fn num_items_in_file(&self) -> (count: usize)
        requires
            self.wf(),
        ensures
            count == value_count(self@.rows, self@.rows.len() as int),
    {
        self.num_items_in_file
    }

    /// The input field of the query.
    pub fn search_input(&self) -> (input: &Input)
        ensures
            input_text(*input) == self@.query,
    {
        &self.search_input
    }

    /// The list state that holds the selection.
    pub fn list_state(&self) -> (state: &ListState)
        requires
            self.wf(),
        ensures
            list_selected(*state) == Some(self@.selected as usize),
    {
        &self.list_state
    }
}

/// Collapses every opening row of depth `depth`.
fn collapse_depth(items: &mut Vec<JsonItem>, depth: usize)
    ensures
        rows_view(final(items)@) == collapsed_at_depth(rows_view(old(items)@), depth as nat),
{
    let ghost before = rows_view(items@);
    let ghost after = collapsed_at_depth(before, depth as nat);
    let mut i: usize = 0;
    while i < items.len()
        invariant
            i <= items.len(),
            items.len() == before.len(),
            after == collapsed_at_depth(before, depth as nat),
            forall|k: int| 0 <= k < i ==> #[trigger] items@[k]@ == after[k],
            forall|k: int| i <= k < items.len() ==> #[trigger] items@[k]@ == before[k],
        decreases items.len() - i,
    {
        let ghost prev = items@;
        assert(prev[i as int]@ == before[i as int]);
        if items[i].indent == depth && items[i].value.is_open() {
            items[i].collapsed = true;
        }
        i += 1;
    }
}

/// Takes the collapse flag of every row down.
fn expand_all(items: &mut Vec<JsonItem>)
    ensures
        rows_view(final(items)@) == all_expanded(rows_view(old(items)@)),
{
    let ghost before = rows_view(items@);
    let ghost after = all_expanded(before);
    let mut i: usize = 0;
    while i < items.len()
        invariant
            i <= items.len(),
            items.len() == before.len(),
            after == all_expanded(before),
            forall|k: int| 0 <= k < i ==> #[trigger] items@[k]@ == after[k],
            forall|k: int| i <= k < items.len() ==> #[trigger] items@[k]@ == before[k],
        decreases items.len() - i,
    {
        let ghost prev = items@;
        assert(prev[i as int]@ == before[i as int]);
        items[i].collapsed = false;
        i += 1;
    }
}

/// The number of values depends on the kinds of the rows only.
pub proof fn lemma_value_count_same(a: Seq<ItemView>, b: Seq<ItemView>, upto: int)
    requires
        forall|i: int| 0 <= i < upto ==> (#[trigger] a[i]).value == (#[trigger] b[i]).value,
    ensures
        value_count(a, upto) == value_count(b, upto),
    decreases upto,
{
    if upto > 0 {
        lemma_value_count_same(a, b, upto - 1);
    }
}

} // verus!
