//! The mathematical model of the view state: the rows, the selection, the
//! render window and the search, and what each operation makes of them.

use crate::app_state::SearchState;
use crate::breadcrumbs::{selection_breadcrumbs, selection_level};
use crate::json_item::ItemView;
use crate::text::{decimal, spaced_decimal};
use crate::scroll::{bottom_index, lemma_scrolled_top_bound, scrolled_top};
use crate::search::{flagged_rows, unflagged_rows};
use crate::visibility::{
    anchor, lemma_anchor, lemma_suppression_same_shape, lemma_visible_ids,
    lemma_visible_ids_same_flags, recomputed, row_visible, same_flags, same_shape,
    visibility_is_current, visible_sequence,
};
use vstd::prelude::*;

verus! {

/// The view state as a mathematical value.
pub struct StateView {
    /// All rows of the document, in order.
    pub rows: Seq<ItemView>,
    /// The selection, as an index into the visible sequence.
    pub selected: nat,
    /// The first index of the visible sequence that the render window shows.
    pub top_index: nat,
    /// The height of the list, in lines.
    pub list_height: nat,
    /// Whether a search is being typed or browsed.
    pub search_state: SearchState,
    /// The query text.
    pub query: Seq<char>,
    /// The name of the document's source.
    pub filename: Seq<char>,
}

/// The number of rows that stand for a value: all but the closing rows.
pub open spec fn value_count(rows: Seq<ItemView>, upto: int) -> nat
    decreases upto,
{
    if upto <= 0 {
        0
    } else if rows[upto - 1].value.is_end() {
        value_count(rows, upto - 1)
    } else {
        value_count(rows, upto - 1) + 1
    }
}

/// A row is a search result: one of its two search flags is up.
pub open spec fn is_search_result(row: ItemView) -> bool {
    row.name_is_search_result || row.value_is_search_result
}

/// The positions of the rows below `upto` that are search results, in
/// ascending order.
pub open spec fn result_ids(rows: Seq<ItemView>, upto: int) -> Seq<nat>
    decreases upto,
{
    if upto <= 0 {
        Seq::empty()
    } else if is_search_result(rows[upto - 1]) {
        result_ids(rows, upto - 1).push((upto - 1) as nat)
    } else {
        result_ids(rows, upto - 1)
    }
}

/// The least index from `from` on of the visible sequence `ids` whose row has
/// depth `depth`, or the length of `ids` where there is none.
pub open spec fn next_at_depth(rows: Seq<ItemView>, ids: Seq<nat>, depth: nat, from: int) -> int
    decreases ids.len() - from,
{
    if from >= ids.len() {
        ids.len() as int
    } else if from >= 0 && rows[ids[from] as int].indent == depth {
        from
    } else {
        next_at_depth(rows, ids, depth, from + 1)
    }
}

/// The greatest index below `upto` of the visible sequence `ids` whose row has
/// depth `depth`, or -1 where there is none.
pub open spec fn previous_at_depth(
    rows: Seq<ItemView>,
    ids: Seq<nat>,
    depth: nat,
    upto: int,
) -> int
    decreases upto,
{
    if upto <= 0 {
        -1
    } else if upto <= ids.len() && rows[ids[upto - 1] as int].indent == depth {
        upto - 1
    } else {
        previous_at_depth(rows, ids, depth, upto - 1)
    }
}

/// The nearest opening row at or before row `from`, or -1 where there is
/// none.
pub open spec fn toggle_target(rows: Seq<ItemView>, from: int) -> int
    decreases from + 1,
{
    if from < 0 {
        -1
    } else if rows[from].value.is_open() {
        from
    } else {
        toggle_target(rows, from - 1)
    }
}

/// Row `id` stands in the visible sequence `ids` at an index from `top` up to,
/// but not at, `end`.
pub open spec fn shown(ids: Seq<nat>, top: int, end: int, id: int) -> bool {
    exists|p: int| top <= p < end && #[trigger] ids[p] == id
}

/// The row with its selection level computed against the breadcrumbs `path`.
pub open spec fn leveled(row: ItemView, path: Seq<char>) -> ItemView {
    ItemView { selection_level: Some(selection_level(path, row.breadcrumbs)), ..row }
}

/// The rows, those shown between `top` and `end` with their selection level
/// computed against `path`, the others as they are.
pub open spec fn leveled_rows(
    rows: Seq<ItemView>,
    ids: Seq<nat>,
    top: int,
    end: int,
    path: Seq<char>,
) -> Seq<ItemView> {
    Seq::new(
        rows.len(),
        |i: int|
            if shown(ids, top, end, i) {
                leveled(rows[i], path)
            } else {
                rows[i]
            },
    )
}

/// The rows at the positions `ids`, in that order.
pub open spec fn rows_at(rows: Seq<ItemView>, ids: Seq<nat>) -> Seq<ItemView> {
    Seq::new(ids.len(), |k: int| rows[ids[k] as int])
}

/// The rows with the collapse flag of row `at` flipped.
pub open spec fn toggled(rows: Seq<ItemView>, at: int) -> Seq<ItemView> {
    rows.update(at, ItemView { collapsed: !rows[at].collapsed, ..rows[at] })
}

/// The rows with every opening row of depth `depth` collapsed.
pub open spec fn collapsed_at_depth(rows: Seq<ItemView>, depth: nat) -> Seq<ItemView> {
    Seq::new(
        rows.len(),
        |i: int|
            if rows[i].indent == depth && rows[i].value.is_open() {
                ItemView { collapsed: true, ..rows[i] }
            } else {
                rows[i]
            },
    )
}

/// The rows with every collapse flag down.
pub open spec fn all_expanded(rows: Seq<ItemView>) -> Seq<ItemView> {
    Seq::new(rows.len(), |i: int| ItemView { collapsed: false, ..rows[i] })
}

/// What holds of the rows of every state: there are rows, each row's number
/// is its position, and the `visible` flags are current.
pub open spec fn rows_valid(rows: Seq<ItemView>) -> bool {
    &&& rows.len() > 0
    &&& forall|i: int| 0 <= i < rows.len() ==> (#[trigger] rows[i]).line_number == i
    &&& visibility_is_current(rows)
}

impl StateView {
    /// The visible sequence.
    pub open spec fn visible(self) -> Seq<nat> {
        visible_sequence(self.rows)
    }

    /// The position of the selected row among all rows.
    pub open spec fn selected_id(self) -> nat {
        self.visible()[self.selected as int]
    }

    /// The selected row.
    pub open spec fn selected_row(self) -> ItemView {
        self.rows[self.selected_id() as int]
    }

    /// What holds of every state: there are rows; each row's number is its
    /// position; the `visible` flags are current; the selection is a row of
    /// the visible sequence; the window's top lies at most two rows past the
    /// selection; the cursor of a browsed search is below the number of rows.
    pub open spec fn valid(self) -> bool {
        &&& rows_valid(self.rows)
        &&& self.selected < self.visible().len()
        &&& self.top_index <= self.selected + 2
        &&& (self.search_state matches SearchState::BrowsingSearch(Some(cursor)) ==> cursor
            < self.rows.len())
    }

    /// The end of the render window, exclusive.
    pub open spec fn bottom_index(self) -> nat {
        bottom_index(self.top_index, self.list_height, self.visible().len())
    }

    /// The rows of the render window, by their positions among all rows:
    /// the visible sequence from `top_index` to `bottom_index()`, and none
    /// where the top is not below the end.
    pub open spec fn display_ids(self) -> Seq<nat> {
        if self.top_index < self.bottom_index() {
            self.visible().subrange(self.top_index as int, self.bottom_index() as int)
        } else {
            Seq::empty()
        }
    }

    /// The rows of the visible sequence.
    pub open spec fn visible_rows(self) -> Seq<ItemView> {
        rows_at(self.rows, self.visible())
    }

    /// The rows of the render window.
    pub open spec fn display_rows(self) -> Seq<ItemView> {
        rows_at(self.rows, self.display_ids())
    }

    /// The status line. While a query is typed: the number of results. While
    /// results are browsed: the cursor, counted from one, and the number of
    /// results. Otherwise: the number of values in the document, in groups of
    /// three digits, and how far down the selection stands, as the caller
    /// has written it in `percent`.
    pub open spec fn status_text(self, percent: Seq<char>) -> Seq<char> {
        match self.search_state {
            SearchState::Searching => decimal(self.search_results().len()) + " results"@,
            SearchState::BrowsingSearch(Some(cursor)) => "Result "@ + decimal((cursor + 1) as nat)
                + " of "@ + decimal(self.search_results().len()),
            _ => " "@ + spaced_decimal(value_count(self.rows, self.rows.len() as int))
                + " values in file | "@ + percent + " %"@,
        }
    }

    /// Row `id` is shown in the render window.
    pub open spec fn in_window(self, id: int) -> bool {
        shown(self.visible(), self.top_index as int, self.bottom_index() as int, id)
    }

    /// The breadcrumbs that the rows of the window are compared with.
    pub open spec fn selection_path(self) -> Seq<char> {
        selection_breadcrumbs(self.selected_row())
    }

    /// The state with the window scrolled to hold the selection.
    pub open spec fn scrolled(self) -> StateView {
        StateView {
            top_index: scrolled_top(
                self.top_index,
                self.list_height,
                self.visible().len(),
                self.selected,
            ),
            ..self
        }
    }

    /// The state with the selection level of every row of the window
    /// computed anew; the other rows keep theirs.
    pub open spec fn with_levels(self) -> StateView {
        StateView {
            rows: leveled_rows(
                self.rows,
                self.visible(),
                self.top_index as int,
                self.bottom_index() as int,
                self.selection_path(),
            ),
            ..self
        }
    }

    /// The state after the selection has moved to index `index` of the
    /// visible sequence: the window follows, then the selection levels.
    pub open spec fn select_index(self, index: nat) -> StateView {
        (StateView { selected: index, ..self }).scrolled().with_levels()
    }

    /// The state after the selection has moved to row `id`: to the row
    /// itself while it is visible, and else to the collapsed container that
    /// hides it.
    pub open spec fn select_row(self, id: nat) -> StateView {
        self.select_index(anchor(self.rows, id as int))
    }

    /// The state with other rows, and the selection on the row that stands
    /// for row `id` under them.
    pub open spec fn reanchored(self, rows: Seq<ItemView>, id: nat) -> StateView {
        (StateView { rows, ..self }).select_row(id)
    }

    /// The selection moves `step` rows down, and stops at the last row.
    pub open spec fn select_next(self, step: nat) -> StateView {
        if self.selected + step < self.visible().len() {
            self.select_index(self.selected + step)
        } else {
            self.select_index((self.visible().len() - 1) as nat)
        }
    }

    /// The selection moves `step` rows up, and stops at the first row.
    pub open spec fn select_previous(self, step: nat) -> StateView {
        if self.selected > step {
            self.select_index((self.selected - step) as nat)
        } else {
            self.select_index(0)
        }
    }

    /// The selection moves to the next visible row of the selected row's
    /// depth; nothing changes where there is none.
    pub open spec fn select_next_object(self) -> StateView {
        let next = next_at_depth(
            self.rows,
            self.visible(),
            self.selected_row().indent,
            (self.selected + 1) as int,
        );
        if next < self.visible().len() {
            self.select_index(next as nat)
        } else {
            self
        }
    }

    /// The selection moves to the previous visible row of the selected row's
    /// depth; nothing changes where there is none.
    pub open spec fn select_previous_object(self) -> StateView {
        let previous = previous_at_depth(
            self.rows,
            self.visible(),
            self.selected_row().indent,
            self.selected as int,
        );
        if previous >= 0 {
            self.select_index(previous as nat)
        } else {
            self
        }
    }

    /// The selection moves to the first visible row.
    pub open spec fn select_top(self) -> StateView {
        self.select_index(0)
    }

    /// The selection moves to the last visible row.
    pub open spec fn select_bottom(self) -> StateView {
        self.select_index((self.visible().len() - 1) as nat)
    }

    /// The first row of the render window; the last visible row where the
    /// top lies past it.
    pub open spec fn screen_top(self) -> nat {
        if self.top_index < self.visible().len() {
            self.top_index
        } else {
            (self.visible().len() - 1) as nat
        }
    }

    /// The last row of the render window; `screen_top()` where the window
    /// is empty.
    pub open spec fn screen_bottom(self) -> nat {
        if self.top_index < self.bottom_index() {
            (self.bottom_index() - 1) as nat
        } else {
            self.screen_top()
        }
    }

    /// The selection moves to the first row of the render window.
    pub open spec fn select_top_of_screen(self) -> StateView {
        self.select_index(self.screen_top())
    }

    /// The selection moves to the middle row of the render window.
    pub open spec fn select_middle_of_screen(self) -> StateView {
        self.select_index((self.screen_top() + self.screen_bottom()) / 2)
    }

    /// The selection moves to the last row of the render window.
    pub open spec fn select_bottom_of_screen(self) -> StateView {
        self.select_index(self.screen_bottom())
    }

    /// The container that `toggle_collapsed` acts on: the selected row where
    /// it opens a container, else the nearest opening row before it; -1
    /// where there is none.
    pub open spec fn toggle_row(self) -> int {
        toggle_target(self.rows, self.selected_id() as int)
    }

    /// The collapse flag of `toggle_row()` is flipped, visibility follows,
    /// and the selection stays on its row or moves to the container that now
    /// hides it. Nothing changes where there is no container to act on.
    pub open spec fn toggle_collapsed(self) -> StateView {
        if self.toggle_row() < 0 {
            self
        } else {
            self.reanchored(recomputed(toggled(self.rows, self.toggle_row())), self.selected_id())
        }
    }

    /// Where the selected row opens a container, every container of its depth
    /// is collapsed, visibility follows and the selection stays on its row.
    pub open spec fn collapse_level(self) -> StateView {
        if self.selected_row().value.is_open() {
            self.reanchored(
                recomputed(collapsed_at_depth(self.rows, self.selected_row().indent)),
                self.selected_id(),
            )
        } else {
            self
        }
    }

    /// Every container is expanded, every row becomes visible and the
    /// selection stays on its row.
    pub open spec fn uncollapse_all(self) -> StateView {
        self.reanchored(recomputed(all_expanded(self.rows)), self.selected_id())
    }

    /// The search results: the positions of the rows that are search
    /// results, in ascending order.
    pub open spec fn search_results(self) -> Seq<nat> {
        result_ids(self.rows, self.rows.len() as int)
    }

    /// The state with the search flags of every row set anew: for the query
    /// while a search is typed or browsed, and down otherwise. While a search
    /// is typed and has results, the selection moves to the first of them.
    pub open spec fn refreshed(self) -> StateView {
        let flagged = StateView {
            rows: if self.search_state is NotSearching {
                unflagged_rows(self.rows)
            } else {
                flagged_rows(self.rows, self.query)
            },
            ..self
        };
        if self.search_state is Searching && flagged.search_results().len() > 0 {
            flagged.select_row(flagged.search_results()[0])
        } else {
            flagged
        }
    }

    /// A search begins: everything is expanded, the query is empty, and no
    /// row is a result yet.
    pub open spec fn start_searching(self) -> StateView {
        (StateView {
            search_state: SearchState::Searching,
            query: Seq::empty(),
            ..self.uncollapse_all()
        }).refreshed()
    }

    /// The search ends and the search flags are taken down.
    pub open spec fn cancel_searching(self) -> StateView {
        (StateView { search_state: SearchState::NotSearching, ..self }).refreshed()
    }

    /// The query is submitted: with results, they are browsed from the first
    /// on; without, the search ends.
    pub open spec fn finish_searching(self) -> StateView {
        let refreshed = self.refreshed();
        StateView {
            search_state: if refreshed.search_results().len() > 0 {
                SearchState::BrowsingSearch(Some(0))
            } else {
                SearchState::NotSearching
            },
            ..refreshed
        }
    }

    /// A search for the selected row's name is begun and submitted. Nothing
    /// changes where the selected row has no name.
    pub open spec fn start_searching_for_name(self) -> StateView {
        match self.selected_row().name {
            Some(name) => (StateView { query: name, ..self.start_searching() }).finish_searching(),
            None => self,
        }
    }

    /// The document is large: live search is off.
    pub open spec fn is_large(self) -> bool {
        value_count(self.rows, self.rows.len() as int) > 100_000
    }

    /// The state after the query text has been edited to `query`: the search
    /// flags follow at once, unless the document is large.
    pub open spec fn with_query(self, query: Seq<char>) -> StateView {
        if self.is_large() {
            StateView { query, ..self }
        } else {
            (StateView { query, ..self }).refreshed()
        }
    }

    /// The cursor of a browsed search after a step forward: the next result,
    /// and the first after the last.
    pub open spec fn next_cursor(self, cursor: nat) -> nat {
        ((cursor + 1) as int % (self.search_results().len() as int)) as nat
    }

    /// The cursor of a browsed search after a step back: the previous result,
    /// and the last before the first.
    pub open spec fn previous_cursor(self, cursor: nat) -> nat {
        if cursor == 0 || cursor > self.search_results().len() {
            (self.search_results().len() - 1) as nat
        } else {
            (cursor - 1) as nat
        }
    }

    /// The state with the cursor of a browsed search at `cursor` and the
    /// selection on that result.
    pub open spec fn at_result(self, cursor: nat) -> StateView {
        StateView {
            search_state: SearchState::BrowsingSearch(Some(cursor as usize)),
            ..self.select_row(self.search_results()[cursor as int])
        }
    }

    /// While results are browsed, cursor and selection move to the next
    /// result, cyclically. Nothing changes otherwise, or without results.
    pub open spec fn next_search_result(self) -> StateView {
        match self.search_state {
            SearchState::BrowsingSearch(Some(cursor)) => if self.search_results().len() > 0 {
                self.at_result(self.next_cursor(cursor as nat))
            } else {
                self
            },
            _ => self,
        }
    }

    /// While results are browsed, cursor and selection move to the previous
    /// result, cyclically. Nothing changes otherwise, or without results.
    pub open spec fn previous_search_result(self) -> StateView {
        match self.search_state {
            SearchState::BrowsingSearch(Some(cursor)) => if self.search_results().len() > 0 {
                self.at_result(self.previous_cursor(cursor as nat))
            } else {
                self
            },
            _ => self,
        }
    }
}

/// Rows that agree with valid rows on depth, kind, collapse flag, `visible`
/// flag and number are valid, and have the same visible sequence.
pub proof fn lemma_rows_valid_same(a: Seq<ItemView>, b: Seq<ItemView>)
    requires
        rows_valid(a),
        a.len() == b.len(),
        same_shape(a, b, a.len() as int),
        same_flags(a, b, a.len() as int),
        forall|i: int| 0 <= i < a.len() ==> (#[trigger] a[i]).line_number == (#[trigger] b[i]).line_number,
    ensures
        rows_valid(b),
        visible_sequence(b) == visible_sequence(a),
{
    lemma_visible_ids_same_flags(a, b, a.len() as int);
    assert forall|i: int| 0 <= i < b.len() implies (#[trigger] b[i]).visible == row_visible(
        b,
        i,
    ) by {
        lemma_suppression_same_shape(a, b, i);
        assert(a[i].visible == b[i].visible);
    }
    assert forall|i: int| 0 <= i < b.len() implies (#[trigger] b[i]).line_number == i by {
        assert(a[i].line_number == b[i].line_number);
    }
}

/// Rows whose `visible` flags have been set anew are valid, whatever has been
/// collapsed, if each row's number is its position.
pub proof fn lemma_recomputed_valid(rows: Seq<ItemView>)
    requires
        rows.len() > 0,
        forall|i: int| 0 <= i < rows.len() ==> (#[trigger] rows[i]).line_number == i,
    ensures
        rows_valid(recomputed(rows)),
        recomputed(rows)[0].visible,
{
    let fresh = recomputed(rows);
    assert forall|i: int| 0 <= i < fresh.len() implies (#[trigger] fresh[i]).visible
        == row_visible(fresh, i) by {
        lemma_suppression_same_shape(rows, fresh, i);
    }
}

/// The search results below `upto` are positions below `upto`.
pub proof fn lemma_result_ids(rows: Seq<ItemView>, upto: int)
    requires
        0 <= upto <= rows.len(),
    ensures
        result_ids(rows, upto).len() <= upto,
        forall|k: int|
            0 <= k < result_ids(rows, upto).len() ==> (#[trigger] result_ids(rows, upto)[k]) < upto,
    decreases upto,
{
    if upto > 0 {
        lemma_result_ids(rows, upto - 1);
    }
}

/// Selecting a row of valid rows gives a valid state; of the rows, only
/// selection levels change.
pub proof fn lemma_select_row(s: StateView, id: nat)
    requires
        rows_valid(s.rows),
        id < s.rows.len(),
        s.search_state matches SearchState::BrowsingSearch(Some(cursor)) ==> cursor < s.rows.len(),
    ensures
        s.select_row(id).valid(),
        s.select_row(id).visible() == s.visible(),
        s.select_row(id).rows.len() == s.rows.len(),
        same_but_levels(s.rows, s.select_row(id).rows),
        s.select_row(id).selected_id() == s.visible()[anchor(s.rows, id as int) as int],
        s.select_row(id).list_height == s.list_height,
{
    lemma_visible_ids(s.rows, s.rows.len() as int);
    lemma_anchor(s.rows, id as int);
    lemma_select_index(s, anchor(s.rows, id as int));
}

/// Setting or clearing the search flags of valid rows leaves them valid, with
/// the same visible sequence and the same number of values.
pub proof fn lemma_flags_keep_rows(a: Seq<ItemView>, b: Seq<ItemView>)
    requires
        rows_valid(a),
        a.len() == b.len(),
        forall|i: int|
            0 <= i < a.len() ==> (#[trigger] b[i]) == (ItemView {
                name_is_search_result: b[i].name_is_search_result,
                value_is_search_result: b[i].value_is_search_result,
                ..a[i]
            }),
    ensures
        rows_valid(b),
        visible_sequence(b) == visible_sequence(a),
        forall|i: int| 0 <= i < a.len() ==> (#[trigger] a[i]).value == (#[trigger] b[i]).value,
{
    lemma_rows_valid_same(a, b);
}

/// The rows `b` are the rows `a` but for their selection levels.
pub open spec fn same_but_levels(a: Seq<ItemView>, b: Seq<ItemView>) -> bool {
    &&& a.len() == b.len()
    &&& forall|i: int|
        0 <= i < a.len() ==> (#[trigger] b[i]) == (ItemView {
            selection_level: b[i].selection_level,
            ..a[i]
        })
}

/// Selecting a row of the visible sequence of valid rows gives a valid state
/// with that selection and the same visible sequence; of the rows, only
/// selection levels change.
pub proof fn lemma_select_index(s: StateView, index: nat)
    requires
        rows_valid(s.rows),
        index < s.visible().len(),
        s.search_state matches SearchState::BrowsingSearch(Some(cursor)) ==> cursor < s.rows.len(),
    ensures
        s.select_index(index).valid(),
        s.select_index(index).selected == index,
        s.select_index(index).visible() == s.visible(),
        s.select_index(index).rows.len() == s.rows.len(),
        s.select_index(index).search_state == s.search_state,
        s.select_index(index).query == s.query,
        s.select_index(index).list_height == s.list_height,
        s.select_index(index).filename == s.filename,
        s.select_index(index).selected_id() == s.visible()[index as int],
        same_but_levels(s.rows, s.select_index(index).rows),
{
    let moved = (StateView { selected: index, ..s }).scrolled();
    let done = moved.with_levels();
    lemma_rows_valid_same(s.rows, done.rows);
    lemma_scrolled_top_bound(
        s.top_index,
        s.list_height,
        s.visible().len(),
        index,
    );
}

} // verus!
