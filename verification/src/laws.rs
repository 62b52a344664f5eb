//! Laws of the view state: what collapsing twice restores, where the
//! selection stays and where it moves, and that the render window holds the
//! selection.

use crate::app_state::{initial_state, SearchState};
use crate::commands::{page_step, Command};
use crate::json_item::ItemView;
use crate::model::{
    all_expanded, collapsed_at_depth, lemma_flags_keep_rows, lemma_recomputed_valid,
    lemma_result_ids, lemma_select_index, lemma_select_row, next_at_depth, previous_at_depth,
    rows_valid, same_but_levels, toggle_target, toggled, StateView,
};
use crate::nesting::{
    is_hidden, lemma_visible_rows, lemma_well_nested_same_layout, same_layout, well_nested,
};
use crate::parse_json::numbered;
use crate::scroll::lemma_selection_in_window;
use crate::search::{flagged_rows, unflagged_rows};
use crate::visibility::{
    anchor, lemma_anchor, lemma_anchor_is, lemma_collapse_flag_acts_later,
    lemma_collapse_flag_of_hidden_row, lemma_collapsed_row_hides, lemma_first_row_visible,
    lemma_no_open_row_hides_nothing, lemma_suppression_ends, lemma_suppression_same_shape,
    lemma_visible_ids, lemma_visible_ids_ascending, lemma_visible_ids_same_flags, recomputed,
    row_visible, suppression, visible_ids, visible_sequence,
};
use vstd::prelude::*;

verus! {

/// The container that a toggle acts on is an opening row at or before the
/// row it is looked for from, and no opening row stands between the two.
pub proof fn lemma_toggle_target(rows: Seq<ItemView>, from: int)
    requires
        -1 <= from < rows.len(),
    ensures
        -1 <= toggle_target(rows, from) <= from,
        toggle_target(rows, from) >= 0 ==> rows[toggle_target(rows, from)].value.is_open(),
        forall|m: int|
            toggle_target(rows, from) < m <= from ==> !(#[trigger] rows[m]).value.is_open(),
    decreases from + 1,
{
    if from >= 0 && !rows[from].value.is_open() {
        lemma_toggle_target(rows, from - 1);
    }
}

/// The container that a toggle acts on depends on the kinds of the rows only.
pub proof fn lemma_toggle_target_same_kinds(a: Seq<ItemView>, b: Seq<ItemView>, from: int)
    requires
        a.len() == b.len(),
        -1 <= from < a.len(),
        forall|i: int| 0 <= i < a.len() ==> (#[trigger] a[i]).value == (#[trigger] b[i]).value,
    ensures
        toggle_target(a, from) == toggle_target(b, from),
    decreases from + 1,
{
    if from >= 0 {
        lemma_toggle_target_same_kinds(a, b, from - 1);
    }
}

/// In a valid state the selected row is a visible row of the document.
pub proof fn lemma_selection_is_visible(s: StateView)
    requires
        s.valid(),
    ensures
        s.selected_id() < s.rows.len(),
        s.selected_row().visible,
        row_visible(s.rows, s.selected_id() as int),
{
    lemma_visible_ids(s.rows, s.rows.len() as int);
}

/// Where flipping the collapse flag of the toggled container hides a row that
/// was visible, the container was expanded, is itself visible, hides every
/// row behind it up to that row, and is where the selection lands.
pub proof fn lemma_hidden_by_toggle(rows: Seq<ItemView>, id: int)
    requires
        rows_valid(rows),
        0 <= id < rows.len(),
        rows[id].visible,
        toggle_target(rows, id) >= 0,
        !recomputed(toggled(rows, toggle_target(rows, id)))[id].visible,
    ensures
        ({
            let at = toggle_target(rows, id);
            let after = recomputed(toggled(rows, at));
            &&& at < id
            &&& !rows[at].collapsed
            &&& after[at].visible
            &&& forall|m: int| at < m <= id ==> !(#[trigger] after[m]).visible
            &&& visible_sequence(after)[anchor(after, id) as int] == at
        }),
{
    let at = toggle_target(rows, id);
    let flipped = toggled(rows, at);
    let after = recomputed(flipped);
    lemma_toggle_target(rows, id);
    if suppression(rows, at) is Some {
        lemma_collapse_flag_of_hidden_row(rows, flipped, at, id);
    }
    lemma_collapse_flag_acts_later(rows, flipped, at, at);
    if rows[at].collapsed {
        lemma_no_open_row_hides_nothing(flipped, at + 1, id);
    }
    assert forall|m: int| at < m <= id implies !(#[trigger] after[m]).visible by {
        if suppression(flipped, m) is None {
            lemma_no_open_row_hides_nothing(flipped, m, id);
        }
    }
    lemma_recomputed_valid(flipped);
    lemma_visible_ids(after, after.len() as int);
    let all = visible_sequence(after);
    let p = visible_ids(after, at).len() as int;
    if p + 1 < all.len() {
        lemma_visible_ids_ascending(after, after.len() as int, p, p + 1);
    }
    lemma_anchor_is(after, id, p);
}

/// What a toggle that finds a container makes of a valid state: the flag of
/// that container is flipped and visibility follows; the state is valid;
/// the selection is on the row that stands for the row selected before.
pub proof fn lemma_toggle_collapsed(s: StateView)
    requires
        s.valid(),
        s.toggle_row() >= 0,
    ensures
        s.toggle_collapsed().valid(),
        same_but_levels(recomputed(toggled(s.rows, s.toggle_row())), s.toggle_collapsed().rows),
        s.toggle_collapsed().selected_id() == visible_sequence(
            recomputed(toggled(s.rows, s.toggle_row())),
        )[anchor(recomputed(toggled(s.rows, s.toggle_row())), s.selected_id() as int) as int],
        s.toggle_collapsed().visible() == visible_sequence(
            recomputed(toggled(s.rows, s.toggle_row())),
        ),
        s.toggle_collapsed().list_height == s.list_height,
{
    lemma_selection_is_visible(s);
    let id = s.selected_id() as int;
    let at = s.toggle_row();
    lemma_toggle_target(s.rows, id);
    let flipped = toggled(s.rows, at);
    let after = recomputed(flipped);
    lemma_recomputed_valid(flipped);
    lemma_anchor(after, id);
    lemma_select_index(StateView { rows: after, ..s }, anchor(after, id));
}

/// Collapsing and expanding again, or expanding and collapsing again,
/// restores the `visible` flag and the collapse flag of every row, and with
/// them the visible sequence.
pub proof fn lemma_toggle_collapsed_twice(s: StateView)
    requires
        s.valid(),
    ensures
        s.toggle_collapsed().toggle_collapsed().rows.len() == s.rows.len(),
        forall|i: int|
            0 <= i < s.rows.len() ==> (#[trigger] s.toggle_collapsed().toggle_collapsed().rows[i]).visible
                == s.rows[i].visible && s.toggle_collapsed().toggle_collapsed().rows[i].collapsed
                == s.rows[i].collapsed,
        s.toggle_collapsed().toggle_collapsed().visible() == s.visible(),
{
    if s.toggle_row() >= 0 {
        let id = s.selected_id() as int;
        let at = s.toggle_row();
        let once = s.toggle_collapsed();
        let after = recomputed(toggled(s.rows, at));
        lemma_selection_is_visible(s);
        lemma_toggle_target(s.rows, id);
        lemma_toggle_collapsed(s);
        lemma_selection_is_visible(once);
        // The second toggle acts on the same container.
        assert(once.toggle_row() == at) by {
            lemma_anchor(after, id);
            if after[id].visible {
                lemma_toggle_target_same_kinds(s.rows, once.rows, id);
            } else {
                lemma_hidden_by_toggle(s.rows, id);
            }
        }
        lemma_toggle_collapsed(once);
        let twice = once.toggle_collapsed();
        let after_twice = recomputed(toggled(once.rows, at));
        assert forall|i: int| 0 <= i < s.rows.len() implies (#[trigger] twice.rows[i]).visible
            == s.rows[i].visible && twice.rows[i].collapsed == s.rows[i].collapsed by {
            lemma_suppression_same_shape(after_twice, s.rows, i);
            lemma_suppression_same_shape(toggled(once.rows, at), after_twice, i);
        }
        lemma_visible_ids_same_flags(twice.rows, s.rows, s.rows.len() as int);
    }
}

/// Selection stability. Where the toggled container closes before the
/// selected row (a row of the container's depth stands between the two), the
/// toggle leaves the selection on its row, and the row visible.
pub proof fn lemma_toggle_keeps_selection(s: StateView, end: int)
    requires
        s.valid(),
        s.toggle_row() >= 0,
        s.toggle_row() < end < s.selected_id(),
        s.rows[end].indent == s.rows[s.toggle_row()].indent,
    ensures
        s.toggle_collapsed().valid(),
        s.toggle_collapsed().selected_id() == s.selected_id(),
        s.toggle_collapsed().selected_row().visible,
{
    let id = s.selected_id() as int;
    let at = s.toggle_row();
    let flipped = toggled(s.rows, at);
    let after = recomputed(flipped);
    lemma_selection_is_visible(s);
    lemma_toggle_target(s.rows, id);
    lemma_toggle_collapsed(s);
    assert(after[id].visible) by {
        if suppression(s.rows, at) is Some {
            lemma_collapse_flag_of_hidden_row(s.rows, flipped, at, id);
        } else {
            lemma_collapse_flag_acts_later(s.rows, flipped, at, at);
            let from = if flipped[at].collapsed {
                let first = lemma_suppression_ends(flipped, at + 1, end);
                first + 1
            } else {
                at + 1
            };
            lemma_no_open_row_hides_nothing(flipped, from, id);
        }
    }
    lemma_recomputed_valid_rows(flipped, s.rows);
    lemma_anchor(after, id);
    lemma_selection_is_visible(s.toggle_collapsed());
}

/// Rows that differ from valid rows in collapse flags only are numbered by
/// position, so that their recomputed form is valid.
proof fn lemma_recomputed_valid_rows(changed: Seq<ItemView>, rows: Seq<ItemView>)
    requires
        rows_valid(rows),
        changed.len() == rows.len(),
        forall|i: int|
            0 <= i < rows.len() ==> (#[trigger] changed[i]).line_number == (#[trigger] rows[i]).line_number,
    ensures
        rows_valid(recomputed(changed)),
        recomputed(changed)[0].visible,
{
    assert forall|i: int| 0 <= i < changed.len() implies (#[trigger] changed[i]).line_number
        == i by {
        assert(rows[i].line_number == i);
    }
    lemma_recomputed_valid(changed);
}

/// Selection re-anchoring. Where the selected row lies inside an expanded,
/// visible container (no opening row and no row of the container's depth
/// stands between the container's opening row and the selected row), the
/// toggle collapses that container, hides every row behind its opening row
/// up to the row that was selected, and moves the selection to the
/// container's opening row, which is visible.
pub proof fn lemma_toggle_moves_selection_to_container(s: StateView)
    requires
        s.valid(),
        0 <= s.toggle_row() < s.selected_id(),
        s.rows[s.toggle_row()].visible,
        !s.rows[s.toggle_row()].collapsed,
        forall|m: int|
            s.toggle_row() < m <= s.selected_id() ==> (#[trigger] s.rows[m]).indent
                != s.rows[s.toggle_row()].indent,
    ensures
        s.toggle_collapsed().valid(),
        s.toggle_collapsed().selected_id() == s.toggle_row(),
        s.toggle_collapsed().selected_row().visible,
        s.toggle_collapsed().selected_row().collapsed,
        forall|m: int|
            s.toggle_row() < m <= s.selected_id() ==> !(#[trigger] s.toggle_collapsed().rows[m]).visible,
{
    let id = s.selected_id() as int;
    let at = s.toggle_row();
    let flipped = toggled(s.rows, at);
    let after = recomputed(flipped);
    lemma_selection_is_visible(s);
    lemma_toggle_target(s.rows, id);
    lemma_toggle_collapsed(s);
    lemma_collapse_flag_acts_later(s.rows, flipped, at, at);
    assert forall|m: int| at < m <= id implies !(#[trigger] after[m]).visible by {
        lemma_collapsed_row_hides(flipped, at, m);
    }
    lemma_hidden_by_toggle(s.rows, id);
    lemma_selection_is_visible(s.toggle_collapsed());
}

impl StateView {
    /// The render window holds the selection.
    pub open spec fn window_holds_selection(self) -> bool {
        self.top_index <= self.selected < self.bottom_index()
    }
}

/// Scroll invariant. After the selection has moved to a row of the visible
/// sequence, the render window holds it, provided the list has at least two
/// lines.
pub proof fn lemma_select_index_scrolls(s: StateView, index: nat)
    requires
        rows_valid(s.rows),
        index < s.visible().len(),
        s.search_state matches SearchState::BrowsingSearch(Some(cursor)) ==> cursor < s.rows.len(),
        s.list_height >= 2,
    ensures
        s.select_index(index).window_holds_selection(),
{
    lemma_select_index(s, index);
    lemma_selection_in_window(s.top_index, s.list_height, s.visible().len(), index);
}

impl StateView {
    /// The state is valid, and its render window holds the selection if the
    /// list has at least two lines.
    pub open spec fn settled(self) -> bool {
        self.valid() && (self.list_height >= 2 ==> self.window_holds_selection())
    }
}

/// The state `after` comes after the state `before`: it is settled, and its
/// rows have the depths and kinds of the rows of `before`, so that nesting is
/// kept.
pub open spec fn follows(before: StateView, after: StateView) -> bool {
    after.settled() && same_layout(before.rows, after.rows)
}

/// Agreement on depths and kinds carries over.
pub proof fn lemma_same_layout_chain(a: Seq<ItemView>, b: Seq<ItemView>, c: Seq<ItemView>)
    requires
        same_layout(a, b),
        same_layout(b, c),
    ensures
        same_layout(a, c),
{
    assert forall|i: int| 0 <= i < a.len() implies (#[trigger] a[i]).indent == (#[trigger] c[i]).indent
        && a[i].value == c[i].value by {
        assert(b[i].indent == c[i].indent);
    }
}

/// A state whose selection has just moved to a row of the visible sequence
/// is settled.
pub proof fn lemma_select_index_settles(s: StateView, index: nat)
    requires
        rows_valid(s.rows),
        index < s.visible().len(),
        s.search_state matches SearchState::BrowsingSearch(Some(cursor)) ==> cursor < s.rows.len(),
    ensures
        follows(s, s.select_index(index)),
        s.select_index(index).rows.len() == s.rows.len(),
        s.select_index(index).search_state == s.search_state,
        s.select_index(index).query == s.query,
        s.select_index(index).list_height == s.list_height,
{
    lemma_select_index(s, index);
    if s.list_height >= 2 {
        lemma_select_index_scrolls(s, index);
    }
}

/// A state whose selection has just moved to a row of the document is
/// settled.
pub proof fn lemma_select_row_settles(s: StateView, id: nat)
    requires
        rows_valid(s.rows),
        id < s.rows.len(),
        s.search_state matches SearchState::BrowsingSearch(Some(cursor)) ==> cursor < s.rows.len(),
    ensures
        follows(s, s.select_row(id)),
        s.select_row(id).rows.len() == s.rows.len(),
        s.select_row(id).search_state == s.search_state,
        s.select_row(id).query == s.query,
        s.select_row(id).list_height == s.list_height,
{
    lemma_select_row(s, id);
    lemma_select_index_settles(s, anchor(s.rows, id as int));
}

/// The next row of a depth is a row of the visible sequence, or its length.
proof fn lemma_next_at_depth_bounds(rows: Seq<ItemView>, ids: Seq<nat>, depth: nat, at: int)
    requires
        0 <= at <= ids.len(),
    ensures
        at <= next_at_depth(rows, ids, depth, at) <= ids.len(),
    decreases ids.len() - at,
{
    if at < ids.len() && rows[ids[at] as int].indent != depth {
        lemma_next_at_depth_bounds(rows, ids, depth, at + 1);
    }
}

/// The previous row of a depth is a row of the visible sequence, or -1.
proof fn lemma_previous_at_depth_bounds(rows: Seq<ItemView>, ids: Seq<nat>, depth: nat, at: int)
    requires
        0 <= at <= ids.len(),
    ensures
        -1 <= previous_at_depth(rows, ids, depth, at) < at,
    decreases at,
{
    if at > 0 && rows[ids[at - 1] as int].indent != depth {
        lemma_previous_at_depth_bounds(rows, ids, depth, at - 1);
    }
}

/// Every movement of the selection leaves the state settled.
pub proof fn lemma_movements_settle(s: StateView, step: nat)
    requires
        s.settled(),
    ensures
        follows(s, s.select_next(step)),
        follows(s, s.select_previous(step)),
        follows(s, s.select_next_object()),
        follows(s, s.select_previous_object()),
        follows(s, s.select_top()),
        follows(s, s.select_bottom()),
        follows(s, s.select_top_of_screen()),
        follows(s, s.select_middle_of_screen()),
        follows(s, s.select_bottom_of_screen()),
{
    let len = s.visible().len();
    lemma_selection_is_visible(s);
    lemma_next_at_depth_bounds(
        s.rows,
        s.visible(),
        s.selected_row().indent,
        (s.selected + 1) as int,
    );
    lemma_previous_at_depth_bounds(
        s.rows,
        s.visible(),
        s.selected_row().indent,
        s.selected as int,
    );
    assert forall|index: nat| index < len implies follows(s, #[trigger] s.select_index(index)) by {
        lemma_select_index_settles(s, index);
    }
}

/// Collapsing and expanding leave the state settled.
pub proof fn lemma_collapses_settle(s: StateView)
    requires
        s.settled(),
    ensures
        follows(s, s.toggle_collapsed()),
        follows(s, s.collapse_level()),
        follows(s, s.uncollapse_all()),
        s.uncollapse_all().search_state == s.search_state,
        s.uncollapse_all().list_height == s.list_height,
{
    lemma_selection_is_visible(s);
    let id = s.selected_id();
    if s.toggle_row() >= 0 {
        lemma_toggle_target(s.rows, id as int);
        let flipped = toggled(s.rows, s.toggle_row());
        lemma_recomputed_valid_rows(flipped, s.rows);
        lemma_select_row_settles(StateView { rows: recomputed(flipped), ..s }, id);
        lemma_same_layout_chain(s.rows, recomputed(flipped), s.toggle_collapsed().rows);
    }
    if s.selected_row().value.is_open() {
        let closed = collapsed_at_depth(s.rows, s.selected_row().indent);
        lemma_recomputed_valid_rows(closed, s.rows);
        lemma_select_row_settles(StateView { rows: recomputed(closed), ..s }, id);
        lemma_same_layout_chain(s.rows, recomputed(closed), s.collapse_level().rows);
    }
    let opened = all_expanded(s.rows);
    lemma_recomputed_valid_rows(opened, s.rows);
    lemma_select_row_settles(StateView { rows: recomputed(opened), ..s }, id);
    lemma_same_layout_chain(s.rows, recomputed(opened), s.uncollapse_all().rows);
}

/// Setting the search flags anew leaves the state settled.
pub proof fn lemma_refreshed_settles(s: StateView)
    requires
        s.settled(),
    ensures
        follows(s, s.refreshed()),
        s.refreshed().search_state == s.search_state,
        s.refreshed().query == s.query,
        s.refreshed().list_height == s.list_height,
        s.refreshed().rows.len() == s.rows.len(),
{
    let rows = if s.search_state is NotSearching {
        unflagged_rows(s.rows)
    } else {
        flagged_rows(s.rows, s.query)
    };
    let flagged = StateView { rows, ..s };
    lemma_flags_keep_rows(s.rows, rows);
    lemma_result_ids(rows, rows.len() as int);
    if s.search_state is Searching && flagged.search_results().len() > 0 {
        lemma_select_row_settles(flagged, flagged.search_results()[0]);
        lemma_same_layout_chain(s.rows, rows, s.refreshed().rows);
    }
}

/// Every step of a search leaves the state settled.
pub proof fn lemma_search_steps_settle(s: StateView, query: Seq<char>)
    requires
        s.settled(),
    ensures
        follows(s, s.start_searching()),
        follows(s, s.cancel_searching()),
        follows(s, s.finish_searching()),
        follows(s, s.start_searching_for_name()),
        follows(s, s.with_query(query)),
        follows(s, s.next_search_result()),
        follows(s, s.previous_search_result()),
{
    lemma_collapses_settle(s);
    let started = StateView {
        search_state: SearchState::Searching,
        query: Seq::empty(),
        ..s.uncollapse_all()
    };
    lemma_refreshed_settles(started);
    lemma_same_layout_chain(s.rows, started.rows, s.start_searching().rows);
    lemma_refreshed_settles(StateView { search_state: SearchState::NotSearching, ..s });
    lemma_refreshed_settles(s);
    lemma_refreshed_settles(StateView { query, ..s });
    match s.selected_row().name {
        Some(name) => {
            let named = StateView { query: name, ..s.start_searching() };
            lemma_refreshed_settles(named);
            lemma_same_layout_chain(s.rows, named.rows, s.start_searching_for_name().rows);
        },
        None => {},
    }
    lemma_result_ids(s.rows, s.rows.len() as int);
    match s.search_state {
        SearchState::BrowsingSearch(Some(cursor)) => {
            let count = s.search_results().len();
            if count > 0 {
                let next = s.next_cursor(cursor as nat);
                let previous = s.previous_cursor(cursor as nat);
                lemma_select_row_settles(s, s.search_results()[next as int]);
                lemma_select_row_settles(s, s.search_results()[previous as int]);
            }
        },
        _ => {},
    }
}

/// Whatever the command: a settled state stays settled. So the selection is
/// always a visible row, and the render window holds it after every command
/// while the list has at least two lines.
pub proof fn lemma_commands_settle(
    s: StateView,
    command: Command,
    terminal_height: Option<u16>,
    edited: Seq<char>,
)
    requires
        s.settled(),
    ensures
        follows(s, s.after_command(command, terminal_height, edited)),
{
    match command {
        Command::LineDown
        | Command::LineUp
        | Command::SiblingDown
        | Command::SiblingUp
        | Command::Top
        | Command::Bottom
        | Command::ScreenTop
        | Command::ScreenMiddle
        | Command::ScreenBottom => {
            lemma_movements_settle(s, 1);
        },
        Command::PageDown | Command::PageUp => {
            lemma_movements_settle(s, page_step(terminal_height));
        },
        Command::ToggleCollapse | Command::CollapseLevel | Command::UncollapseAll => {
            lemma_collapses_settle(s);
        },
        Command::StartSearch
        | Command::StartSearchForName
        | Command::SearchSubmit
        | Command::SearchCancel
        | Command::NextMatch
        | Command::PreviousMatch
        | Command::EditSearch => {
            lemma_search_steps_settle(s, edited);
        },
        Command::Quit | Command::Ignore => {},
    }
}

/// The state that a session begins with is settled, and its rows have the
/// depths and kinds of the rows it was made from.
pub proof fn lemma_initial_state_settled(rows: Seq<ItemView>, filename: Seq<char>)
    requires
        rows.len() > 0,
    ensures
        initial_state(rows, filename).settled(),
        same_layout(rows, initial_state(rows, filename).rows),
{
    let fresh = recomputed(numbered(rows));
    let start = StateView {
        rows: fresh,
        selected: 0,
        top_index: 0,
        list_height: 0,
        search_state: SearchState::NotSearching,
        query: Seq::empty(),
        filename,
    };
    lemma_recomputed_valid(numbered(rows));
    lemma_first_row_visible(fresh, fresh.len() as int);
    lemma_select_index_settles(start, 0);
    lemma_same_layout_chain(rows, fresh, initial_state(rows, filename).rows);
}

/// No command undoes the nesting of the rows.
pub proof fn lemma_commands_keep_nesting(
    s: StateView,
    command: Command,
    terminal_height: Option<u16>,
    edited: Seq<char>,
)
    requires
        s.settled(),
        well_nested(s.rows),
    ensures
        well_nested(s.after_command(command, terminal_height, edited).rows),
{
    lemma_commands_settle(s, command, terminal_height, edited);
    lemma_well_nested_same_layout(
        s.rows,
        s.after_command(command, terminal_height, edited).rows,
    );
}

/// In a valid state of a well-nested document, a row is visible exactly if
/// it lies in the span of no collapsed container: neither inside one, nor as
/// its closing row.
pub proof fn lemma_visible_outside_collapsed_spans(s: StateView, i: int)
    requires
        s.valid(),
        well_nested(s.rows),
        0 <= i < s.rows.len(),
    ensures
        s.rows[i].visible <==> !is_hidden(s.rows, i),
{
    lemma_visible_rows(s.rows, i);
}

} // verus!
