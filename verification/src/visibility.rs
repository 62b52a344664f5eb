//! Which rows are visible under the collapse flags, and where a visible row
//! stands among the visible ones.

use crate::json_item::{rows_view, ItemView, JsonItem};
use vstd::prelude::*;

verus! {

/// The state of the left-to-right pass before row `upto`: `Some(depth)` while
/// rows are suppressed by a collapsed container of that depth, else `None`.
///
/// A suppression ends with the first row of the depth at which it began (the
/// container's closing row); outside a suppression, a collapsed opening row
/// begins one at its own depth.
pub open spec fn suppression(rows: Seq<ItemView>, upto: int) -> Option<nat>
    decreases upto,
{
    if upto <= 0 {
        None
    } else {
        let row = rows[upto - 1];
        match suppression(rows, upto - 1) {
            Some(depth) => if row.indent == depth {
                None
            } else {
                Some(depth)
            },
            None => if row.value.is_open() && row.collapsed {
                Some(row.indent)
            } else {
                None
            },
        }
    }
}

/// Row `i` is visible: the pass is not suppressing when it reaches the row.
/// So a collapsed container's own opening row is visible, and its closing row
/// is not.
pub open spec fn row_visible(rows: Seq<ItemView>, i: int) -> bool {
    suppression(rows, i) is None
}

/// Every row's `visible` flag says what the collapse flags imply.
pub open spec fn visibility_is_current(rows: Seq<ItemView>) -> bool {
    forall|i: int| 0 <= i < rows.len() ==> (#[trigger] rows[i]).visible == row_visible(rows, i)
}

/// The rows with every `visible` flag set as the collapse flags imply.
pub open spec fn recomputed(rows: Seq<ItemView>) -> Seq<ItemView> {
    Seq::new(rows.len(), |i: int| ItemView { visible: row_visible(rows, i), ..rows[i] })
}

/// The positions of the rows below `upto` whose `visible` flag is up, in
/// ascending order.
pub open spec fn visible_ids(rows: Seq<ItemView>, upto: int) -> Seq<nat>
    decreases upto,
{
    if upto <= 0 {
        Seq::empty()
    } else if rows[upto - 1].visible {
        visible_ids(rows, upto - 1).push((upto - 1) as nat)
    } else {
        visible_ids(rows, upto - 1)
    }
}

/// The visible sequence: the positions of all rows whose `visible` flag is up.
pub open spec fn visible_sequence(rows: Seq<ItemView>) -> Seq<nat> {
    visible_ids(rows, rows.len() as int)
}

/// Where the selection lands when row `id` was selected and visibility has
/// changed: the index in the visible sequence of the last visible row at or
/// before `id`. That is `id` itself while it is visible, and else the
/// collapsed container that hides it.
pub open spec fn anchor(rows: Seq<ItemView>, id: int) -> nat {
    (visible_ids(rows, id + 1).len() - 1) as nat
}

/// The positions that a vector of indices holds.
pub open spec fn ids_view(ids: Seq<usize>) -> Seq<nat> {
    Seq::new(ids.len(), |i: int| ids[i] as nat)
}

/// Two row sequences agree on depth, kind and collapse flag of every row
/// below `upto`.
pub open spec fn same_shape(a: Seq<ItemView>, b: Seq<ItemView>, upto: int) -> bool {
    forall|i: int|
        0 <= i < upto ==> (#[trigger] a[i]).indent == (#[trigger] b[i]).indent && a[i].value
            == b[i].value && a[i].collapsed == b[i].collapsed
}

/// Two row sequences agree on the `visible` flag of every row below `upto`.
pub open spec fn same_flags(a: Seq<ItemView>, b: Seq<ItemView>, upto: int) -> bool {
    forall|i: int| 0 <= i < upto ==> (#[trigger] a[i]).visible == (#[trigger] b[i]).visible
}

/// The pass depends on depth, kind and collapse flag only.
pub proof fn lemma_suppression_same_shape(a: Seq<ItemView>, b: Seq<ItemView>, upto: int)
    requires
        same_shape(a, b, upto),
    ensures
        suppression(a, upto) == suppression(b, upto),
    decreases upto,
{
    if upto > 0 {
        lemma_suppression_same_shape(a, b, upto - 1);
    }
}

/// The visible sequence depends on the `visible` flags only.
pub proof fn lemma_visible_ids_same_flags(a: Seq<ItemView>, b: Seq<ItemView>, upto: int)
    requires
        same_flags(a, b, upto),
    ensures
        visible_ids(a, upto) == visible_ids(b, upto),
    decreases upto,
{
    if upto > 0 {
        lemma_visible_ids_same_flags(a, b, upto - 1);
    }
}

/// The visible positions below `upto` are below `upto`, are those of visible
/// rows, and stand in ascending order: position `k` holds the row before
/// which `k` visible rows stand.
pub proof fn lemma_visible_ids(rows: Seq<ItemView>, upto: int)
    requires
        0 <= upto <= rows.len(),
    ensures
        visible_ids(rows, upto).len() <= upto,
        forall|k: int|
            0 <= k < visible_ids(rows, upto).len() ==> {
                let id = #[trigger] visible_ids(rows, upto)[k];
                &&& id < upto
                &&& rows[id as int].visible
                &&& visible_ids(rows, id as int).len() == k
            },
        forall|i: int|
            0 <= i < upto && rows[i].visible ==> {
                let k = #[trigger] visible_ids(rows, i).len();
                &&& k < visible_ids(rows, upto).len()
                &&& visible_ids(rows, upto)[k as int] == i
            },
        forall|i: int|
            0 <= i <= upto ==> (#[trigger] visible_ids(rows, i)).is_prefix_of(
                visible_ids(rows, upto),
            ),
    decreases upto,
{
    if upto > 0 {
        lemma_visible_ids(rows, upto - 1);
        let all = visible_ids(rows, upto);
        assert forall|k: int| 0 <= k < all.len() implies {
            let id = #[trigger] all[k];
            &&& id < upto
            &&& rows[id as int].visible
            &&& visible_ids(rows, id as int).len() == k
        } by {}
        assert forall|i: int| 0 <= i < upto && rows[i].visible implies {
            let k = #[trigger] visible_ids(rows, i).len();
            &&& k < all.len()
            &&& all[k as int] == i
        } by {}
    }
}

/// The visible positions stand in strictly ascending order.
pub proof fn lemma_visible_ids_ascending(rows: Seq<ItemView>, upto: int, j: int, k: int)
    requires
        0 <= upto <= rows.len(),
        0 <= j < k < visible_ids(rows, upto).len(),
    ensures
        visible_ids(rows, upto)[j] < visible_ids(rows, upto)[k],
    decreases upto,
{
    lemma_visible_ids(rows, upto);
    if upto > 0 {
        lemma_visible_ids(rows, upto - 1);
        let shorter = visible_ids(rows, upto - 1);
        if k < shorter.len() {
            lemma_visible_ids_ascending(rows, upto - 1, j, k);
        }
    }
}

/// The first row is visible whatever is collapsed, so the visible sequence of
/// a document is never empty.
pub proof fn lemma_first_row_visible(rows: Seq<ItemView>, upto: int)
    requires
        0 < upto <= rows.len(),
        rows[0].visible,
    ensures
        visible_ids(rows, upto).len() > 0,
        visible_ids(rows, upto)[0] == 0,
{
    lemma_visible_ids(rows, upto);
    assert(visible_ids(rows, 0).len() == 0);
}

/// The anchor of a row is an index of the visible sequence; it is the row's
/// own index there while the row is visible, and else that of the nearest
/// visible row before it.
pub proof fn lemma_anchor(rows: Seq<ItemView>, id: int)
    requires
        0 <= id < rows.len(),
        rows[0].visible,
    ensures
        anchor(rows, id) < visible_sequence(rows).len(),
        visible_sequence(rows)[anchor(rows, id) as int] <= id,
        rows[id].visible ==> visible_sequence(rows)[anchor(rows, id) as int] == id,
        forall|i: int|
            visible_sequence(rows)[anchor(rows, id) as int] < i <= id ==> !(#[trigger] rows[i]).visible,
{
    let all = visible_sequence(rows);
    lemma_first_row_visible(rows, id + 1);
    lemma_visible_ids(rows, rows.len() as int);
    lemma_visible_ids(rows, id + 1);
    let a = anchor(rows, id) as int;
    assert forall|i: int| all[a] < i <= id implies !(#[trigger] rows[i]).visible by {
        if rows[i].visible {
            let k = visible_ids(rows, i).len() as int;
            if k < a {
                lemma_visible_ids_ascending(rows, id + 1, k, a);
            }
        }
    }
}

/// The anchor of row `id` is the one index of the visible sequence whose row
/// stands at or before `id` while the next one stands behind it.
pub proof fn lemma_anchor_is(rows: Seq<ItemView>, id: int, p: int)
    requires
        0 <= id < rows.len(),
        rows[0].visible,
        0 <= p < visible_sequence(rows).len(),
        visible_sequence(rows)[p] <= id,
        p + 1 < visible_sequence(rows).len() ==> visible_sequence(rows)[p + 1] > id,
    ensures
        p == anchor(rows, id),
{
    let a = anchor(rows, id) as int;
    lemma_anchor(rows, id);
    lemma_visible_ids(rows, rows.len() as int);
    lemma_visible_ids(rows, id + 1);
    if p < a {
        if p + 1 < a {
            lemma_visible_ids_ascending(rows, rows.len() as int, p + 1, a);
        }
    }
}

/// Two row sequences agree on depth and kind of every row, and on the
/// collapse flag of every row but row `at`.
pub open spec fn same_but_collapse_at(a: Seq<ItemView>, b: Seq<ItemView>, at: int) -> bool {
    &&& a.len() == b.len()
    &&& forall|i: int|
        0 <= i < a.len() ==> (#[trigger] a[i]).indent == (#[trigger] b[i]).indent && a[i].value
            == b[i].value && (i != at ==> a[i].collapsed == b[i].collapsed)
}

/// The collapse flag of a row that is itself suppressed changes nothing.
pub proof fn lemma_collapse_flag_of_hidden_row(
    a: Seq<ItemView>,
    b: Seq<ItemView>,
    at: int,
    upto: int,
)
    requires
        0 <= at < a.len(),
        same_but_collapse_at(a, b, at),
        suppression(a, at) is Some,
        0 <= upto <= a.len(),
    ensures
        suppression(a, upto) == suppression(b, upto),
    decreases upto,
{
    if upto > 0 {
        lemma_collapse_flag_of_hidden_row(a, b, at, upto - 1);
    }
}

/// The collapse flag of a row changes nothing before that row.
pub proof fn lemma_collapse_flag_acts_later(a: Seq<ItemView>, b: Seq<ItemView>, at: int, upto: int)
    requires
        0 <= at < a.len(),
        same_but_collapse_at(a, b, at),
        0 <= upto <= at,
    ensures
        suppression(a, upto) == suppression(b, upto),
    decreases upto,
{
    if upto > 0 {
        lemma_collapse_flag_acts_later(a, b, at, upto - 1);
    }
}

/// Outside a suppression, rows that open nothing begin no suppression.
pub proof fn lemma_no_open_row_hides_nothing(rows: Seq<ItemView>, from: int, to: int)
    requires
        0 <= from <= to <= rows.len(),
        suppression(rows, from) is None,
        forall|m: int| from <= m < to ==> !(#[trigger] rows[m]).value.is_open(),
    ensures
        suppression(rows, to) is None,
    decreases to - from,
{
    if from < to {
        lemma_no_open_row_hides_nothing(rows, from, to - 1);
    }
}

/// A visible collapsed opening row suppresses what follows as long as no row
/// of its own depth has come.
pub proof fn lemma_collapsed_row_hides(rows: Seq<ItemView>, at: int, to: int)
    requires
        0 <= at < to <= rows.len(),
        suppression(rows, at) is None,
        rows[at].value.is_open(),
        rows[at].collapsed,
        forall|m: int| at < m < to ==> (#[trigger] rows[m]).indent != rows[at].indent,
    ensures
        suppression(rows, to) == Some(rows[at].indent),
    decreases to - at,
{
    if at + 1 < to {
        lemma_collapsed_row_hides(rows, at, to - 1);
    }
}

/// A suppression ends with the first row of its depth: the row behind that
/// one is reached outside any suppression.
pub proof fn lemma_suppression_ends(rows: Seq<ItemView>, from: int, end: int) -> (first: int)
    requires
        0 < from <= end < rows.len(),
        suppression(rows, from) is Some,
        rows[end].indent == suppression(rows, from)->0,
    ensures
        from <= first <= end,
        suppression(rows, first + 1) is None,
    decreases end - from,
{
    if rows[from].indent == suppression(rows, from)->0 {
        from
    } else {
        lemma_suppression_ends(rows, from + 1, end)
    }
}

/// Sets the `visible` flag of every row by one pass from the first row to
/// the last, and returns the visible sequence.
pub fn recalculate_visible(items: &mut Vec<JsonItem>) -> (visible: Vec<usize>)
    ensures
        rows_view(final(items)@) == recomputed(rows_view(old(items)@)),
        ids_view(visible@) == visible_sequence(rows_view(final(items)@)),
{
    let ghost before = rows_view(items@);
    let ghost fresh = recomputed(before);
    let mut visible: Vec<usize> = Vec::new();
    let mut is_in_collapsed = false;
    let mut collapse_indent: usize = 0;
    let mut i: usize = 0;
    while i < items.len()
        invariant
            i <= items.len(),
            items.len() == before.len(),
            fresh == recomputed(before),
            match suppression(before, i as int) {
                Some(depth) => is_in_collapsed && collapse_indent == depth,
                None => !is_in_collapsed,
            },
            forall|k: int| 0 <= k < i ==> #[trigger] items@[k]@ == fresh[k],
            forall|k: int| i <= k < items.len() ==> #[trigger] items@[k]@ == before[k],
            ids_view(visible@) == visible_ids(fresh, i as int),
        decreases items.len() - i,
    {
        let ghost prev = items@;
        let shown = !is_in_collapsed;
        assert(prev[i as int]@ == before[i as int]);
        if is_in_collapsed {
            if items[i].indent == collapse_indent {
                is_in_collapsed = false;
            }
        } else if items[i].collapsed && items[i].value.is_open() {
            is_in_collapsed = true;
            collapse_indent = items[i].indent;
        }
        items[i].visible = shown;
        if shown {
            visible.push(i);
        }
        i += 1;
    }
    assert(rows_view(items@) =~= fresh);
    visible
}

} // verus!
