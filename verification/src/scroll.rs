//! The render window: the part of the visible sequence that is drawn.

use vstd::prelude::*;

verus! {

/// The end of the render window, exclusive: a list of `height` lines shows
/// `height - 1` rows from `top` on, as far as there are rows. A list of fewer
/// than two lines has the fixed end 1.
pub open spec fn bottom_index(top: nat, height: nat, visible_len: nat) -> nat {
    if height < 2 {
        1
    } else if top + height - 1 <= visible_len {
        (top + height - 1) as nat
    } else {
        visible_len
    }
}

/// The top of the window after the selection has moved to `selected`: the
/// selection itself where it stands above the window; where it stands at or
/// below the window's end, the top that makes it the last row shown; else
/// unchanged.
pub open spec fn scrolled_top(top: nat, height: nat, visible_len: nat, selected: nat) -> nat {
    let raised = if selected < top {
        selected
    } else {
        top
    };
    if selected >= bottom_index(raised, height, visible_len) {
        if selected + 2 >= height {
            (selected + 2 - height) as nat
        } else {
            0
        }
    } else {
        raised
    }
}

/// After a selection change the selected row lies in the render window,
/// provided the list has at least two lines.
pub proof fn lemma_selection_in_window(top: nat, height: nat, visible_len: nat, selected: nat)
    requires
        height >= 2,
        selected < visible_len,
    ensures
        scrolled_top(top, height, visible_len, selected) <= selected,
        selected < bottom_index(
            scrolled_top(top, height, visible_len, selected),
            height,
            visible_len,
        ),
{
}

/// The top of the window never moves more than two rows past the selection.
pub proof fn lemma_scrolled_top_bound(top: nat, height: nat, visible_len: nat, selected: nat)
    ensures
        scrolled_top(top, height, visible_len, selected) <= selected + 2,
{
}

/// Computes the end of the render window.
pub fn window_end(top: usize, height: u16, visible_len: usize) -> (bottom: usize)
    ensures
        bottom == bottom_index(top as nat, height as nat, visible_len as nat),
{
    if height < 2 {
        1
    } else {
        let span: usize = (height - 1) as usize;
        if top <= visible_len && span <= visible_len - top {
            top + span
        } else {
            visible_len
        }
    }
}

/// Computes the top of the window after the selection has moved.
pub fn scroll_to(top: usize, height: u16, visible_len: usize, selected: usize) -> (new_top: usize)
    requires
        selected < visible_len,
        visible_len < usize::MAX,
    ensures
        new_top == scrolled_top(top as nat, height as nat, visible_len as nat, selected as nat),
{
    let raised: usize = if selected < top {
        selected
    } else {
        top
    };
    if selected >= window_end(raised, height, visible_len) {
        if height >= 2 {
            let back: usize = (height - 2) as usize;
            if selected >= back {
                selected - back
            } else {
                0
            }
        } else {
            selected + (2 - height) as usize
        }
    } else {
        raised
    }
}

} // verus!
