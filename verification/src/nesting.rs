//! Nesting: every opening row of a flattened document has its closing row,
//! and every closing row its opening row.

use crate::breadcrumbs::child_breadcrumbs;
use crate::json_item::{fresh_row, ItemView, ValueView};
use crate::parse_json::{
    document_rows, element_rows, member_rows, numbered, tree_rows, MemberView, TreeView,
};
use crate::text::decimal;
use crate::visibility::{row_visible, suppression};
use vstd::prelude::*;

verus! {

/// Row `end` closes the container that row `open` opens: it stands behind
/// it, is the closing row of the same kind and the same depth, and every row
/// between the two lies deeper.
pub open spec fn is_pair(rows: Seq<ItemView>, open: int, end: int) -> bool {
    &&& 0 <= open < end < rows.len()
    &&& rows[open].value.is_open()
    &&& rows[end].value.closes(rows[open].value)
    &&& rows[end].indent == rows[open].indent
    &&& forall|k: int| open < k < end ==> (#[trigger] rows[k]).indent > rows[open].indent
}

/// Every opening row has a closing row and every closing row an opening row.
pub open spec fn well_nested(rows: Seq<ItemView>) -> bool {
    &&& forall|open: int|
        0 <= open < rows.len() && (#[trigger] rows[open]).value.is_open() ==> exists|end: int|
            is_pair(rows, open, end)
    &&& forall|end: int|
        0 <= end < rows.len() && (#[trigger] rows[end]).value.is_end() ==> exists|open: int|
            is_pair(rows, open, end)
}

/// Every row lies at depth `depth` or deeper.
pub open spec fn at_least(rows: Seq<ItemView>, depth: nat) -> bool {
    forall|k: int| 0 <= k < rows.len() ==> (#[trigger] rows[k]).indent >= depth
}

/// An opening row has one closing row only.
pub proof fn lemma_pair_is_unique(rows: Seq<ItemView>, open: int, end: int, other: int)
    requires
        is_pair(rows, open, end),
        is_pair(rows, open, other),
    ensures
        end == other,
{
}

/// Pairs do not cross: a container that opens inside another closes inside
/// it.
pub proof fn lemma_pairs_nest(rows: Seq<ItemView>, open: int, end: int, inner: int, inner_end: int)
    requires
        is_pair(rows, open, end),
        is_pair(rows, inner, inner_end),
        open < inner < end,
    ensures
        inner_end < end,
{
}

/// A pair stays a pair when rows are put before and behind.
proof fn lemma_pair_in_context(
    before: Seq<ItemView>,
    rows: Seq<ItemView>,
    behind: Seq<ItemView>,
    open: int,
    end: int,
)
    requires
        is_pair(rows, open, end),
    ensures
        is_pair(before + rows + behind, before.len() + open, before.len() + end),
{
}

/// Two well-nested sequences, one behind the other, are well nested.
proof fn lemma_well_nested_concat(a: Seq<ItemView>, b: Seq<ItemView>)
    requires
        well_nested(a),
        well_nested(b),
    ensures
        well_nested(a + b),
{
    let all = a + b;
    let none = Seq::<ItemView>::empty();
    assert forall|open: int|
        0 <= open < all.len() && (#[trigger] all[open]).value.is_open() implies exists|end: int|
        is_pair(all, open, end) by {
        if open < a.len() {
            let end = choose|end: int| is_pair(a, open, end);
            lemma_pair_in_context(none, a, b, open, end);
        } else {
            let shifted = open - a.len();
            let end = choose|end: int| is_pair(b, shifted, end);
            lemma_pair_in_context(a, b, none, shifted, end);
        }
    }
    assert forall|end: int|
        0 <= end < all.len() && (#[trigger] all[end]).value.is_end() implies exists|open: int|
        is_pair(all, open, end) by {
        if end < a.len() {
            let open = choose|open: int| is_pair(a, open, end);
            lemma_pair_in_context(none, a, b, open, end);
        } else {
            let shifted = end - a.len();
            let open = choose|open: int| is_pair(b, open, shifted);
            lemma_pair_in_context(a, b, none, open, shifted);
        }
    }
}

/// A well-nested sequence of deeper rows between an opening row and its
/// closing row is well nested.
proof fn lemma_well_nested_wrap(open: ItemView, inner: Seq<ItemView>, end: ItemView)
    requires
        well_nested(inner),
        at_least(inner, open.indent + 1),
        open.value.is_open(),
        end.value.closes(open.value),
        end.indent == open.indent,
    ensures
        well_nested(seq![open] + inner + seq![end]),
{
    let all = seq![open] + inner + seq![end];
    let last = all.len() - 1;
    assert(is_pair(all, 0, last));
    assert forall|at: int|
        0 <= at < all.len() && (#[trigger] all[at]).value.is_open() implies exists|e: int|
        is_pair(all, at, e) by {
        if 0 < at < last {
            let shifted = at - 1;
            let e = choose|e: int| is_pair(inner, shifted, e);
            lemma_pair_in_context(seq![open], inner, seq![end], shifted, e);
        }
    }
    assert forall|at: int|
        0 <= at < all.len() && (#[trigger] all[at]).value.is_end() implies exists|o: int|
        is_pair(all, o, at) by {
        if 0 < at < last {
            let shifted = at - 1;
            let o = choose|o: int| is_pair(inner, o, shifted);
            lemma_pair_in_context(seq![open], inner, seq![end], o, shifted);
        }
    }
}

/// The rows of a value are well nested and lie at the value's depth or
/// deeper.
pub proof fn lemma_tree_rows_well_nested(
    tree: TreeView,
    name: Option<Seq<char>>,
    indent: nat,
    crumbs: Seq<char>,
)
    ensures
        well_nested(tree_rows(tree, name, indent, crumbs)),
        at_least(tree_rows(tree, name, indent, crumbs), indent),
        tree_rows(tree, name, indent, crumbs).len() > 0,
    decreases tree, 0nat,
{
    match tree {
        TreeView::Object(members) => {
            let open = fresh_row(name, indent, ValueView::Object, crumbs, members.len());
            let end = fresh_row(None, indent, ValueView::ObjectEnd, crumbs, 0);
            let inner = member_rows(members, members.len(), indent + 1, crumbs);
            lemma_member_rows_well_nested(members, members.len(), indent + 1, crumbs);
            lemma_well_nested_wrap(open, inner, end);
        },
        TreeView::Array(elements) => {
            let open = fresh_row(name, indent, ValueView::Array, crumbs, elements.len());
            let end = fresh_row(None, indent, ValueView::ArrayEnd, crumbs, 0);
            let inner = element_rows(elements, elements.len(), indent + 1, crumbs);
            lemma_element_rows_well_nested(elements, elements.len(), indent + 1, crumbs);
            lemma_well_nested_wrap(open, inner, end);
        },
        _ => {},
    }
}

/// The rows of the first `count` members of an object are well nested and
/// lie at the members' depth or deeper.
pub proof fn lemma_member_rows_well_nested(
    members: Seq<MemberView>,
    count: nat,
    indent: nat,
    crumbs: Seq<char>,
)
    ensures
        well_nested(member_rows(members, count, indent, crumbs)),
        at_least(member_rows(members, count, indent, crumbs), indent),
    decreases members, count,
{
    if 0 < count <= members.len() {
        let member = members[count - 1];
        let member_crumbs = child_breadcrumbs(crumbs, member.key, ValueView::Object);
        lemma_member_rows_well_nested(members, (count - 1) as nat, indent, crumbs);
        lemma_tree_rows_well_nested(member.value, Some(member.key), indent, member_crumbs);
        lemma_well_nested_concat(
            member_rows(members, (count - 1) as nat, indent, crumbs),
            tree_rows(member.value, Some(member.key), indent, member_crumbs),
        );
    }
}

/// The rows of the first `count` elements of an array are well nested and
/// lie at the elements' depth or deeper.
pub proof fn lemma_element_rows_well_nested(
    elements: Seq<TreeView>,
    count: nat,
    indent: nat,
    crumbs: Seq<char>,
)
    ensures
        well_nested(element_rows(elements, count, indent, crumbs)),
        at_least(element_rows(elements, count, indent, crumbs), indent),
    decreases elements, count,
{
    if 0 < count <= elements.len() {
        let element_crumbs = child_breadcrumbs(
            crumbs,
            decimal((count - 1) as nat),
            ValueView::Array,
        );
        lemma_element_rows_well_nested(elements, (count - 1) as nat, indent, crumbs);
        lemma_tree_rows_well_nested(elements[count - 1], None, indent, element_crumbs);
        lemma_well_nested_concat(
            element_rows(elements, (count - 1) as nat, indent, crumbs),
            tree_rows(elements[count - 1], None, indent, element_crumbs),
        );
    }
}

/// Two row sequences agree on the depth and the kind of every row.
pub open spec fn same_layout(a: Seq<ItemView>, b: Seq<ItemView>) -> bool {
    &&& a.len() == b.len()
    &&& forall|i: int|
        0 <= i < a.len() ==> (#[trigger] a[i]).indent == (#[trigger] b[i]).indent && a[i].value
            == b[i].value
}

/// Nesting is a matter of depths and kinds only: no operation of the view
/// state, which changes flags and selection levels, undoes it.
pub proof fn lemma_well_nested_same_layout(rows: Seq<ItemView>, all: Seq<ItemView>)
    requires
        well_nested(rows),
        same_layout(rows, all),
    ensures
        well_nested(all),
{
    assert forall|open: int, end: int| is_pair(rows, open, end) implies is_pair(
        all,
        open,
        end,
    ) by {
        assert forall|k: int| open < k < end implies (#[trigger] all[k]).indent
            > all[open].indent by {
            assert(rows[k].indent > rows[open].indent);
        }
    }
    assert forall|open: int|
        0 <= open < all.len() && (#[trigger] all[open]).value.is_open() implies exists|end: int|
        is_pair(all, open, end) by {
        let end = choose|end: int| is_pair(rows, open, end);
        assert(is_pair(all, open, end));
    }
    assert forall|end: int|
        0 <= end < all.len() && (#[trigger] all[end]).value.is_end() implies exists|open: int|
        is_pair(all, open, end) by {
        let open = choose|open: int| is_pair(rows, open, end);
        assert(is_pair(all, open, end));
    }
}

/// Row `i` lies in the span of the collapsed container that opens at `open`
/// and closes at `end`: behind its opening row, and not behind its closing
/// row.
pub open spec fn hidden_by(rows: Seq<ItemView>, open: int, end: int, i: int) -> bool {
    is_pair(rows, open, end) && rows[open].collapsed && open < i <= end
}

/// Row `i` lies in the span of some collapsed container.
pub open spec fn is_hidden(rows: Seq<ItemView>, i: int) -> bool {
    exists|open: int, end: int| hidden_by(rows, open, end, i)
}

/// What the pass knows when it reaches row `i` of well-nested rows: outside
/// a suppression, the row lies in the span of no collapsed container; inside
/// one, it lies in the span of a collapsed container of the suppression's
/// depth whose opening row is visible. The result is that container.
proof fn lemma_suppression_and_spans(rows: Seq<ItemView>, i: int) -> (span: (int, int))
    requires
        well_nested(rows),
        0 <= i <= rows.len(),
    ensures
        suppression(rows, i) is None ==> !is_hidden(rows, i),
        suppression(rows, i) matches Some(depth) ==> hidden_by(rows, span.0, span.1, i)
            && rows[span.0].indent == depth && suppression(rows, span.0) is None,
    decreases i,
{
    if i == 0 {
        (0, 0)
    } else {
        let at = i - 1;
        let before = lemma_suppression_and_spans(rows, at);
        match suppression(rows, at) {
            None => {
                if rows[at].value.is_open() && rows[at].collapsed {
                    let end = choose|end: int| is_pair(rows, at, end);
                    (at, end)
                } else {
                    assert forall|open: int, end: int| !hidden_by(rows, open, end, i) by {
                        if hidden_by(rows, open, end, i) {
                            assert(hidden_by(rows, open, end, at));
                        }
                    }
                    (0, 0)
                }
            },
            Some(depth) => {
                let (o, e) = before;
                if rows[at].indent == depth {
                    assert forall|open: int, end: int| !hidden_by(rows, open, end, i) by {
                        if hidden_by(rows, open, end, i) {
                            assert(open != e);
                            if o < open {
                                lemma_pairs_nest(rows, o, e, open, end);
                            } else if open == o {
                                lemma_pair_is_unique(rows, o, e, end);
                            } else {
                                lemma_suppression_and_spans(rows, o);
                                assert(hidden_by(rows, open, end, o));
                            }
                        }
                    }
                    (0, 0)
                } else {
                    (o, e)
                }
            },
        }
    }
}

/// In well-nested rows, a row is visible exactly if it lies in the span of no
/// collapsed container: neither inside one, nor as its closing row.
pub proof fn lemma_visible_rows(rows: Seq<ItemView>, i: int)
    requires
        well_nested(rows),
        0 <= i < rows.len(),
    ensures
        row_visible(rows, i) <==> !is_hidden(rows, i),
{
    lemma_suppression_and_spans(rows, i);
}

/// Numbering keeps pairs.
proof fn lemma_numbered_well_nested(rows: Seq<ItemView>)
    requires
        well_nested(rows),
    ensures
        well_nested(numbered(rows)),
{
    lemma_well_nested_same_layout(rows, numbered(rows));
}

/// The rows of every document are well nested: each opening row has its
/// closing row of the same kind and depth, each closing row its opening row,
/// and no row is left over. A document has at least one row.
pub proof fn lemma_document_rows_well_nested(tree: TreeView)
    ensures
        well_nested(document_rows(tree)),
        document_rows(tree).len() > 0,
{
    lemma_tree_rows_well_nested(tree, None, 0, Seq::empty());
    lemma_numbered_well_nested(tree_rows(tree, None, 0, Seq::empty()));
}

} // verus!
