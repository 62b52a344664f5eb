//! Breadcrumbs: the path from the document's root to a row, written as one
//! string whose segments are joined by a fixed marker.

use crate::json_item::{ItemView, JsonValueType, ValueView};
use crate::text::{chars_of, matches_at, occurs_at, starts_with_chars};
use vstd::prelude::*;
use vstd::string::*;

verus! {

/// The marker between two segments of a breadcrumb string.
pub open spec fn separator() -> Seq<char> {
    seq![' ', '\u{25b6}', ' ']
}

/// The marker as a string.
pub fn separator_str() -> (s: &'static str)
    ensures
        s@ == separator(),
{
    proof {
        reveal_strlit(" \u{25b6} ");
    }
    let s = " \u{25b6} ";
    s
}

/// The segment that a child adds to its parent's breadcrumbs: the key of an
/// object member, the index in square brackets of an array element.
pub open spec fn segment(name: Seq<char>, parent: ValueView) -> Seq<char> {
    if parent is Array {
        seq!['['] + name + seq![']']
    } else {
        name
    }
}

/// The breadcrumbs of a child: its segment behind the parent's breadcrumbs
/// and the marker, or the segment alone below the root.
pub open spec fn child_breadcrumbs(
    root: Seq<char>,
    name: Seq<char>,
    parent: ValueView,
) -> Seq<char> {
    if root.len() == 0 {
        segment(name, parent)
    } else {
        root + separator() + segment(name, parent)
    }
}

/// The breadcrumbs of the child called `new` of a container of kind
/// `value_type` whose own breadcrumbs are `root`.
pub fn make_breadcrumbs(root: &str, new: &str, value_type: JsonValueType) -> (r: String)
    ensures
        r@ == child_breadcrumbs(root@, new@, value_type@),
{
    let mut r = String::from_str(root);
    if root.unicode_len() != 0 {
        r.append(separator_str());
    }
    match value_type {
        JsonValueType::Array => {
            proof {
                reveal_strlit("[");
                reveal_strlit("]");
            }
            r.append("[");
            r.append(new);
            r.append("]");
        },
        _ => {
            r.append(new);
        },
    }
    r
}

/// The greatest index below `upto` at which the marker stands in `s`, or -1
/// where it stands at none.
pub open spec fn last_separator(s: Seq<char>, upto: int) -> int
    decreases upto,
{
    if upto <= 0 {
        -1
    } else if occurs_at(separator(), s, upto - 1) {
        upto - 1
    } else {
        last_separator(s, upto - 1)
    }
}

/// Breadcrumbs without their last segment: what stands before the last
/// marker, and nothing where there is no marker.
pub open spec fn parent_breadcrumbs(s: Seq<char>) -> Seq<char> {
    let at = last_separator(s, s.len() as int);
    if at < 0 {
        Seq::empty()
    } else {
        s.subrange(0, at)
    }
}

/// The least index from `from` on at which the marker stands in `s`, or the
/// length of `s` where it stands at none.
pub open spec fn next_separator(s: Seq<char>, from: int) -> int
    decreases s.len() - from,
{
    if from >= s.len() {
        s.len() as int
    } else if occurs_at(separator(), s, from) {
        from
    } else {
        next_separator(s, from + 1)
    }
}

/// The number of leading segments on which two breadcrumb strings agree,
/// counted from index `i` of `a` and index `j` of `b`, each of which is the
/// start of a segment. A segment ends before the next marker, which has three
/// characters, or with the string.
pub open spec fn shared_segments_from(a: Seq<char>, i: int, b: Seq<char>, j: int) -> nat
    decreases a.len() + 3 - i,
{
    let end_a = next_separator(a, i);
    let end_b = next_separator(b, j);
    if i < 0 || i > a.len() || j < 0 || j > b.len() || end_a < i {
        0
    } else if a.subrange(i, end_a) != b.subrange(j, end_b) {
        0
    } else if end_a < a.len() && end_b < b.len() {
        1 + shared_segments_from(a, end_a + 3, b, end_b + 3)
    } else {
        1
    }
}

/// The number of leading segments on which two breadcrumb strings agree.
pub open spec fn shared_segments(a: Seq<char>, b: Seq<char>) -> nat {
    shared_segments_from(a, 0, b, 0)
}

/// The breadcrumbs that a selected row is compared by: its own where it is a
/// container, those of its parent where it is a scalar.
pub open spec fn selection_breadcrumbs(row: ItemView) -> Seq<char> {
    if row.value.is_scalar() {
        parent_breadcrumbs(row.breadcrumbs)
    } else {
        row.breadcrumbs
    }
}

/// The selection level of a row with breadcrumbs `row` when the selection is
/// compared by `selection`: the number of leading segments that both share
/// where `row` begins with `selection`, and zero elsewhere.
pub open spec fn selection_level(selection: Seq<char>, row: Seq<char>) -> nat {
    if selection.is_prefix_of(row) {
        shared_segments(selection, row)
    } else {
        0
    }
}

pub proof fn lemma_next_separator_bounds(s: Seq<char>, from: int)
    requires
        0 <= from <= s.len(),
    ensures
        from <= next_separator(s, from) <= s.len(),
        next_separator(s, from) < s.len() ==> occurs_at(separator(), s, next_separator(s, from)),
        forall|k: int| from <= k < next_separator(s, from) ==> !occurs_at(separator(), s, k),
    decreases s.len() - from,
{
    if from < s.len() && !occurs_at(separator(), s, from) {
        lemma_next_separator_bounds(s, from + 1);
    }
}

/// The index of the last marker in `s`, if there is one.
pub fn find_last_separator(s: &Vec<char>) -> (r: Option<usize>)
    ensures
        match r {
            Some(at) => at == last_separator(s@, s@.len() as int) && at + 3 <= s.len(),
            None => last_separator(s@, s@.len() as int) == -1,
        },
{
    let mark = chars_of(separator_str());
    let mut k: usize = s.len();
    while k > 0
        invariant
            k <= s.len(),
            mark@ == separator(),
            last_separator(s@, s@.len() as int) == last_separator(s@, k as int),
        decreases k,
    {
        if matches_at(s, &mark, k - 1) {
            return Some(k - 1);
        }
        k -= 1;
    }
    None
}

/// The index of the first marker in `s` from `from` on, or the length of `s`.
pub fn find_next_separator(s: &Vec<char>, from: usize) -> (r: usize)
    requires
        from <= s.len(),
    ensures
        r == next_separator(s@, from as int),
        from <= r <= s.len(),
{
    let mark = chars_of(separator_str());
    let mut k: usize = from;
    while k < s.len()
        invariant
            from <= k <= s.len(),
            mark@ == separator(),
            next_separator(s@, from as int) == next_separator(s@, k as int),
        decreases s.len() - k,
    {
        if matches_at(s, &mark, k) {
            return k;
        }
        k += 1;
    }
    k
}

/// Whether the characters of `a` from `i` to `end_a` are those of `b` from
/// `j` to `end_b`.
pub fn same_range(a: &Vec<char>, i: usize, end_a: usize, b: &Vec<char>, j: usize, end_b: usize) -> (r:
    bool)
    requires
        i <= end_a <= a.len(),
        j <= end_b <= b.len(),
    ensures
        r == (a@.subrange(i as int, end_a as int) == b@.subrange(j as int, end_b as int)),
{
    if end_a - i != end_b - j {
        assert(a@.subrange(i as int, end_a as int).len() != b@.subrange(
            j as int,
            end_b as int,
        ).len());
        return false;
    }
    let n: usize = end_a - i;
    let mut k: usize = 0;
    while k < n
        invariant
            k <= n,
            n == end_a - i,
            n == end_b - j,
            end_a <= a.len(),
            end_b <= b.len(),
            forall|m: int|
                0 <= m < k ==> a@.subrange(i as int, end_a as int)[m] == b@.subrange(
                    j as int,
                    end_b as int,
                )[m],
        decreases n - k,
    {
        if a[i + k] != b[j + k] {
            assert(a@.subrange(i as int, end_a as int)[k as int] != b@.subrange(
                j as int,
                end_b as int,
            )[k as int]);
            return false;
        }
        k += 1;
    }
    assert(a@.subrange(i as int, end_a as int) =~= b@.subrange(j as int, end_b as int));
    true
}

/// Counts the leading segments on which two breadcrumb strings agree.
pub fn count_shared_segments(a: &Vec<char>, b: &Vec<char>) -> (count: usize)
    ensures
        count == shared_segments(a@, b@),
{
    let mut i: usize = 0;
    let mut j: usize = 0;
    let mut count: usize = 0;
    loop
        invariant
            i <= a.len(),
            j <= b.len(),
            3 * count <= i,
            shared_segments(a@, b@) == count + shared_segments_from(a@, i as int, b@, j as int),
        decreases a.len() - i,
    {
        let end_a = find_next_separator(a, i);
        let end_b = find_next_separator(b, j);
        proof {
            lemma_next_separator_bounds(a@, i as int);
            lemma_next_separator_bounds(b@, j as int);
        }
        if !same_range(a, i, end_a, b, j, end_b) {
            return count;
        }
        if end_a < a.len() && end_b < b.len() {
            count += 1;
            i = end_a + 3;
            j = end_b + 3;
        } else {
            return count + 1;
        }
    }
}

/// The selection level of a row with breadcrumbs `row` against the
/// selection's breadcrumbs.
pub fn compute_selection_level(selection: &Vec<char>, row: &Vec<char>) -> (level: usize)
    ensures
        level == selection_level(selection@, row@),
{
    if starts_with_chars(row, selection) {
        count_shared_segments(selection, row)
    } else {
        0
    }
}

} // verus!
