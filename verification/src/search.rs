//! Search: a query names a row by its key, optionally within a scope of the
//! breadcrumbs, and optionally asks for a value.
//!
//! The query text is `name-part` or `name-part=value-part`. A name part
//! `scope.name` is split at its last dot.

use crate::json_item::{name_view, rows_view, ItemView, JsonItem};
use crate::text::{chars_of, contains_ignoring_case, contains_lowercased};
use vstd::prelude::*;
use vstd::string::*;

verus! {

/// The least index from `from` on at which `c` stands in `s`, or the length of
/// `s` where it stands at none.
pub open spec fn first_index_of(s: Seq<char>, c: char, from: int) -> int
    decreases s.len() - from,
{
    if from >= s.len() {
        s.len() as int
    } else if from >= 0 && s[from] == c {
        from
    } else {
        first_index_of(s, c, from + 1)
    }
}

/// The greatest index below `upto` at which `c` stands in `s`, or -1 where it
/// stands at none.
pub open spec fn last_index_of(s: Seq<char>, c: char, upto: int) -> int
    decreases upto,
{
    if upto <= 0 {
        -1
    } else if upto <= s.len() && s[upto - 1] == c {
        upto - 1
    } else {
        last_index_of(s, c, upto - 1)
    }
}

/// The part of a query before its first `=`: the whole query where it has
/// none.
pub open spec fn name_part(query: Seq<char>) -> Seq<char> {
    query.subrange(0, first_index_of(query, '=', 0))
}

/// The part of a query behind its first `=`, if it has one.
pub open spec fn value_part(query: Seq<char>) -> Option<Seq<char>> {
    let at = first_index_of(query, '=', 0);
    if at < query.len() {
        Some(query.subrange(at + 1, query.len() as int))
    } else {
        None
    }
}

/// The scope of a name part: what stands before its last dot, and nothing
/// where it has no dot.
pub open spec fn scope_of(name_part: Seq<char>) -> Seq<char> {
    let at = last_index_of(name_part, '.', name_part.len() as int);
    if at < 0 {
        Seq::empty()
    } else {
        name_part.subrange(0, at)
    }
}

/// The name that a name part asks for: what stands behind its last dot, and
/// all of it where it has no dot.
pub open spec fn wanted_name(name_part: Seq<char>) -> Seq<char> {
    let at = last_index_of(name_part, '.', name_part.len() as int);
    if at < 0 {
        name_part
    } else {
        name_part.subrange(at + 1, name_part.len() as int)
    }
}

/// A row with this name and these breadcrumbs is named by the query: it has
/// a name, the wanted name is not empty and occurs in the row's name, and the
/// scope occurs in the breadcrumbs, letter case ignored in both.
pub open spec fn name_matches(
    name: Option<Seq<char>>,
    breadcrumbs: Seq<char>,
    scope: Seq<char>,
    wanted: Seq<char>,
) -> bool {
    &&& name matches Some(n)
    &&& wanted.len() > 0
    &&& contains_ignoring_case(n, wanted)
    &&& contains_ignoring_case(breadcrumbs, scope)
}

/// A row with this value text has the value that the query asks for: no row
/// where the query has no value part or an empty one; every row with a
/// value text for `*`; else the rows in whose value text the part occurs,
/// letter case ignored. A row without value text never matches.
pub open spec fn value_matches(value: Seq<char>, search: Option<Seq<char>>) -> bool {
    match search {
        None => false,
        Some(s) => if s.len() == 0 {
            false
        } else if s == seq!['*'] {
            value.len() > 0
        } else {
            value.len() > 0 && contains_ignoring_case(value, s)
        },
    }
}

/// An optional text is there and is not empty.
pub open spec fn has_text(s: Option<Seq<char>>) -> bool {
    s matches Some(text) && text.len() > 0
}

/// Whether the query names the row.
pub open spec fn row_name_matches(row: ItemView, query: Seq<char>) -> bool {
    name_matches(
        row.name,
        row.breadcrumbs,
        scope_of(name_part(query)),
        wanted_name(name_part(query)),
    )
}

/// Whether the row has the value that the query asks for.
pub open spec fn row_value_matches(row: ItemView, query: Seq<char>) -> bool {
    value_matches(row.value_str, value_part(query))
}

/// A query with both a name part and a value part asks for rows that meet
/// both.
pub open spec fn asks_for_both(query: Seq<char>) -> bool {
    name_part(query).len() > 0 && has_text(value_part(query))
}

/// The name flag of a row under a query.
pub open spec fn name_flag(row: ItemView, query: Seq<char>) -> bool {
    row_name_matches(row, query) && (asks_for_both(query) ==> row_value_matches(row, query))
}

/// The value flag of a row under a query.
pub open spec fn value_flag(row: ItemView, query: Seq<char>) -> bool {
    row_value_matches(row, query) && (asks_for_both(query) ==> row_name_matches(row, query))
}

/// The row with its two search flags set for the query.
pub open spec fn with_search_flags(row: ItemView, query: Seq<char>) -> ItemView {
    ItemView {
        name_is_search_result: name_flag(row, query),
        value_is_search_result: value_flag(row, query),
        ..row
    }
}

/// The rows, each with its search flags set for the query.
pub open spec fn flagged_rows(rows: Seq<ItemView>, query: Seq<char>) -> Seq<ItemView> {
    Seq::new(rows.len(), |i: int| with_search_flags(rows[i], query))
}

/// The row with both search flags down.
pub open spec fn without_search_flags(row: ItemView) -> ItemView {
    ItemView { name_is_search_result: false, value_is_search_result: false, ..row }
}

/// The rows, each with both search flags down.
pub open spec fn unflagged_rows(rows: Seq<ItemView>) -> Seq<ItemView> {
    Seq::new(rows.len(), |i: int| without_search_flags(rows[i]))
}

/// The view of an optional string slice.
pub open spec fn text_view(s: Option<&str>) -> Option<Seq<char>> {
    match s {
        Some(text) => Some(text@),
        None => None,
    }
}

/// Whether a row with this name and these breadcrumbs is named by the scope
/// and name of `name_parts`.
pub fn search_in_name(name: &Option<String>, breadcrumbs: &str, name_parts: (&str, &str)) -> (b:
    bool)
    ensures
        b == name_matches(name_view(*name), breadcrumbs@, name_parts.0@, name_parts.1@),
{
    match name {
        Some(n) => {
            !name_parts.1.is_empty() && contains_lowercased(n.as_str(), name_parts.1)
                && contains_lowercased(breadcrumbs, name_parts.0)
        },
        None => false,
    }
}

/// Whether a row with this value text has the value that `search_str` asks
/// for.
pub fn search_in_value(value: &String, search_str: Option<&str>) -> (b: bool)
    ensures
        b == value_matches(value@, text_view(search_str)),
{
    match search_str {
        None => false,
        Some(s) => {
            let wanted = chars_of(s);
            if wanted.len() == 0 {
                false
            } else if wanted.len() == 1 && wanted[0] == '*' {
                assert(s@ =~= seq!['*']);
                !value.as_str().is_empty()
            } else {
                !value.as_str().is_empty() && contains_lowercased(value.as_str(), s)
            }
        },
    }
}

/// Whether an optional text is there and is not empty.
pub fn not_empty(s: Option<&str>) -> (b: bool)
    ensures
        b == has_text(text_view(s)),
{
    match s {
        None => false,
        Some(st) => !st.is_empty(),
    }
}

/// Splits a query at its first `=`.
pub fn split_query<'a>(search_string: &'a str) -> (parts: (&'a str, Option<&'a str>))
    ensures
        parts.0@ == name_part(search_string@),
        text_view(parts.1) == value_part(search_string@),
{
    let chars = chars_of(search_string);
    let mut at: usize = 0;
    while at < chars.len() && chars[at] != '='
        invariant
            at <= chars.len(),
            first_index_of(chars@, '=', 0) == first_index_of(chars@, '=', at as int),
        decreases chars.len() - at,
    {
        at += 1;
    }
    let name = search_string.substring_char(0, at);
    if at < chars.len() {
        (name, Some(search_string.substring_char(at + 1, chars.len())))
    } else {
        (name, None)
    }
}

/// Splits a name part at its last dot into scope and name.
pub fn split_name_part<'a>(name_part: &'a str) -> (parts: (&'a str, &'a str))
    ensures
        parts.0@ == scope_of(name_part@),
        parts.1@ == wanted_name(name_part@),
{
    let chars = chars_of(name_part);
    let mut upto: usize = chars.len();
    while upto > 0 && chars[upto - 1] != '.'
        invariant
            upto <= chars.len(),
            last_index_of(chars@, '.', chars@.len() as int) == last_index_of(
                chars@,
                '.',
                upto as int,
            ),
        decreases upto,
    {
        upto -= 1;
    }
    if upto == 0 {
        let scope = name_part.substring_char(0, 0);
        (scope, name_part)
    } else {
        (name_part.substring_char(0, upto - 1), name_part.substring_char(upto, chars.len()))
    }
}

/// Sets the two search flags of every row for the query `search_string`.
pub fn update_search_results(json_items: &mut Vec<JsonItem>, search_string: &str)
    ensures
        rows_view(final(json_items)@) == flagged_rows(rows_view(old(json_items)@), search_string@),
{
    let ghost before = rows_view(json_items@);
    let ghost query = search_string@;
    let (name_search_str, value_search_str) = split_query(search_string);
    let name_parts = split_name_part(name_search_str);
    let both = !name_search_str.is_empty() && not_empty(value_search_str);
    let mut i: usize = 0;
    while i < json_items.len()
        invariant
            i <= json_items.len(),
            json_items.len() == before.len(),
            name_search_str@ == name_part(query),
            text_view(value_search_str) == value_part(query),
            name_parts.0@ == scope_of(name_part(query)),
            name_parts.1@ == wanted_name(name_part(query)),
            both == asks_for_both(query),
            forall|k: int| 0 <= k < i ==> #[trigger] json_items@[k]@ == with_search_flags(before[k], query),
            forall|k: int| i <= k < json_items.len() ==> #[trigger] json_items@[k]@ == before[k],
        decreases json_items.len() - i,
    {
        let ghost prev = json_items@;
        let in_name = search_in_name(
            &json_items[i].name,
            json_items[i].breadcrumbs.as_str(),
            name_parts,
        );
        let in_value = search_in_value(&json_items[i].value_str, value_search_str);
        let keep = !both || (in_name && in_value);
        json_items[i].name_is_search_result = in_name && keep;
        json_items[i].value_is_search_result = in_value && keep;
        proof {
            assert(prev[i as int]@ == before[i as int]);
        }
        i += 1;
    }
}

/// Takes both search flags down on every row.
pub fn clear_search_results(json_items: &mut Vec<JsonItem>)
    ensures
        rows_view(final(json_items)@) == unflagged_rows(rows_view(old(json_items)@)),
{
    let ghost before = rows_view(json_items@);
    let mut i: usize = 0;
    while i < json_items.len()
        invariant
            i <= json_items.len(),
            json_items.len() == before.len(),
            forall|k: int| 0 <= k < i ==> #[trigger] json_items@[k]@ == without_search_flags(before[k]),
            forall|k: int| i <= k < json_items.len() ==> #[trigger] json_items@[k]@ == before[k],
        decreases json_items.len() - i,
    {
        let ghost prev = json_items@;
        json_items[i].name_is_search_result = false;
        json_items[i].value_is_search_result = false;
        proof {
            assert(prev[i as int]@ == before[i as int]);
        }
        i += 1;
    }
}

} // verus!
