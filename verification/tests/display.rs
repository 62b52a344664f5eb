use jex::app_state::AppState;
use jex::json_item::{DisplaySpan, JsonItem, JsonValueType, SpanRole};
use jex::parse_json::parse_json_string;
use jex::search::update_search_results;

fn parts(spans: &[DisplaySpan]) -> Vec<(&str, SpanRole, bool)> {
    spans.iter().map(|span| (span.text.as_str(), span.role, span.highlighted)).collect()
}

const BAR: &str = "  \u{2502} ";
const MARK: &str = "\u{25b6} ";

#[test]
fn a_scalar_row_shows_number_indents_marker_name_and_value() {
    let rows = parse_json_string("{\"x\":{\"n\":12}}").unwrap();
    assert_eq!(
        parts(&rows[2].display_text(None)),
        vec![
            ("       2 ", SpanRole::LineNumber, false),
            (BAR, SpanRole::Indent, false),
            (BAR, SpanRole::Indent, false),
            ("  ", SpanRole::Plain, false),
            ("n: ", SpanRole::Name, false),
            ("12", SpanRole::Number, false),
        ]
    );
}

#[test]
fn the_selected_row_carries_the_marker() {
    let rows = parse_json_string("[true]").unwrap();
    assert_eq!(
        parts(&rows[1].display_text(Some(1))),
        vec![
            ("       1 ", SpanRole::LineNumber, false),
            (BAR, SpanRole::Indent, false),
            (MARK, SpanRole::Selection, false),
            ("", SpanRole::Name, false),
            ("true", SpanRole::Bool, false),
        ]
    );
    assert_eq!(parts(&rows[1].display_text(Some(0)))[2], ("  ", SpanRole::Plain, false));
}

#[test]
fn the_selection_level_marks_one_indent() {
    let rows = parse_json_string("{\"x\":[1,2,3]}").unwrap();
    let mut state = AppState::new(rows, String::new());
    state.set_list_height(10);
    state.select_next(2);
    let spans = state.items()[3].display_text(state.selection_index());
    assert_eq!(
        parts(&spans),
        vec![
            ("       3 ", SpanRole::LineNumber, false),
            (BAR, SpanRole::Indent, false),
            (BAR, SpanRole::SelectionLevel, false),
            ("  ", SpanRole::Plain, false),
            ("", SpanRole::Name, false),
            ("2", SpanRole::Number, false),
        ]
    );
}

#[test]
fn strings_are_quoted_and_null_is_written_out() {
    let rows = parse_json_string("{\"s\":\"hi\",\"z\":null,\"f\":false}").unwrap();
    assert_eq!(
        parts(&rows[1].display_text(None))[3..],
        [("s: ", SpanRole::Name, false), ("\"hi\"", SpanRole::String, false)]
    );
    assert_eq!(
        parts(&rows[2].display_text(None))[3..],
        [("z: ", SpanRole::Name, false), ("null", SpanRole::Null, false)]
    );
    assert_eq!(
        parts(&rows[3].display_text(None))[3..],
        [("f: ", SpanRole::Name, false), ("false", SpanRole::Bool, false)]
    );
}

#[test]
fn containers_show_their_brackets() {
    let rows = parse_json_string("{\"a\":[1],\"o\":{}}").unwrap();
    assert_eq!(
        parts(&rows[0].display_text(None)),
        vec![
            ("       0 ", SpanRole::LineNumber, false),
            ("  ", SpanRole::Plain, false),
            ("", SpanRole::Name, false),
            ("{", SpanRole::Plain, false),
        ]
    );
    assert_eq!(
        parts(&rows[1].display_text(None))[3..],
        [("a: ", SpanRole::Name, false), ("[", SpanRole::Plain, false)]
    );
    assert_eq!(parts(&rows[3].display_text(None))[3..], [("]", SpanRole::Plain, false)]);
    assert_eq!(
        parts(&rows[4].display_text(None))[3..],
        [("o: ", SpanRole::Name, false), ("{", SpanRole::Plain, false)]
    );
    assert_eq!(parts(&rows[5].display_text(None))[3..], [("}", SpanRole::Plain, false)]);
    assert_eq!(parts(&rows[6].display_text(None))[2..], [("}", SpanRole::Plain, false)]);
}

#[test]
fn collapsed_containers_show_the_number_of_their_children() {
    let mut rows = parse_json_string("{\"a\":[1,2,3],\"o\":{\"k\":1}}").unwrap();
    rows[1].collapsed = true;
    rows[6].collapsed = true;
    assert_eq!(
        parts(&rows[1].display_text(None))[3..],
        [
            ("a: ", SpanRole::Name, false),
            ("[", SpanRole::Plain, false),
            ("3 items", SpanRole::ItemCount, false),
            ("]", SpanRole::Plain, false),
        ]
    );
    assert_eq!(
        parts(&rows[6].display_text(None))[3..],
        [
            ("o: ", SpanRole::Name, false),
            ("{", SpanRole::Plain, false),
            ("1 items", SpanRole::ItemCount, false),
            ("}", SpanRole::Plain, false),
        ]
    );
}

#[test]
fn search_results_are_highlighted() {
    let mut rows = parse_json_string("{\"id\":42,\"other\":\"id\"}").unwrap();
    update_search_results(&mut rows, "id");
    assert_eq!(
        parts(&rows[1].display_text(None))[3..],
        [("id: ", SpanRole::Name, true), ("42", SpanRole::Number, false)]
    );
    update_search_results(&mut rows, "=id");
    assert_eq!(
        parts(&rows[2].display_text(None))[3..],
        [("other: ", SpanRole::Name, false), ("\"id\"", SpanRole::String, true)]
    );
    assert_eq!(
        parts(&rows[1].display_text(None))[3..],
        [("id: ", SpanRole::Name, false), ("42", SpanRole::Number, false)]
    );
}

#[test]
fn long_row_numbers_are_not_cut() {
    let mut row = JsonItem::new(None, 0, JsonValueType::Null, String::new(), 0);
    row.line_number = 123_456_789;
    assert_eq!(parts(&row.display_text(None))[0], ("123456789 ", SpanRole::LineNumber, false));
    row.line_number = 12_345_678;
    assert_eq!(parts(&row.display_text(None))[0], ("12345678 ", SpanRole::LineNumber, false));
    row.line_number = 1_234_567;
    assert_eq!(parts(&row.display_text(None))[0], (" 1234567 ", SpanRole::LineNumber, false));
}
