use jex::json_item::JsonItem;
use jex::parse_json::parse_json_string;
use jex::search::{
    not_empty, search_in_name, search_in_value, split_name_part, split_query,
    update_search_results,
};

fn flags(rows: &[JsonItem]) -> Vec<(bool, bool)> {
    rows.iter().map(|row| (row.name_is_search_result, row.value_is_search_result)).collect()
}

fn matches_of(json: &str, query: &str) -> Vec<usize> {
    let mut rows = parse_json_string(json).unwrap();
    update_search_results(&mut rows, query);
    rows.iter()
        .filter(|row| row.name_is_search_result || row.value_is_search_result)
        .map(|row| row.line_number)
        .collect()
}

const TWO_IDS: &str = "{\"a\": {\"id\": 42}, \"b\": {\"id\": 7}}";

#[test]
fn name_and_value_must_both_match() {
    let mut rows = parse_json_string(TWO_IDS).unwrap();
    update_search_results(&mut rows, "id=42");
    let none = (false, false);
    assert_eq!(flags(&rows), vec![none, none, (true, true), none, none, none, none, none]);
}

#[test]
fn star_matches_every_row_with_a_value() {
    assert_eq!(matches_of(TWO_IDS, "id=*"), vec![2, 5]);
    assert_eq!(matches_of(TWO_IDS, "=*"), vec![2, 5]);
}

#[test]
fn empty_value_part_leaves_the_name_to_decide() {
    let mut rows = parse_json_string(TWO_IDS).unwrap();
    update_search_results(&mut rows, "id=");
    assert!(rows.iter().all(|row| !row.value_is_search_result));
    let named: Vec<usize> =
        rows.iter().filter(|row| row.name_is_search_result).map(|row| row.line_number).collect();
    assert_eq!(named, vec![2, 5]);
}

#[test]
fn name_alone_sets_the_name_flag_only() {
    let mut rows = parse_json_string(TWO_IDS).unwrap();
    update_search_results(&mut rows, "id");
    assert_eq!(flags(&rows)[2], (true, false));
    assert_eq!(flags(&rows)[5], (true, false));
    assert_eq!(matches_of(TWO_IDS, "id"), vec![2, 5]);
}

#[test]
fn value_alone_sets_the_value_flag_only() {
    let mut rows = parse_json_string(TWO_IDS).unwrap();
    update_search_results(&mut rows, "=7");
    assert_eq!(flags(&rows)[5], (false, true));
    assert_eq!(matches_of(TWO_IDS, "=7"), vec![5]);
}

#[test]
fn empty_query_matches_nothing() {
    assert_eq!(matches_of(TWO_IDS, ""), Vec::<usize>::new());
    assert_eq!(matches_of(TWO_IDS, "="), Vec::<usize>::new());
}

#[test]
fn search_ignores_letter_case() {
    assert_eq!(matches_of(TWO_IDS, "ID"), vec![2, 5]);
    assert_eq!(matches_of("{\"Name\":\"Alice\",\"other\":\"BOB\"}", "NAME=aLiCe"), vec![1]);
    assert_eq!(matches_of("{\"Name\":\"Alice\",\"other\":\"BOB\"}", "=bob"), vec![2]);
}

#[test]
fn scope_narrows_a_name_to_its_breadcrumbs() {
    assert_eq!(matches_of(TWO_IDS, "a.id"), vec![2]);
    assert_eq!(matches_of(TWO_IDS, "b.id"), vec![5]);
    assert_eq!(matches_of(TWO_IDS, "B.ID"), vec![5]);
    assert_eq!(matches_of(TWO_IDS, ".id"), vec![2, 5]);
    assert_eq!(matches_of(TWO_IDS, "a."), Vec::<usize>::new());
    assert_eq!(matches_of(TWO_IDS, "c.id"), Vec::<usize>::new());
}

#[test]
fn scope_is_split_at_the_last_dot() {
    assert_eq!(split_name_part("a.b.c"), ("a.b", "c"));
    assert_eq!(split_name_part("name"), ("", "name"));
    assert_eq!(split_name_part("a."), ("a", ""));
    assert_eq!(split_name_part(".x"), ("", "x"));
    assert_eq!(split_name_part(""), ("", ""));
}

#[test]
fn query_is_split_at_the_first_equals_sign() {
    assert_eq!(split_query("id=42"), ("id", Some("42")));
    assert_eq!(split_query("id"), ("id", None));
    assert_eq!(split_query("id="), ("id", Some("")));
    assert_eq!(split_query("=v"), ("", Some("v")));
    assert_eq!(split_query("a=b=c"), ("a", Some("b=c")));
    assert_eq!(split_query(""), ("", None));
    assert_eq!(split_query("\u{e9}t\u{e9}=\u{fc}"), ("\u{e9}t\u{e9}", Some("\u{fc}")));
}

#[test]
fn value_part_may_hold_an_equals_sign() {
    assert_eq!(matches_of("{\"f\":\"x=y\",\"g\":\"xy\"}", "f=x=y"), vec![1]);
    assert_eq!(matches_of("{\"f\":\"x=y\",\"g\":\"xy\"}", "=x=y"), vec![1]);
}

#[test]
fn containers_never_match_a_value() {
    let json = "{\"list\":[1],\"obj\":{\"n\":null}}";
    assert_eq!(matches_of(json, "=*"), vec![2]);
    assert_eq!(matches_of(json, "list=*"), Vec::<usize>::new());
    assert_eq!(matches_of(json, "list"), vec![1]);
}

#[test]
fn rows_without_a_name_never_match_a_name() {
    assert_eq!(matches_of("[\"id\",{\"id\":\"x\"}]", "id"), vec![3]);
}

#[test]
fn search_in_name_needs_a_name_and_a_wanted_name() {
    let name = Some("UserId".to_string());
    assert!(search_in_name(&name, "users \u{25b6} [0] \u{25b6} UserId", ("", "id")));
    assert!(search_in_name(&name, "users \u{25b6} [0] \u{25b6} UserId", ("USERS", "user")));
    assert!(!search_in_name(&name, "users \u{25b6} [0] \u{25b6} UserId", ("groups", "id")));
    assert!(!search_in_name(&name, "users", ("", "")));
    assert!(!search_in_name(&name, "users", ("users", "")));
    assert!(!search_in_name(&None, "users", ("", "id")));
    assert!(!search_in_name(&name, "users", ("", "name")));
}

#[test]
fn search_in_value_follows_the_value_part() {
    let value = "Hello World".to_string();
    let empty = String::new();
    assert!(!search_in_value(&value, None));
    assert!(!search_in_value(&value, Some("")));
    assert!(search_in_value(&value, Some("*")));
    assert!(!search_in_value(&empty, Some("*")));
    assert!(search_in_value(&value, Some("WORLD")));
    assert!(search_in_value(&value, Some("o w")));
    assert!(!search_in_value(&value, Some("worlds")));
    assert!(!search_in_value(&empty, Some("x")));
    assert!(!search_in_value(&value, Some("**")));
    assert!(search_in_value(&"a*b".to_string(), Some("*b")));
}

#[test]
fn not_empty_wants_a_text_with_characters() {
    assert!(!not_empty(None));
    assert!(!not_empty(Some("")));
    assert!(not_empty(Some(" ")));
    assert!(not_empty(Some("x")));
}

#[test]
fn a_new_query_replaces_the_old_flags() {
    let mut rows = parse_json_string(TWO_IDS).unwrap();
    update_search_results(&mut rows, "id");
    update_search_results(&mut rows, "=42");
    let none = (false, false);
    assert_eq!(flags(&rows), vec![none, none, (false, true), none, none, none, none, none]);
}
