use sqlcodegen::error::{CompileError, Construct, Stage, Subject};
use sqlcodegen::text::{contains_string, decimal_string, extend_cloned, join_with, push_distinct};

fn strings(items: &[&str]) -> Vec<String> {
    items.iter().map(|s| s.to_string()).collect()
}

#[test]
fn numerals_are_decimal_without_leading_zeros() {
    assert_eq!(decimal_string(0), "0");
    assert_eq!(decimal_string(7), "7");
    assert_eq!(decimal_string(9), "9");
    assert_eq!(decimal_string(10), "10");
    assert_eq!(decimal_string(42), "42");
    assert_eq!(decimal_string(100), "100");
    assert_eq!(decimal_string(1234567890), "1234567890");
    assert_eq!(decimal_string(usize::MAX), usize::MAX.to_string());
}

#[test]
fn joining_puts_the_separator_between_neighbours() {
    assert_eq!(join_with(&vec![], ", "), "");
    assert_eq!(join_with(&strings(&["a"]), ", "), "a");
    assert_eq!(join_with(&strings(&["a", "b", "c"]), ", "), "a, b, c");
    assert_eq!(join_with(&strings(&["", ""]), "-"), "-");
    assert_eq!(join_with(&strings(&["x", "y"]), ""), "xy");
}

#[test]
fn membership_compares_contents() {
    let items = strings(&["a", "bc", ""]);
    assert!(contains_string(&items, &"bc".to_string()));
    assert!(contains_string(&items, &String::new()));
    assert!(!contains_string(&items, &"b".to_string()));
    assert!(!contains_string(&vec![], &"a".to_string()));
}

#[test]
fn pushing_distinct_skips_what_is_present() {
    let mut items = strings(&["a", "b"]);
    push_distinct(&mut items, "a".to_string());
    assert_eq!(items, strings(&["a", "b"]));
    push_distinct(&mut items, "c".to_string());
    assert_eq!(items, strings(&["a", "b", "c"]));
}

#[test]
fn extending_appends_copies_in_order() {
    let mut items = strings(&["a"]);
    extend_cloned(&mut items, &strings(&["b", "a"]));
    assert_eq!(items, strings(&["a", "b", "a"]));
    extend_cloned(&mut items, &vec![]);
    assert_eq!(items, strings(&["a", "b", "a"]));
}

#[test]
fn messages_name_what_failed() {
    let error = CompileError::UnsupportedConstruct {
        construct: Construct::JoinOperator,
        text: "CROSS JOIN".to_string(),
    };
    assert_eq!(error.message(), "unsupported join operator: CROSS JOIN");
    let error = CompileError::Resolution { construct: Construct::FromClause };
    assert_eq!(error.message(), "no identifier in from clause");
    let error = CompileError::SchemaResolution { subject: Subject::Source, name: "ta.csv".to_string() };
    assert_eq!(error.message(), "no readable header in source ta.csv");
    let error = CompileError::SchemaResolution { subject: Subject::Column, name: "ca".to_string() };
    assert_eq!(error.message(), "no schema entry for column ca");
    let error = CompileError::CodeGenInvariant { column: "cb".to_string(), stage: Stage::Filter };
    assert_eq!(error.message(), "no type for column cb in the filter stage");
    let error = CompileError::CodeGenInvariant { column: "cb".to_string(), stage: Stage::Projection };
    assert_eq!(error.message(), "no type for column cb in the projection stage");
    let error = CompileError::CodeGenInvariant { column: "cb".to_string(), stage: Stage::Sort };
    assert_eq!(error.message(), "no type for column cb in the sort stage");
}

#[test]
fn every_construct_has_its_words() {
    let cases = vec![
        (Construct::Statement, "statement"),
        (Construct::QueryBody, "query body"),
        (Construct::SelectItem, "select item"),
        (Construct::FromClause, "from clause"),
        (Construct::Relation, "relation"),
        (Construct::ObjectName, "object name"),
        (Construct::JoinOperator, "join operator"),
        (Construct::JoinConstraint, "join constraint"),
        (Construct::Expression, "expression"),
        (Construct::Value, "value"),
        (Construct::Operator, "operator"),
        (Construct::Limit, "limit"),
    ];
    for (construct, words) in cases {
        let error = CompileError::Resolution { construct };
        assert_eq!(error.message(), format!("no identifier in {}", words));
    }
}
