use corro_pubsub::aliases::Aliases;
use corro_pubsub::text::{clone_names, col_name, col_names, decimal, has_name, join};
use corro_pubsub::values::{duplicate_values, SqliteValue};

#[test]
fn decimal_renders_without_leading_zeros() {
    assert_eq!(decimal(0), "0");
    assert_eq!(decimal(7), "7");
    assert_eq!(decimal(10), "10");
    assert_eq!(decimal(1203), "1203");
}

#[test]
fn col_name_is_prefix_and_index() {
    assert_eq!(col_name(0), "col_0");
    assert_eq!(col_name(12), "col_12");
}

#[test]
fn join_puts_separator_between_neighbours() {
    let parts = vec!["a".to_string(), "b".to_string(), "c".to_string()];
    assert_eq!(join(&parts, ","), "a,b,c");
    assert_eq!(join(&Vec::new(), ","), "");
    assert_eq!(join(&vec!["x".to_string()], " AND "), "x");
}

#[test]
fn col_names_count_from_zero() {
    assert_eq!(col_names(3), vec!["col_0".to_string(), "col_1".to_string(), "col_2".to_string()]);
    assert!(col_names(0).is_empty());
    assert_eq!(col_names(11)[10], "col_10");
}

#[test]
fn names_are_copied_and_found() {
    let list = vec!["a".to_string(), "b".to_string()];
    assert_eq!(clone_names(&list), list);
    assert!(has_name(&list, &"b".to_string()));
    assert!(!has_name(&list, &"c".to_string()));
}

#[test]
fn values_are_copied() {
    let list = vec![
        SqliteValue::Null,
        SqliteValue::Integer(-4),
        SqliteValue::Real(1.5f64.to_bits()),
        SqliteValue::Text("t".to_string()),
        SqliteValue::Blob(vec![0, 255]),
    ];
    assert_eq!(duplicate_values(&list), list);
}

#[test]
fn alias_keeps_its_place_when_set_again() {
    let mut aliases = Aliases::new();
    aliases.insert("a".to_string(), "t1".to_string());
    aliases.insert("b".to_string(), "t2".to_string());
    aliases.insert("a".to_string(), "t2".to_string());
    assert_eq!(aliases.len(), 2);
    assert_eq!(aliases.get(&"a".to_string()), Some(&"t2".to_string()));
    assert_eq!(aliases.resolve(&"b".to_string()), "t2");
    assert_eq!(aliases.resolve(&"t9".to_string()), "t9");
    assert_eq!(aliases.shown_name(&"t2".to_string()), "a");
    assert_eq!(aliases.shown_name(&"t1".to_string()), "t1");
}
