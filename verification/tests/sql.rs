use corro_pubsub::ident::{id_text, qualified_table, query_table};
use corro_pubsub::sql::{assignments, is_clauses};
use corro_pubsub::text::strip_semicolon;

#[test]
fn id_text_is_32_hex_digits() {
    assert_eq!(id_text(0), "00000000000000000000000000000000");
    assert_eq!(id_text(0x0123456789abcdef_fedcba9876543210), "0123456789abcdeffedcba9876543210");
    assert_eq!(id_text(u128::MAX), "ffffffffffffffffffffffffffffffff");
    assert_eq!(id_text(255), "000000000000000000000000000000ff");
}

#[test]
fn shadow_table_names_hold_the_id() {
    assert_eq!(query_table(0xab), "query_000000000000000000000000000000ab");
    assert_eq!(qualified_table(0xab), "watches.query_000000000000000000000000000000ab");
}

#[test]
fn is_clauses_compare_with_a_parameter() {
    let keys = vec!["a".to_string(), "b".to_string()];
    assert_eq!(is_clauses(&keys), vec!["a IS ?".to_string(), "b IS ?".to_string()]);
}

#[test]
fn assignments_take_the_excluded_value() {
    assert_eq!(
        assignments(2),
        vec!["col_0 = excluded.col_0".to_string(), "col_1 = excluded.col_1".to_string()]
    );
    assert!(assignments(0).is_empty());
}

#[test]
fn strip_semicolon_drops_only_a_final_semicolon() {
    assert_eq!(strip_semicolon("SELECT 1;".to_string()), "SELECT 1");
    assert_eq!(strip_semicolon("SELECT 1".to_string()), "SELECT 1");
    assert_eq!(strip_semicolon("SELECT ';'".to_string()), "SELECT ';'");
    assert_eq!(strip_semicolon(String::new()), "");
    assert_eq!(strip_semicolon("é;".to_string()), "é");
}
