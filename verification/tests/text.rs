use graviton_extensions::text::{list_string, not_found_message, pair_string, str_eq};

#[test]
fn str_eq_agrees_with_equality() {
    assert!(str_eq("", ""));
    assert!(str_eq("mock_echo", "mock_echo"));
    assert!(str_eq("é✓", "é✓"));
    assert!(!str_eq("mock_echo", "mock_echp"));
    assert!(!str_eq("mock_echo", "mock_ech"));
    assert!(!str_eq("", "a"));
    assert!(!str_eq("é", "e"));
}

#[test]
fn pair_string_brackets_two_texts() {
    assert_eq!(pair_string("\"a\"", "\"B c\""), "(\"a\", \"B c\")");
    assert_eq!(pair_string("", ""), "(, )");
}

#[test]
fn list_string_joins_with_comma_and_space() {
    assert_eq!(list_string(&vec![]), "[]");
    assert_eq!(list_string(&vec!["x".to_string()]), "[x]");
    assert_eq!(
        list_string(&vec!["x".to_string(), "".to_string(), "z".to_string()]),
        "[x, , z]"
    );
}

#[test]
fn not_found_message_wraps_id_and_roster() {
    assert_eq!(
        not_found_message("nonexistent", "[]"),
        "Extension 'nonexistent' not found. Available extensions: []. Try using 'mock_echo' for testing."
    );
    assert_eq!(
        not_found_message("", "R"),
        "Extension '' not found. Available extensions: R. Try using 'mock_echo' for testing."
    );
}
