use symbolic_regression::json_out::{json_option_string, json_string, json_string_array};

#[test]
fn json_string_escapes_quotes_backslashes_and_line_breaks() {
    assert_eq!(json_string("a\"b\\c\nd\re\tf"), "\"a\\\"b\\\\c\\nd\\re\\tf\"");
    assert_eq!(json_string(""), "\"\"");
    assert_eq!(json_string("é"), "\"é\"");
}

#[test]
fn json_option_string_writes_null_for_none() {
    assert_eq!(json_option_string(None), "null");
    assert_eq!(json_option_string(Some("x")), "\"x\"");
}

#[test]
fn json_string_array_separates_with_comma_space() {
    assert_eq!(json_string_array(&[]), "[]");
    assert_eq!(json_string_array(&["a".to_string()]), "[\"a\"]");
    assert_eq!(
        json_string_array(&["a".to_string(), "b\"".to_string()]),
        "[\"a\", \"b\\\"\"]"
    );
}
