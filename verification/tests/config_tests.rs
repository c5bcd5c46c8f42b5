use symbolic_regression::config::{ConfigError, ConfigValue, JsonParser};
use symbolic_regression::json_out::json_string;

fn parse(text: &str) -> Result<Vec<(String, ConfigValue)>, ConfigError> {
    JsonParser::new(text).parse_object()
}

#[test]
fn reads_every_kind_of_value_in_order() {
    let text = r#" { "train": "data.csv", "maxsize": 12, "parsimony": -1.5e-3,
        "interval-targets": true, "progress": false, "features": ["a", "b" ,] } "#;
    let entries = parse(text).unwrap();
    assert_eq!(entries.len(), 6);
    assert_eq!(entries[0].0, "train");
    assert!(matches!(&entries[0].1, ConfigValue::String(s) if s == "data.csv"));
    assert!(matches!(&entries[1].1, ConfigValue::Number(s) if s == "12"));
    assert!(matches!(&entries[2].1, ConfigValue::Number(s) if s == "-1.5e-3"));
    assert!(matches!(&entries[3].1, ConfigValue::Bool(true)));
    assert!(matches!(&entries[4].1, ConfigValue::Bool(false)));
    match &entries[5].1 {
        ConfigValue::StringArray(v) => assert_eq!(v, &vec!["a".to_string(), "b".to_string()]),
        other => panic!("unexpected {other:?}"),
    }
}

#[test]
fn empty_object_and_empty_array() {
    assert_eq!(parse("{}").unwrap().len(), 0);
    let e = parse("{\"features\": []}").unwrap();
    assert!(matches!(&e[0].1, ConfigValue::StringArray(v) if v.is_empty()));
}

#[test]
fn escapes_are_decoded() {
    let e = parse(r#"{"k": "a\"b\\c\/d\ne\tf\rg\bh\fi"}"#).unwrap();
    assert!(matches!(&e[0].1, ConfigValue::String(s) if s == "a\"b\\c/d\ne\tf\rg\u{8}h\u{c}i"));
}

#[test]
fn refusals_name_their_reason() {
    assert_eq!(parse("").unwrap_err(), ConfigError::ExpectedByte(b'{'));
    assert_eq!(parse("[]").unwrap_err(), ConfigError::ExpectedByte(b'{'));
    assert_eq!(parse("{} x").unwrap_err(), ConfigError::TrailingContent);
    assert_eq!(parse("{\"a\" 1}").unwrap_err(), ConfigError::ExpectedByte(b':'));
    assert_eq!(parse("{\"a\": 1 \"b\": 2}").unwrap_err(), ConfigError::ExpectedByte(b','));
    assert_eq!(parse("{\"a\": \"x\\u0041\"}").unwrap_err(), ConfigError::UnicodeEscape);
    assert_eq!(parse("{\"a\": \"x\\q\"}").unwrap_err(), ConfigError::BadEscape(b'q'));
    assert_eq!(parse("{\"a\": \"x\\").unwrap_err(), ConfigError::UnterminatedEscape);
    assert_eq!(parse("{\"a\": \"x").unwrap_err(), ConfigError::UnterminatedString);
    assert_eq!(parse("{\"a\": \"x\ny\"}").unwrap_err(), ConfigError::ControlCharacter);
    assert_eq!(parse("{\"a\": null}").unwrap_err(), ConfigError::UnsupportedValue);
    assert_eq!(parse("{\"a\": tru}").unwrap_err(), ConfigError::ExpectedLiteral(true));
    assert_eq!(parse("{\"a\": fals}").unwrap_err(), ConfigError::ExpectedLiteral(false));
    assert_eq!(parse("{\"a\": [1]}").unwrap_err(), ConfigError::ExpectedByte(b'"'));
}

#[test]
fn non_ascii_bytes_read_as_single_characters() {
    // Each byte of the text stands for the character with the same number.
    let e = parse("{\"k\": \"é\"}").unwrap();
    assert!(matches!(&e[0].1, ConfigValue::String(s) if s == "\u{c3}\u{a9}"));
}

#[test]
fn quoted_report_strings_read_back_from_a_configuration() {
    for s in ["plain", "with \"quotes\"", "back\\slash", "line\nbreak\ttab\rcr", ""] {
        let text = format!("{{\"k\": {}}}", json_string(s));
        let e = parse(&text).unwrap();
        assert!(matches!(&e[0].1, ConfigValue::String(v) if v == s), "input {s:?}");
    }
}

#[test]
fn low_level_cursor_operations() {
    let mut p = JsonParser::new("  ab");
    assert_eq!(p.peek_byte(), Some(b' '));
    p.skip_ws();
    assert_eq!(p.pos, 2);
    assert!(p.consume_byte(b'a'));
    assert!(!p.consume_byte(b'a'));
    assert_eq!(p.next_byte(), Some(b'b'));
    assert!(p.is_done());
    assert_eq!(p.next_byte(), None);
}

#[test]
fn a_repeated_key_keeps_its_place_and_takes_the_later_value() {
    let e = parse(r#"{"seed": "x", "train": "a.csv", "seed": 5}"#).unwrap();
    assert_eq!(e.len(), 2);
    assert_eq!(e[0].0, "seed");
    assert!(matches!(&e[0].1, ConfigValue::Number(s) if s == "5"));
    assert_eq!(e[1].0, "train");
}

#[test]
fn an_object_can_start_after_the_cursor_and_is_read_to_the_end() {
    let text = "xx {\"a\": \"x\", \"n\": -1.5e3, \"b\": false, \"l\": [\"p\", \"q\"]} ";
    let mut p = JsonParser::new(text);
    p.pos = 2;
    let e = p.parse_object().unwrap();
    assert!(p.is_done());
    assert_eq!(e.len(), 4);
    assert!(matches!(&e[0].1, ConfigValue::String(s) if s == "x"));
    assert!(matches!(&e[1].1, ConfigValue::Number(s) if s == "-1.5e3"));
    assert!(matches!(&e[2].1, ConfigValue::Bool(false)));
    assert!(matches!(&e[3].1, ConfigValue::StringArray(v) if v == &vec!["p".to_string(), "q".to_string()]));
}
