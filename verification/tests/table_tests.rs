use symbolic_regression::cli::default_args;
use symbolic_regression::table::{column_index, infer_features, parse_table};

fn strs(items: &[&str]) -> Vec<String> {
    items.iter().map(|s| s.to_string()).collect()
}

#[test]
fn tables_read_lines_like_str_lines() {
    let f = parse_table("a, b ,target\r\n1,2,3\n\n  \n4,5,6\n").unwrap();
    assert_eq!(f.headers, strs(&["a", "b", "target"]));
    assert_eq!(f.rows, vec![strs(&["1", "2", "3"]), strs(&["4", "5", "6"])]);
    assert!(parse_table("").is_none());
    let f = parse_table("x\n").unwrap();
    assert_eq!(f.headers, strs(&["x"]));
    assert!(f.rows.is_empty());
    let f = parse_table("x\n1\r").unwrap();
    assert_eq!(f.rows, vec![strs(&["1"])]);
}

#[test]
fn the_last_column_of_a_name_wins() {
    let h = strs(&["a", "b", "a"]);
    assert_eq!(column_index(&h, "a"), Some(2));
    assert_eq!(column_index(&h, "b"), Some(1));
    assert_eq!(column_index(&h, "c"), None);
}

#[test]
fn features_are_the_columns_left_over() {
    let h = strs(&["x1", "target", "w", "x2", "seq", "lo", "hi"]);
    let mut a = default_args();
    a.weight = Some("w".into());
    a.sequence_id = Some("seq".into());
    a.target_low = Some("lo".into());
    a.target_high = Some("hi".into());
    assert_eq!(infer_features(&h, &a), strs(&["x1", "x2"]));
    assert_eq!(infer_features(&h, &default_args()), strs(&["x1", "w", "x2", "seq", "lo", "hi"]));
}
