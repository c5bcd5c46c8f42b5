use symbolic_regression::text::{
    chars_of, decimal_chars, is_float_literal, parse_u64, parse_usize, split_chars, string_from, trim_chars,
};

fn c(s: &str) -> Vec<char> {
    s.chars().collect()
}

#[test]
fn trim_removes_unicode_whitespace_on_both_sides() {
    let t = trim_chars(&c(" \t\u{3000}a b\u{a0}\n"));
    assert_eq!(t, c("a b"));
    assert_eq!(trim_chars(&c("   ")), Vec::<char>::new());
    assert_eq!(trim_chars(&c("")), Vec::<char>::new());
}

#[test]
fn split_keeps_empty_pieces_like_str_split() {
    let pieces = split_chars(&c(",a,,b,"), ',');
    let expected: Vec<Vec<char>> = ",a,,b,".split(',').map(|p| p.chars().collect()).collect();
    assert_eq!(pieces, expected);
    assert_eq!(split_chars(&c(""), ',').len(), 1);
}

#[test]
fn unsigned_parsing_follows_from_str() {
    for s in ["0", "+12", "", "+", "-1", "12a", "007", "18446744073709551615", "18446744073709551616"] {
        assert_eq!(parse_u64(&c(s)), s.parse::<u64>().ok(), "input {s:?}");
        assert_eq!(parse_usize(&c(s)), s.parse::<usize>().ok(), "input {s:?}");
    }
}

#[test]
fn decimal_digits_read_back() {
    for n in [0u64, 7, 10, 99, 1009, u64::MAX] {
        let d = decimal_chars(n);
        assert_eq!(string_from(&d), n.to_string());
        assert_eq!(parse_u64(&d), Some(n));
    }
}

#[test]
fn chars_round_trip_through_strings() {
    let s = "añb\u{1F600}";
    assert_eq!(string_from(&chars_of(s)), s);
}

#[test]
fn real_number_texts_are_those_that_f64_reads() {
    let cases = [
        "0", "0.0", "1.", ".5", ".", "", "+", "-", "e5", "1e5", "1E+5", "1e-", "1e", "1.5e3",
        "-1.5e-3", "+.5", "1..2", "1.2.3", "inf", "-INF", "Infinity", "+infinity", "NaN", "-nan",
        "infin", "nan1", " 1", "1 ", "1_0", "0x10", "1e5.0", "١", "12345678901234567890e400",
        "1e+-5", "--1", "+-1",
    ];
    for s in cases {
        let c: Vec<char> = s.chars().collect();
        assert_eq!(is_float_literal(&c), s.parse::<f64>().is_ok(), "text {s:?}");
    }
}
