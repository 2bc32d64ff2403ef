use moma::decimal::{format_i64, parse_i64};

#[test]
fn format_matches_to_string() {
    let values: Vec<i64> = vec![0, 1, 9, 10, 42, 99, 100, 12345, -1, -9, -10, -42, -100, -98765,
        i64::MAX, i64::MIN, i64::MAX - 1, i64::MIN + 1];
    for v in values {
        assert_eq!(format_i64(v), v.to_string());
    }
}

#[test]
fn format_exact_values() {
    assert_eq!(format_i64(0), "0");
    assert_eq!(format_i64(7), "7");
    assert_eq!(format_i64(-305), "-305");
    assert_eq!(format_i64(i64::MIN), "-9223372036854775808");
    assert_eq!(format_i64(i64::MAX), "9223372036854775807");
}

#[test]
fn parse_accepts_what_std_accepts() {
    let inputs = vec!["0", "1", "+1", "-1", "007", "-007", "+0", "-0", "123456789",
        "9223372036854775807", "-9223372036854775808", "00000000000000000000000012"];
    for s in inputs {
        assert_eq!(parse_i64(s), s.parse::<i64>().ok(), "input {:?}", s);
        assert!(parse_i64(s).is_some());
    }
}

#[test]
fn parse_refuses_what_std_refuses() {
    let inputs = vec!["", "-", "+", "+-1", "--1", " 1", "1 ", "1a", "a1", "1.0", "0x10",
        "9223372036854775808", "-9223372036854775809", "99999999999999999999", "１", "1_000"];
    for s in inputs {
        assert_eq!(parse_i64(s), s.parse::<i64>().ok(), "input {:?}", s);
        assert!(parse_i64(s).is_none());
    }
}

#[test]
fn parse_exact_values() {
    assert_eq!(parse_i64("42"), Some(42));
    assert_eq!(parse_i64("-42"), Some(-42));
    assert_eq!(parse_i64("+42"), Some(42));
    assert_eq!(parse_i64("-9223372036854775808"), Some(i64::MIN));
    assert_eq!(parse_i64("9223372036854775807"), Some(i64::MAX));
    assert_eq!(parse_i64("9223372036854775808"), None);
}

#[test]
fn id_text_round_trips() {
    let values: Vec<i64> = vec![0, 1, -1, 17, 1000, -1000, i64::MAX, i64::MIN, 4611686018427387904];
    for v in values {
        assert_eq!(parse_i64(&format_i64(v)), Some(v));
    }
}
