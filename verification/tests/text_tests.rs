use xfoilrs::text::decimal_string;
use xfoilrs::text::is_number_token;
use xfoilrs::text::split_tokens;

#[test]
fn splits_on_runs_of_whitespace() {
    assert_eq!(split_tokens("4.0 0.51"), vec!["4.0".to_string(), "0.51".to_string()]);
    assert_eq!(split_tokens("  a \t bb\r cc  "), vec!["a".to_string(), "bb".to_string(),
        "cc".to_string()]);
    assert_eq!(split_tokens("one"), vec!["one".to_string()]);
}

#[test]
fn splitting_nothing_yields_nothing() {
    assert!(split_tokens("").is_empty());
    assert!(split_tokens("   \t ").is_empty());
}

#[test]
fn accepts_decimal_float_text() {
    for t in ["0", "4", "4.0", "-0.02", "+.5", "1.", ".5", "100000", "-1.2e-3", "1e5", "1E+10",
        "3.25E-2"] {
        assert!(is_number_token(t), "rejected {:?}", t);
    }
}

#[test]
fn rejects_non_numeric_text() {
    for t in ["", ".", "-", "+", "e5", "1e", "1e+", "abc", "1.2.3", "4 ", " 4", "--1", "1-",
        "NaN", "inf"] {
        assert!(!is_number_token(t), "accepted {:?}", t);
    }
}

#[test]
fn renders_decimal_integers() {
    assert_eq!(decimal_string(0), "0");
    assert_eq!(decimal_string(7), "7");
    assert_eq!(decimal_string(100000), "100000");
    assert_eq!(decimal_string(18446744073709551615), "18446744073709551615");
}
