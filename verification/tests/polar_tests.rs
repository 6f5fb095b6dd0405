use xfoilrs::Polar;
use xfoilrs::XfoilError;
use xfoilrs::polar::column_names;
use xfoilrs::polar::parse_polar;

fn header() -> Vec<String> {
    (0..13).map(|i| format!("header line {}", i)).collect()
}

fn lines(header_count: usize, rows: &[&str]) -> Vec<String> {
    let mut v: Vec<String> = (0..header_count).map(|i| format!("header line {}", i)).collect();
    v.extend(rows.iter().map(|r| r.to_string()));
    v
}

#[test]
fn two_rows_fill_every_column() {
    let mut input = header();
    input.push("4.0 0.51 0.012 0.0009 -0.02 0.55 0.40".to_string());
    input.push("5.0 0.60 0.013 0.0010 -0.03 0.50 0.35".to_string());
    let polar = parse_polar(&input).unwrap();
    assert_eq!(polar.num_columns(), 7);
    for j in 0..7 {
        assert_eq!(polar.column(j).len(), 2);
    }
    assert_eq!(polar.column(0), &vec!["4.0".to_string(), "5.0".to_string()]);
    assert_eq!(polar.column(1), &vec!["0.51".to_string(), "0.60".to_string()]);
    assert_eq!(polar.column(6), &vec!["0.40".to_string(), "0.35".to_string()]);
    let cl = polar.column_by_name("CL").unwrap();
    assert_eq!(cl, &vec!["0.51".to_string(), "0.60".to_string()]);
    let values: Vec<f64> = cl.iter().map(|t| t.parse::<f64>().unwrap()).collect();
    assert_eq!(values, vec![0.51, 0.60]);
}

#[test]
fn row_count_matches_column_lengths() {
    let rows = [
        "0.0 0.1 0.2 0.3 0.4 0.5 0.6",
        "1.0 1.1 1.2 1.3 1.4 1.5 1.6",
        "2.0 2.1 2.2 2.3 2.4 2.5 2.6",
    ];
    let input = lines(13, &rows);
    let polar = parse_polar(&input).unwrap();
    for j in 0..7 {
        assert_eq!(polar.column(j).len(), 3);
    }
    assert_eq!(polar.column(3), &vec!["0.3".to_string(), "1.3".to_string(), "2.3".to_string()]);
}

#[test]
fn report_shorter_than_header_has_no_rows() {
    for n in [0usize, 1, 5, 12, 13] {
        let input = lines(n, &[]);
        let polar = parse_polar(&input).unwrap();
        assert_eq!(polar.num_columns(), 7);
        for j in 0..7 {
            assert!(polar.column(j).is_empty());
        }
    }
}

#[test]
fn missing_header_swallows_leading_rows() {
    let rows: Vec<String> = (0..15).map(|i| format!("{}.0 0.5 0.01 0.001 -0.02 0.5 0.4", i)).collect();
    let polar = parse_polar(&rows).unwrap();
    for j in 0..7 {
        assert_eq!(polar.column(j).len(), 2);
    }
    assert_eq!(polar.column(0), &vec!["13.0".to_string(), "14.0".to_string()]);
}

#[test]
fn extra_tokens_are_dropped() {
    let input = lines(13, &["1 2 3 4 5 6 7 8 9"]);
    let polar = parse_polar(&input).unwrap();
    for j in 0..7 {
        assert_eq!(polar.column(j).len(), 1);
    }
    assert_eq!(polar.column(6), &vec!["7".to_string()]);
}

#[test]
fn short_row_contributes_fewer_values() {
    let input = lines(13, &["1 2 3 4 5 6 7", "10 20 30"]);
    let polar = parse_polar(&input).unwrap();
    for j in 0..3 {
        assert_eq!(polar.column(j).len(), 2);
    }
    for j in 3..7 {
        assert_eq!(polar.column(j).len(), 1);
    }
    assert_eq!(polar.column(2), &vec!["3".to_string(), "30".to_string()]);
}

#[test]
fn non_numeric_token_is_a_parse_error() {
    let input = lines(13, &["1.0 2.0 3.0 4.0 5.0 6.0 7.0", "8.0 oops 9.0"]);
    let err = parse_polar(&input).unwrap_err();
    match err {
        XfoilError::ParseError { line, token } => {
            assert_eq!(line, 14);
            assert_eq!(token, "oops");
        }
        other => panic!("unexpected error: {:?}", other),
    }
}

#[test]
fn empty_polar_has_no_columns() {
    let polar = Polar::empty();
    assert_eq!(polar.num_columns(), 0);
    assert!(polar.column_by_name("CL").is_none());
}

#[test]
fn unknown_column_name_finds_nothing() {
    let input = lines(13, &["1 2 3 4 5 6 7"]);
    let polar = parse_polar(&input).unwrap();
    assert!(polar.column_by_name("CLmax").is_none());
    assert!(polar.column_by_name("").is_none());
}

#[test]
fn column_names_are_the_fixed_seven() {
    let names = column_names();
    let expected: Vec<String> =
        ["alpha", "CL", "CD", "CDp", "CM", "Top_Xtr", "Bot_Xtr"].iter().map(|s| s.to_string()).collect();
    assert_eq!(names, expected);
}
