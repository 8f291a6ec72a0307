use delaunay::ext::{check_float_token, parse_count, parse_point_cloud, parse_row, LoadError};

fn line(s: &str) -> Vec<u8> {
    s.as_bytes().to_vec()
}

fn lines(ls: &[&str]) -> Vec<Vec<u8>> {
    ls.iter().map(|s| line(s)).collect()
}

#[test]
fn float_tokens_accepted() {
    for good in [
        "1.0", "-1.0", "+1.0", "0", "42", "1.", ".5", "-.5", "1e5", "1E5", "1.25e-3",
        "1.0e+10", "inf", "-inf", "Infinity", "NaN", "nan", "3.0",
    ] {
        assert!(check_float_token(&line(good)), "rejected {}", good);
    }
}

#[test]
fn float_tokens_rejected() {
    for bad in [
        "", "abc", ".", "+", "-", "1.0.0", "1e", "e5", "1e+", "in", "infx", "nanx", "1 2",
        "--1", "1.0f", "0x10",
    ] {
        assert!(!check_float_token(&line(bad)), "accepted {}", bad);
    }
}

#[test]
fn count_line_parses() {
    assert_eq!(parse_count(&line("2")), Ok(2));
    assert_eq!(parse_count(&line("  42  \n")), Ok(42));
    assert_eq!(parse_count(&line("+7")), Ok(7));
    assert_eq!(parse_count(&line("0")), Ok(0));
}

#[test]
fn count_line_rejects_junk() {
    assert_eq!(parse_count(&line("")), Err(LoadError::ParseInt));
    assert_eq!(parse_count(&line("abc")), Err(LoadError::ParseInt));
    assert_eq!(parse_count(&line("-3")), Err(LoadError::ParseInt));
    assert_eq!(parse_count(&line("3.5")), Err(LoadError::ParseInt));
    assert_eq!(parse_count(&line("2 2")), Err(LoadError::ParseInt));
    assert_eq!(
        parse_count(&line("99999999999999999999999999999999")),
        Err(LoadError::ParseInt)
    );
}

#[test]
fn row_splits_three_fields() {
    let r = parse_row(&line("1.0 2.0 3.0\n"), 0).unwrap();
    assert_eq!(r.x, line("1.0"));
    assert_eq!(r.y, line("2.0"));
    assert_eq!(r.z, line("3.0"));
    // extra fields are ignored, tabs count as separators
    let r = parse_row(&line("\t-1 \t 2e3  inf  junk"), 5).unwrap();
    assert_eq!(r.x, line("-1"));
    assert_eq!(r.y, line("2e3"));
    assert_eq!(r.z, line("inf"));
}

#[test]
fn row_reports_missing_fields() {
    assert!(matches!(parse_row(&line(""), 3), Err(LoadError::Parse { row: 3, field: 0 })));
    assert!(matches!(parse_row(&line("1.0"), 0), Err(LoadError::Parse { row: 0, field: 1 })));
    assert!(matches!(parse_row(&line("1.0 2.0 "), 1), Err(LoadError::Parse { row: 1, field: 2 })));
}

#[test]
fn scenario_truncated_cloud_is_io_error() {
    // a declared count of 2 with only 1 row following must fail as an
    // input (reader) error, not a panic or a silent truncation
    let r = parse_point_cloud(&lines(&["2", "0 0 0"]));
    assert_eq!(r.map(|_| ()), Err(LoadError::IO));
}

#[test]
fn scenario_bad_float_names_second_field() {
    let r = parse_point_cloud(&lines(&["1", "1.0 abc 2.0"]));
    assert_eq!(r.map(|_| ()), Err(LoadError::ParseFloat { row: 0, field: 1 }));
}

#[test]
fn cloud_parses_whole_file() {
    let r = parse_point_cloud(&lines(&["3", "0 0 0", "5 5 0", "5 0 0", "ignored trailing"]))
        .unwrap();
    assert_eq!(r.len(), 3);
    assert_eq!(r[1].x, line("5"));
    assert_eq!(r[2].z, line("0"));
}

#[test]
fn cloud_rejects_bad_header() {
    assert_eq!(
        parse_point_cloud(&lines(&["x", "0 0 0"])).map(|_| ()),
        Err(LoadError::ParseInt)
    );
    assert_eq!(parse_point_cloud(&lines(&[])).map(|_| ()), Err(LoadError::ParseInt));
}

#[test]
fn cloud_reports_first_bad_row() {
    let r = parse_point_cloud(&lines(&["3", "0 0 0", "1 2", "x y z"]));
    assert_eq!(r.map(|_| ()), Err(LoadError::Parse { row: 1, field: 2 }));
}
