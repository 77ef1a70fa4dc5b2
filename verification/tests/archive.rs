use peas::archive::{answer_default_yes, answer_explicit_yes, parse_duration};

#[test]
fn test_parse_duration_days() {
    let d = parse_duration("30d").unwrap();
    assert_eq!(d.num_days(), 30);
}

#[test]
fn test_parse_duration_weeks() {
    let d = parse_duration("4w").unwrap();
    assert_eq!(d.num_days(), 28);
}

#[test]
fn test_parse_duration_months() {
    let d = parse_duration("6m").unwrap();
    assert_eq!(d.num_days(), 180);
}

#[test]
fn test_parse_duration_years() {
    let d = parse_duration("1y").unwrap();
    assert_eq!(d.num_days(), 365);
}

#[test]
fn test_parse_duration_invalid() {
    assert!(parse_duration("").is_err());
    assert!(parse_duration("abc").is_err());
    assert!(parse_duration("0d").is_err());
    assert!(parse_duration("-5d").is_err());
    assert!(parse_duration("30x").is_err());
}

#[test]
fn parse_duration_messages() {
    assert_eq!(parse_duration("  ").unwrap_err(), "Empty duration string");
    assert_eq!(
        parse_duration("abc").unwrap_err(),
        "Invalid duration 'abc': expected format like 30d, 4w, 6m, 1y"
    );
    assert_eq!(parse_duration("0d").unwrap_err(), "Duration must be positive: 0d");
    assert_eq!(
        parse_duration("30x").unwrap_err(),
        "Unknown duration unit 'x': use d (days), w (weeks), m (months), y (years)"
    );
    assert_eq!(parse_duration(" +2w ").unwrap().num_days(), 14);
}

#[test]
fn archive_answers() {
    assert!(answer_default_yes(""));
    assert!(answer_default_yes(" Y \n"));
    assert!(!answer_default_yes("no"));
    assert!(answer_explicit_yes("y\n"));
    assert!(!answer_explicit_yes("\n"));
}

#[test]
fn parse_duration_non_ascii_unit() {
    assert_eq!(
        parse_duration("30é").unwrap_err(),
        "Unknown duration unit 'é': use d (days), w (weeks), m (months), y (years)"
    );
    assert!(parse_duration("é").is_err());
}
