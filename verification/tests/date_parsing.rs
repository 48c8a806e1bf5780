use mars_weather::dates::{naivedate_from_string, naivetime_from_string, parse_date_from_string};

#[test]
fn plain_date_parses_as_midnight_utc() {
    // 2026-02-15 is 20499 days after the epoch.
    assert_eq!(parse_date_from_string("2026-02-15"), Ok(20499 * 86400));
    assert_eq!(parse_date_from_string("1970-01-01"), Ok(0));
    assert_eq!(parse_date_from_string("1969-12-31"), Ok(-86400));
}

#[test]
fn rfc3339_parses_to_utc_instant() {
    assert_eq!(parse_date_from_string("2026-02-15T20:42:00Z"), Ok(1771188120));
    // An offset east of UTC makes the instant earlier.
    assert_eq!(
        parse_date_from_string("2026-02-15T21:42:00+01:00"),
        Ok(1771188120)
    );
    assert_eq!(
        parse_date_from_string("2026-02-15T15:42:00-05:00"),
        Ok(1771188120)
    );
    // Lowercase t and z, and fractional seconds, are RFC 3339 too.
    assert_eq!(parse_date_from_string("2026-02-15t20:42:00z"), Ok(1771188120));
    assert_eq!(
        parse_date_from_string("2026-02-15T20:42:00.25Z"),
        Ok(1771188120)
    );
}

#[test]
fn unmatched_formats_are_rejected() {
    assert!(parse_date_from_string("15/02/2026").is_err());
    assert!(parse_date_from_string("").is_err());
    assert!(parse_date_from_string("2026-02-15 20:42:00Z").is_err());
    assert!(parse_date_from_string("2026-02-15T20:42:00").is_err());
    assert!(parse_date_from_string("2026-02-15T20:42:00.Z").is_err());
    assert!(parse_date_from_string("2026-02-15T20:42:00+0100").is_err());
    assert!(parse_date_from_string("2026-02-15T24:00:00Z").is_err());
    assert!(parse_date_from_string("1344230220").is_err());
}

#[test]
fn calendar_validation() {
    // 2024 is a leap year; 2023 and 1900 are not; 2000 is.
    assert!(parse_date_from_string("2024-02-29").is_ok());
    assert!(parse_date_from_string("2023-02-29").is_err());
    assert!(parse_date_from_string("1900-02-29").is_err());
    assert!(parse_date_from_string("2000-02-29").is_ok());
    assert!(parse_date_from_string("2026-04-31").is_err());
    assert!(parse_date_from_string("2026-13-01").is_err());
    assert!(parse_date_from_string("2026-00-10").is_err());
    assert!(parse_date_from_string("2026-01-00").is_err());
}

#[test]
fn naivedate_reads_fields() {
    let d = naivedate_from_string("2026-02-15").unwrap();
    assert_eq!((d.year, d.month, d.day), (2026, 2, 15));
    assert!(naivedate_from_string("2026-2-15").is_none());
    assert!(naivedate_from_string("2026-02-15T").is_none());
}

#[test]
fn naivetime_reads_fields() {
    let t = naivetime_from_string("05:30").unwrap();
    assert_eq!((t.hour, t.minute), (5, 30));
    assert_eq!(naivetime_from_string("23:59").map(|t| (t.hour, t.minute)), Some((23, 59)));
    assert!(naivetime_from_string("24:00").is_none());
    assert!(naivetime_from_string("12:60").is_none());
    assert!(naivetime_from_string("1230").is_none());
    assert!(naivetime_from_string("12:3").is_none());
}
