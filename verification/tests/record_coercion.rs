use mars_weather::records::{
    coerce_record, coerce_records, i64_from_string, sole_from_string, RawSoleRecord, RecordError,
};
use mars_weather::Sole;

fn raw(sol: &str, date: &str, min: &str, max: &str, rise: &str, set: &str) -> RawSoleRecord {
    RawSoleRecord {
        id: String::from("rec-1"),
        terrestrial_date: String::from(date),
        sol: String::from(sol),
        min_temp: String::from(min),
        max_temp: String::from(max),
        sunrise: String::from(rise),
        sunset: String::from(set),
    }
}

#[test]
fn integer_strings_parse_exactly() {
    assert_eq!(i64_from_string("0"), Some(0));
    assert_eq!(i64_from_string("4100"), Some(4100));
    assert_eq!(i64_from_string("+17"), Some(17));
    assert_eq!(i64_from_string("-82"), Some(-82));
    assert_eq!(i64_from_string("9223372036854775807"), Some(i64::MAX));
    assert_eq!(i64_from_string("-9223372036854775808"), Some(i64::MIN));
    assert_eq!(i64_from_string("007"), Some(7));
}

#[test]
fn bad_integer_strings_become_none() {
    assert_eq!(i64_from_string(""), None);
    assert_eq!(i64_from_string("-"), None);
    assert_eq!(i64_from_string("+"), None);
    assert_eq!(i64_from_string("12a"), None);
    assert_eq!(i64_from_string(" 12"), None);
    assert_eq!(i64_from_string("1.5"), None);
    assert_eq!(i64_from_string("--4"), None);
    // One past either end of the i64 range.
    assert_eq!(i64_from_string("9223372036854775808"), None);
    assert_eq!(i64_from_string("-9223372036854775809"), None);
    assert_eq!(i64_from_string("99999999999999999999999"), None);
}

#[test]
fn sole_numbers_must_parse() {
    assert_eq!(sole_from_string("4100"), Ok(Sole(4100)));
    assert_eq!(Sole::from(4100), Sole(4100));
    assert!(sole_from_string("41o0").is_err());
}

#[test]
fn good_record_is_coerced() {
    let sd = coerce_record(raw("4100", "2024-02-29", "-82", "-12", "05:30", "17:22")).unwrap();
    assert_eq!(sd.sol, Sole(4100));
    assert_eq!(
        (sd.terrestrial_date.year, sd.terrestrial_date.month, sd.terrestrial_date.day),
        (2024, 2, 29)
    );
    assert_eq!(sd.min_temp, Some(-82));
    assert_eq!(sd.max_temp, Some(-12));
    assert_eq!((sd.sunrise.hour, sd.sunrise.minute), (5, 30));
    assert_eq!((sd.sunset.hour, sd.sunset.minute), (17, 22));
    assert_eq!(sd.id, "rec-1");
}

#[test]
fn unparseable_temperatures_become_none() {
    let sd = coerce_record(raw("4100", "2024-02-29", "--", "", "05:30", "17:22")).unwrap();
    assert_eq!(sd.min_temp, None);
    assert_eq!(sd.max_temp, None);
}

#[test]
fn each_required_field_reports_its_error() {
    let e = coerce_record(raw("41o0", "2024-02-29", "1", "2", "05:30", "17:22")).unwrap_err();
    assert_eq!(e, RecordError::BadSol);
    let e = coerce_record(raw("4100", "2024-02-30", "1", "2", "05:30", "17:22")).unwrap_err();
    assert_eq!(e, RecordError::BadDate);
    let e = coerce_record(raw("4100", "2024-02-29", "1", "2", "5:30", "17:22")).unwrap_err();
    assert_eq!(e, RecordError::BadSunrise);
    let e = coerce_record(raw("4100", "2024-02-29", "1", "2", "05:30", "25:00")).unwrap_err();
    assert_eq!(e, RecordError::BadSunset);
}

#[test]
fn one_bad_record_rejects_the_batch() {
    let batch = vec![
        raw("100", "2012-11-16", "-80", "-10", "05:30", "17:22"),
        raw("bad", "2012-11-17", "-81", "-11", "05:31", "17:21"),
    ];
    assert_eq!(coerce_records(batch).unwrap_err(), RecordError::BadSol);

    let batch = vec![
        raw("100", "2012-11-16", "-80", "-10", "05:30", "17:22"),
        raw("101", "2012-11-17", "-81", "-11", "05:31", "17:21"),
    ];
    let out = coerce_records(batch).unwrap();
    assert_eq!(out.len(), 2);
    assert_eq!(out[0].sol, Sole(100));
    assert_eq!(out[1].sol, Sole(101));
}
