use backend::date::Date;
use backend::datetime::DateTime;

#[test]
fn parse_valid_date_is_ok() {
    let result = Date::parse_iso("2025-01-01");

    assert!(result.is_some());
    assert_eq!(result.unwrap(), Date::from_ymd(2025, 1, 1).unwrap());
}

#[test]
fn parse_invalid_date_is_err() {
    let result = Date::parse_iso("2025-01-32");

    assert!(result.is_none());
}

#[test]
fn date_to_value_returns_string() {
    let date = Date::from_ymd(2025, 1, 1).unwrap();

    let value = date.to_iso();

    assert_eq!(value, "2025-01-01".to_string());
}

#[test]
fn datetime_parse_valid_datetime_is_ok() {
    let result = DateTime::parse_iso("2025-01-01 00:00:00");

    assert!(result.is_some());
    assert_eq!(
        result.unwrap(),
        DateTime::from_parts(Date::from_ymd(2025, 1, 1).unwrap(), 0, 0, 0).unwrap()
    );
}

#[test]
fn datetime_parse_invalid_datetime_is_err() {
    let result = DateTime::parse_iso("2025-01-32 00:00:00");

    assert!(result.is_none());
}

#[test]
fn datetime_to_value_returns_string() {
    let datetime = DateTime::parse_iso("2025-01-01 00:00:00").unwrap();

    let value = datetime.to_iso();

    assert_eq!(value, "2025-01-01 00:00:00".to_string());
}

#[test]
fn parse_rejects_malformed_shapes() {
    assert!(Date::parse_iso("20250101").is_none());
    assert!(Date::parse_iso("").is_none());
    assert!(Date::parse_iso("2025-01-011").is_none());
    assert!(Date::parse_iso("2025/01/01").is_none());
    assert!(Date::parse_iso("2025-13-01").is_none());
    assert!(Date::parse_iso("2025-00-10").is_none());
    assert!(Date::parse_iso("2025-01-00").is_none());
    assert!(Date::parse_iso("0000-01-01").is_none());
    assert!(DateTime::parse_iso("2025-01-01T00:00:00").is_none());
    assert!(DateTime::parse_iso("2025-01-01 24:00:00").is_none());
    assert!(DateTime::parse_iso("2025-01-01 00:60:00").is_none());
    assert!(DateTime::parse_iso("2025-01-01 00:00:61").is_none());
}

#[test]
fn leap_years_have_their_extra_day() {
    assert!(Date::parse_iso("2024-02-29").is_some());
    assert!(Date::parse_iso("2023-02-29").is_none());
    assert!(Date::parse_iso("2000-02-29").is_some());
    assert!(Date::parse_iso("1900-02-29").is_none());
}

#[test]
fn parse_accepts_the_edges_of_the_range() {
    assert!(Date::parse_iso("0001-01-01").is_some());
    assert!(Date::parse_iso("9999-12-31").is_some());
    assert!(Date::parse_iso("9999-01-01").is_some());
}

#[test]
fn to_iso_pads_with_zeros() {
    assert_eq!(Date::from_ymd(1, 1, 1).unwrap().to_iso(), "0001-01-01".to_string());
    assert_eq!(Date::from_ymd(987, 6, 5).unwrap().to_iso(), "0987-06-05".to_string());
    let t = DateTime::from_parts(Date::from_ymd(2025, 1, 1).unwrap(), 9, 8, 7).unwrap();
    assert_eq!(t.to_iso(), "2025-01-01 09:08:07".to_string());
}

#[test]
fn iso_forms_round_trip() {
    for s in ["2025-01-01", "2024-02-29", "0001-01-01", "9999-12-31"] {
        assert_eq!(Date::parse_iso(s).unwrap().to_iso(), s.to_string());
    }
    let s = "2024-12-17 23:59:59";
    assert_eq!(DateTime::parse_iso(s).unwrap().to_iso(), s.to_string());
}

#[test]
fn weekdays_match_the_calendar() {
    // 2025-01-01 was a Wednesday; the weekend around it fell on
    // 2024-12-28 and 2024-12-29.
    assert_eq!(Date::from_ymd(2025, 1, 1).unwrap().weekday(), 2);
    assert_eq!(Date::from_ymd(2024, 12, 28).unwrap().weekday(), 5);
    assert_eq!(Date::from_ymd(2024, 12, 29).unwrap().weekday(), 6);
    assert_eq!(Date::from_ymd(2024, 12, 30).unwrap().weekday(), 0);
    // 2000-01-01 was a Saturday.
    assert_eq!(Date::from_ymd(2000, 1, 1).unwrap().weekday(), 5);
}

#[test]
fn prev_day_crosses_month_and_year_boundaries() {
    let prev = |y: u32, m: u32, d: u32| Date::from_ymd(y, m, d).unwrap().prev_day().unwrap();
    assert_eq!(prev(2025, 1, 1), Date::from_ymd(2024, 12, 31).unwrap());
    assert_eq!(prev(2024, 3, 1), Date::from_ymd(2024, 2, 29).unwrap());
    assert_eq!(prev(2023, 3, 1), Date::from_ymd(2023, 2, 28).unwrap());
    assert_eq!(prev(2025, 1, 2), Date::from_ymd(2025, 1, 1).unwrap());
    assert!(Date::from_ymd(1, 1, 1).unwrap().prev_day().is_none());
}

#[test]
fn day_numbers_count_from_the_first_day() {
    assert_eq!(Date::from_ymd(1, 1, 1).unwrap().day_number(), 0);
    assert_eq!(Date::from_ymd(1, 1, 2).unwrap().day_number(), 1);
    assert_eq!(Date::from_ymd(1, 12, 31).unwrap().day_number(), 364);
    assert_eq!(Date::from_ymd(2, 1, 1).unwrap().day_number(), 365);
}
