use backend::calendar::HolidayCalendar;
use backend::date::Date;
use backend::resignation::is_non_working_day;
use backend::time::now;
use backend::url::get_base_url;

#[test]
fn calendar_lookup_finds_added_dates_only() {
    let mut cal = HolidayCalendar::new();
    let listed = Date::from_ymd(2025, 1, 1).unwrap();
    let other = Date::from_ymd(2025, 1, 2).unwrap();
    assert!(!is_non_working_day(&listed, &cal));

    cal.add(listed, String::from("元日"));
    assert!(is_non_working_day(&listed, &cal));
    assert!(!is_non_working_day(&other, &cal));

    // A second entry for the same date replaces the label and changes
    // nothing for the lookup.
    cal.add(listed, String::from("New Year's Day"));
    assert!(is_non_working_day(&listed, &cal));
}

#[test]
fn the_clock_reads_a_representable_timestamp() {
    let t = now().unwrap();
    let written = t.to_iso();
    assert_eq!(written.len(), 19);
    // The reading must name a real calendar date and time, so its written
    // form parses back to the same value.
    assert_eq!(backend::datetime::DateTime::parse_iso(&written), Some(t));
    assert!(t.date.year >= 2025);
}

#[test]
fn the_base_url_passes_through() {
    assert_eq!(get_base_url("https://holidays-jp.github.io"), "https://holidays-jp.github.io");
}
