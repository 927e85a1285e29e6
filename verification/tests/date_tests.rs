use yummy_indexing_delete::time_utils::{
    date_day_number, get_current_kor_naive_datetime, get_current_utc_naivedate,
    get_currnet_utc_naivedatetime, get_naive_date_from_str, get_naive_datetime_from_str,
    get_str_from_naive_datetime, get_str_from_naivedate, get_str_from_naivedatetime,
    index_date_eligible, retention_deadline, Date, DateTime, TimeError,
};

fn d(year: i32, month: u8, day: u8) -> Date {
    Date::new(year, month as u32, day as u32).unwrap()
}

#[test]
fn leap_year_dates_exist() {
    assert!(Date::new(2024, 2, 29).is_some());
    assert!(Date::new(2000, 2, 29).is_some());
    assert!(Date::new(0, 2, 29).is_some());
}

#[test]
fn non_leap_year_rejects_feb_29() {
    assert!(Date::new(2023, 2, 29).is_none());
    assert!(Date::new(1900, 2, 29).is_none());
    assert!(Date::new(2100, 2, 29).is_none());
}

#[test]
fn out_of_range_fields_are_rejected() {
    assert!(Date::new(2024, 0, 1).is_none());
    assert!(Date::new(2024, 13, 1).is_none());
    assert!(Date::new(2024, 4, 31).is_none());
    assert!(Date::new(2024, 1, 0).is_none());
    assert!(Date::new(2024, 1, 32).is_none());
    assert!(Date::new(300000, 1, 1).is_none());
}

#[test]
fn day_numbers_count_days() {
    let base = date_day_number(&d(2024, 2, 28));
    assert_eq!(date_day_number(&d(2024, 2, 29)), base + 1);
    assert_eq!(date_day_number(&d(2024, 3, 1)), base + 2);
    assert_eq!(date_day_number(&d(2025, 2, 28)), base + 366);
}

#[test]
fn retention_boundary_deadline() {
    // current date 2024-06-10 with a 30-day retention: deadline 2024-05-11
    let today = d(2024, 6, 10);
    assert_eq!(retention_deadline(&today, 30), date_day_number(&d(2024, 5, 11)));
}

#[test]
fn retention_boundary_is_inclusive() {
    let today = d(2024, 6, 10);
    // an index dated exactly on the deadline is deleted
    assert!(index_date_eligible(&d(2024, 5, 11), &today, 30));
    // one dated the day after is not
    assert!(!index_date_eligible(&d(2024, 5, 12), &today, 30));
    // much older ones of course are
    assert!(index_date_eligible(&d(2023, 12, 31), &today, 30));
}

#[test]
fn zero_day_retention_deletes_today() {
    let today = d(2024, 6, 10);
    assert!(index_date_eligible(&today, &today, 0));
    assert!(!index_date_eligible(&d(2024, 6, 11), &today, 0));
}

#[test]
fn format_date_dashed() {
    let s = get_str_from_naivedate(d(2024, 3, 1), "%Y-%m-%d").unwrap();
    assert_eq!(s, "2024-03-01");
}

#[test]
fn format_date_compact() {
    let s = get_str_from_naivedate(d(987, 12, 31), "%Y%m%d").unwrap();
    assert_eq!(s, "09871231");
}

#[test]
fn format_date_other_formats_render_via_chrono() {
    assert_eq!(
        get_str_from_naivedate(d(2024, 3, 1), "%d/%m/%Y"),
        Ok("01/03/2024".to_string())
    );
    assert_eq!(
        get_str_from_naivedate(d(2024, 3, 1), "%B %d, %Y"),
        Ok("March 01, 2024".to_string())
    );
}

#[test]
fn format_date_rejects_a_malformed_format() {
    assert_eq!(
        get_str_from_naivedate(d(2024, 3, 1), "%!"),
        Err(TimeError::UnsupportedFormat)
    );
}

#[test]
fn format_datetime_other_formats_render_via_chrono() {
    let t = DateTime { date: d(2024, 3, 1), hour: 7, minute: 5, second: 9 };
    assert_eq!(
        get_str_from_naivedatetime(t, "%H:%M"),
        Ok("07:05".to_string())
    );
    assert_eq!(
        get_str_from_naive_datetime(t, "%H:%M"),
        Ok("07:05".to_string())
    );
}

#[test]
fn format_datetime_stamp() {
    let t = DateTime { date: d(2024, 3, 1), hour: 7, minute: 5, second: 59 };
    let s = get_str_from_naivedatetime(t, "%Y-%m-%d %H:%M:%S").unwrap();
    assert_eq!(s, "2024-03-01 07:05:59");
    let s2 = get_str_from_naive_datetime(t, "%Y-%m-%d %H:%M:%S").unwrap();
    assert_eq!(s2, "2024-03-01 07:05:59");
}

#[test]
fn parse_date_dashed() {
    assert_eq!(get_naive_date_from_str("2024-03-01", "%Y-%m-%d"), Ok(d(2024, 3, 1)));
    // chrono is padding-lenient: unpadded fields parse too
    assert_eq!(get_naive_date_from_str("2024-3-1", "%Y-%m-%d"), Ok(d(2024, 3, 1)));
    assert_eq!(get_naive_date_from_str(" 2024-03-01", "%Y-%m-%d"), Ok(d(2024, 3, 1)));
    assert_eq!(
        get_naive_date_from_str("2023-02-29", "%Y-%m-%d"),
        Err(TimeError::ParseFailure)
    );
}

#[test]
fn parse_date_compact() {
    assert_eq!(get_naive_date_from_str("20240301", "%Y%m%d"), Ok(d(2024, 3, 1)));
    assert_eq!(
        get_naive_date_from_str("2024-03-01", "%Y%m%d"),
        Err(TimeError::ParseFailure)
    );
    assert_eq!(
        get_naive_date_from_str("20240301", "%d.%m.%Y"),
        Err(TimeError::ParseFailure)
    );
    // any strftime format chrono reads is accepted
    assert_eq!(get_naive_date_from_str("01.03.2024", "%d.%m.%Y"), Ok(d(2024, 3, 1)));
}

#[test]
fn parse_datetime_stamp() {
    let t = get_naive_datetime_from_str("2024-03-01 07:05:59", "%Y-%m-%d %H:%M:%S").unwrap();
    assert_eq!(t, DateTime { date: d(2024, 3, 1), hour: 7, minute: 5, second: 59 });
    assert_eq!(
        get_naive_datetime_from_str("2024-03-01 24:00:00", "%Y-%m-%d %H:%M:%S"),
        Err(TimeError::ParseFailure)
    );
    assert_eq!(
        get_naive_datetime_from_str("2024-03-01T07:05:59", "%Y-%m-%d %H:%M:%S"),
        Err(TimeError::ParseFailure)
    );
    // chrono's lenient widths apply beyond the canonical shape
    assert_eq!(
        get_naive_datetime_from_str("2024-3-1 7:5:9", "%Y-%m-%d %H:%M:%S"),
        Ok(DateTime { date: d(2024, 3, 1), hour: 7, minute: 5, second: 9 })
    );
}

#[test]
fn date_format_round_trip() {
    let date = d(2024, 5, 11);
    let s = get_str_from_naivedate(date, "%Y-%m-%d").unwrap();
    assert_eq!(get_naive_date_from_str(&s, "%Y-%m-%d"), Ok(date));
    let c = get_str_from_naivedate(date, "%Y%m%d").unwrap();
    assert_eq!(get_naive_date_from_str(&c, "%Y%m%d"), Ok(date));
}

#[test]
fn current_clock_readings_are_dates() {
    let today = get_current_utc_naivedate();
    assert!(today.year >= 2024);
    assert!((1..=12).contains(&today.month));
    assert!((1..=31).contains(&today.day));
    let now = get_currnet_utc_naivedatetime();
    assert!(now.hour < 24 && now.minute < 60 && now.second < 60);
    let kor = get_current_kor_naive_datetime();
    assert!(kor.hour < 24 && kor.minute < 60 && kor.second < 60);
    // Korea has no daylight saving: the wall date is at most one day ahead.
    assert!(date_day_number(&kor.date) - date_day_number(&now.date) <= 1);
}
