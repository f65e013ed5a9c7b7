use ethos_vault::timestamp::{
    Timestamp, FIRST_FOUR_DIGIT_SECS, LAST_FOUR_DIGIT_SECS, MAX_SECS, MIN_SECS,
};

fn at(secs: i64, nanos: u32) -> Timestamp {
    Timestamp::new(secs, nanos).unwrap()
}

#[test]
fn points_in_time_are_written_as_rfc3339() {
    assert_eq!(at(0, 0).to_rfc3339(), "1970-01-01T00:00:00+00:00");
    assert_eq!(at(1_709_209_815, 0).to_rfc3339(), "2024-02-29T12:30:15+00:00");
    assert_eq!(at(1_709_209_815, 5_000_000).to_rfc3339(), "2024-02-29T12:30:15.005+00:00");
}

#[test]
fn points_in_time_are_read_with_any_offset() {
    let noon = at(1_709_209_815, 0);
    assert_eq!(Timestamp::parse_from_rfc3339("2024-02-29T12:30:15+00:00"), Some(noon));
    assert_eq!(Timestamp::parse_from_rfc3339("2024-02-29T14:30:15+02:00"), Some(noon));
    assert_eq!(Timestamp::parse_from_rfc3339("2024-02-29T12:30:15Z"), Some(noon));
}

#[test]
fn other_texts_are_no_points_in_time() {
    assert_eq!(Timestamp::parse_from_rfc3339(""), None);
    assert_eq!(Timestamp::parse_from_rfc3339("yesterday"), None);
    assert_eq!(Timestamp::parse_from_rfc3339("2023-02-29T12:30:15+00:00"), None);
    assert_eq!(Timestamp::parse_from_rfc3339("2024-02-29T12:30:15"), None);
}

#[test]
fn what_is_written_is_read_back() {
    for (secs, nanos) in [
        (0, 0),
        (1_709_209_815, 1),
        (1_709_209_815, 999_999_999),
        (-1, 500_000_000),
        (FIRST_FOUR_DIGIT_SECS, 0),
        (LAST_FOUR_DIGIT_SECS, 999_999_999),
        (LAST_FOUR_DIGIT_SECS, 1_999_999_999),
    ] {
        let point = at(secs, nanos);
        assert_eq!(Timestamp::parse_from_rfc3339(&point.to_rfc3339()), Some(point));
    }
}

#[test]
fn the_first_and_last_years_of_four_digits() {
    assert_eq!(at(FIRST_FOUR_DIGIT_SECS, 0).to_rfc3339(), "0000-01-01T00:00:00+00:00");
    assert_eq!(at(LAST_FOUR_DIGIT_SECS, 0).to_rfc3339(), "9999-12-31T23:59:59+00:00");
}

#[test]
fn the_calendar_has_ends() {
    assert!(Timestamp::new(MIN_SECS, 0).is_some());
    assert!(Timestamp::new(MAX_SECS, 999_999_999).is_some());
    assert!(Timestamp::new(MIN_SECS - 1, 0).is_none());
    assert!(Timestamp::new(MAX_SECS + 1, 0).is_none());
    assert_eq!(at(MIN_SECS, 0).parts(), (MIN_SECS, 0));
    assert_eq!(at(MAX_SECS, 1_999_999_999).parts(), (MAX_SECS, 1_999_999_999));
}

#[test]
fn leap_seconds_end_a_minute() {
    assert!(Timestamp::new(59, 1_000_000_000).is_some());
    assert!(Timestamp::new(58, 1_000_000_000).is_none());
    assert!(Timestamp::new(-1, 1_500_000_000).is_some());
    assert!(Timestamp::new(59, 2_000_000_000).is_none());
}

#[test]
fn the_clock_is_past_the_year_2020() {
    let now = Timestamp::now();
    assert!(at(1_577_836_800, 0).is_before(&now));
    assert!(now.parts().1 < 1_000_000_000);
}

#[test]
fn days_are_written_without_the_time() {
    assert_eq!(at(1_709_209_815, 7).format_day(), "2024-02-29");
    assert_eq!(at(-1, 0).format_day(), "1969-12-31");
}

#[test]
fn seconds_between_points_drop_the_fraction() {
    assert_eq!(at(100, 0).seconds_since(&at(40, 0)), 60);
    assert_eq!(at(100, 0).seconds_since(&at(40, 1)), 59);
    assert_eq!(at(40, 1).seconds_since(&at(100, 0)), -59);
    assert_eq!(at(40, 0).seconds_since(&at(40, 999_999_999)), 0);
}

#[test]
fn leap_seconds_between_points() {
    let leap = at(59, 1_500_000_000);
    assert_eq!(at(60, 0).seconds_since(&leap), 0);
    assert_eq!(at(61, 500_000_000).seconds_since(&leap), 2);
    assert_eq!(leap.seconds_since(&at(60, 0)), 0);
    assert_eq!(leap.seconds_since(&at(62, 0)), -2);
    assert_eq!(leap.seconds_since(&at(58, 0)), 2);
    assert_eq!(at(58, 0).seconds_since(&leap), -2);
    assert_eq!(leap.seconds_since(&at(59, 0)), 1);
    assert_eq!(at(86_400 + 58, 0).seconds_since(&leap), 86_397);
    assert_eq!(at(86_400 + 61, 0).seconds_since(&leap), 86_401);
    assert_eq!(leap.seconds_since(&at(86_400 + 58, 0)), -86_397);
    assert_eq!(at(-86_400 + 61, 0).seconds_since(&leap), -86_398);
}

#[test]
fn going_back_by_days() {
    assert_eq!(at(86_400, 5).minus_days(1), Some(at(0, 5)));
    assert_eq!(at(0, 0).minus_days(-2), Some(at(172_800, 0)));
    assert_eq!(at(0, 0).minus_days(i64::MAX), None);
    assert_eq!(at(0, 0).minus_days(i64::MIN), None);
    assert_eq!(at(MIN_SECS, 0).minus_days(1), None);
    assert_eq!(at(MIN_SECS + 86_400, 0).minus_days(1), Some(at(MIN_SECS, 0)));
    assert_eq!(at(86_459, 1_000_000_000).minus_days(1), Some(at(60, 0)));
    assert_eq!(at(59, 1_250_000_000).minus_days(-1), Some(at(86_459, 250_000_000)));
    assert_eq!(at(59, 1_250_000_000).minus_days(0), Some(at(59, 1_250_000_000)));
}
