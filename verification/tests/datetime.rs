use lending_library::datetime::{
    date_time, format_date_time, leap_year, month_length, year_length, DateTime, LAST_SECOND,
    LOAN_SECONDS, SECONDS_PER_DAY, TOKEN_SECONDS,
};

#[test]
fn the_constants_are_a_day_a_week_and_an_hour() {
    assert_eq!(SECONDS_PER_DAY, 24 * 60 * 60);
    assert_eq!(LOAN_SECONDS, 7 * SECONDS_PER_DAY);
    assert_eq!(TOKEN_SECONDS, 60 * 60);
}

#[test]
fn leap_years() {
    assert!(leap_year(1972));
    assert!(leap_year(2000));
    assert!(leap_year(2024));
    assert!(!leap_year(1970));
    assert!(!leap_year(1900));
    assert!(!leap_year(2100));
    assert!(!leap_year(2023));
    assert_eq!(year_length(2024), 366);
    assert_eq!(year_length(2023), 365);
}

#[test]
fn month_lengths() {
    let plain = [31, 28, 31, 30, 31, 30, 31, 31, 30, 31, 30, 31];
    for m in 1..=12u64 {
        assert_eq!(month_length(2023, m), plain[(m - 1) as usize]);
    }
    assert_eq!(month_length(2024, 2), 29);
    assert_eq!(month_length(1900, 2), 28);
    assert_eq!(month_length(2000, 2), 29);
}

#[test]
fn the_first_second_is_the_start_of_1970() {
    assert_eq!(
        date_time(0),
        DateTime { year: 1970, month: 1, day: 1, hour: 0, minute: 0, second: 0 }
    );
    assert_eq!(format_date_time(0), "1970-01-01 00:00:00");
}

#[test]
fn known_seconds() {
    assert_eq!(format_date_time(86_399), "1970-01-01 23:59:59");
    assert_eq!(format_date_time(86_400), "1970-01-02 00:00:00");
    assert_eq!(format_date_time(68_169_600), "1972-02-29 00:00:00");
    assert_eq!(format_date_time(951_782_400), "2000-02-29 00:00:00");
    assert_eq!(format_date_time(1_700_000_000), "2023-11-14 22:13:20");
    assert_eq!(format_date_time(1_709_164_800), "2024-02-29 00:00:00");
    assert_eq!(format_date_time(1_709_164_800 + 86_400), "2024-03-01 00:00:00");
    assert_eq!(format_date_time(1_704_067_199), "2023-12-31 23:59:59");
    assert_eq!(format_date_time(1_704_067_200), "2024-01-01 00:00:00");
    assert_eq!(format_date_time(LAST_SECOND), "9999-12-31 23:59:59");
}

#[test]
fn a_loan_is_due_a_week_later() {
    assert_eq!(format_date_time(1_700_000_000 + LOAN_SECONDS), "2023-11-21 22:13:20");
}

#[test]
fn every_day_of_four_years_follows_the_day_before() {
    let mut previous = date_time(0);
    let mut t: u64 = SECONDS_PER_DAY;
    while t < 1462 * SECONDS_PER_DAY {
        let d = date_time(t + 3_661);
        assert_eq!((d.hour, d.minute, d.second), (1, 1, 1));
        if d.day == 1 {
            if d.month == 1 {
                assert_eq!(d.year, previous.year + 1);
                assert_eq!((previous.month, previous.day), (12, 31));
            } else {
                assert_eq!(d.year, previous.year);
                assert_eq!(d.month, previous.month + 1);
                assert_eq!(previous.day, month_length(previous.year, previous.month));
            }
        } else {
            assert_eq!((d.year, d.month, d.day), (previous.year, previous.month, previous.day + 1));
        }
        previous = d;
        t += SECONDS_PER_DAY;
    }
    assert_eq!((previous.year, previous.month, previous.day), (1974, 1, 1));
}
