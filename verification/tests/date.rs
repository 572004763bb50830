use chrono::{Datelike, NaiveDate};
use commitoria::date::{Date, Weekday, MAX_DAY_NUMBER, MAX_YEAR, MIN_DAY_NUMBER, MIN_YEAR};

fn weekday_index(weekday: chrono::Weekday) -> u32 {
    weekday.num_days_from_monday()
}

fn check_against_chrono(year: i32, month: u32, day: u32) {
    let ours = Date::from_ymd_opt(year, month, day);
    let theirs = NaiveDate::from_ymd_opt(year, month, day);
    assert_eq!(ours.is_some(), theirs.is_some(), "{year}-{month}-{day}");
    if let (Some(ours), Some(theirs)) = (ours, theirs) {
        assert_eq!(ours.num_days_from_ce(), theirs.num_days_from_ce());
        assert_eq!(
            ours.weekday().num_days_from_monday(),
            weekday_index(theirs.weekday())
        );
        assert_eq!(ours.to_string(), theirs.to_string());
        let next = theirs.succ_opt();
        assert_eq!(
            ours.succ_opt().map(|d| (d.year(), d.month(), d.day())),
            next.map(|d| (d.year(), d.month(), d.day()))
        );
        let earlier = theirs.checked_sub_months(chrono::Months::new(12));
        assert_eq!(
            ours.checked_sub_year().map(|d| (d.year(), d.month(), d.day())),
            earlier.map(|d| (d.year(), d.month(), d.day()))
        );
    }
}

#[test]
fn dates_agree_with_chrono() {
    for year in [
        MIN_YEAR - 1,
        MIN_YEAR,
        MIN_YEAR + 1,
        -401,
        -400,
        -100,
        -5,
        -4,
        -1,
        0,
        1,
        4,
        100,
        400,
        1582,
        1900,
        1970,
        1999,
        2000,
        2023,
        2024,
        2025,
        2100,
        9999,
        10000,
        MAX_YEAR - 1,
        MAX_YEAR,
        MAX_YEAR + 1,
    ] {
        for month in 0..=13 {
            for day in [0, 1, 2, 15, 27, 28, 29, 30, 31, 32] {
                check_against_chrono(year, month, day);
            }
        }
    }
}

#[test]
fn first_and_last_day() {
    let first = Date::from_ymd_opt(MIN_YEAR, 1, 1).unwrap();
    let last = Date::from_ymd_opt(MAX_YEAR, 12, 31).unwrap();
    assert_eq!(first.num_days_from_ce(), MIN_DAY_NUMBER);
    assert_eq!(last.num_days_from_ce(), MAX_DAY_NUMBER);
    assert_eq!(last.succ_opt(), None);
    assert_eq!(first.checked_sub_year(), None);
    assert_eq!(NaiveDate::MIN.num_days_from_ce(), MIN_DAY_NUMBER);
    assert_eq!(NaiveDate::MAX.num_days_from_ce(), MAX_DAY_NUMBER);
}

#[test]
fn weekday_of_known_days() {
    assert_eq!(Date::from_ymd_opt(1, 1, 1).unwrap().weekday(), Weekday::Mon);
    assert_eq!(Date::from_ymd_opt(1970, 1, 1).unwrap().weekday(), Weekday::Thu);
    assert_eq!(Date::from_ymd_opt(2024, 12, 13).unwrap().weekday(), Weekday::Fri);
    assert_eq!(Date::from_ymd_opt(2024, 2, 29).unwrap().weekday(), Weekday::Thu);
    assert_eq!(Date::from_ymd_opt(2000, 1, 1).unwrap().weekday(), Weekday::Sat);
    assert_eq!(Date::from_ymd_opt(2024, 12, 15).unwrap().weekday(), Weekday::Sun);
}

#[test]
fn a_year_earlier() {
    let leap_day = Date::from_ymd_opt(2024, 2, 29).unwrap();
    assert_eq!(leap_day.checked_sub_year(), Date::from_ymd_opt(2023, 2, 28));
    let day = Date::from_ymd_opt(2024, 12, 13).unwrap();
    assert_eq!(day.checked_sub_year(), Date::from_ymd_opt(2023, 12, 13));
    assert_eq!(
        day.num_days_from_ce() - day.checked_sub_year().unwrap().num_days_from_ce(),
        366
    );
}

#[test]
fn date_text() {
    assert_eq!(Date::from_ymd_opt(2024, 12, 2).unwrap().to_string(), "2024-12-02");
    assert_eq!(Date::from_ymd_opt(5, 1, 31).unwrap().to_string(), "0005-01-31");
    assert_eq!(Date::from_ymd_opt(-5, 1, 31).unwrap().to_string(), "-0005-01-31");
    assert_eq!(Date::from_ymd_opt(12345, 10, 9).unwrap().to_string(), "+12345-10-09");
    assert_eq!(Date::from_ymd_opt(-12345, 10, 9).unwrap().to_string(), "-12345-10-09");
}

#[test]
fn order_of_dates() {
    let earlier = Date::from_ymd_opt(2023, 12, 31).unwrap();
    let later = Date::from_ymd_opt(2024, 1, 1).unwrap();
    assert!(earlier.le(&later));
    assert!(earlier.le(&earlier));
    assert!(!later.le(&earlier));
    assert_eq!(later.month0(), 0);
}
