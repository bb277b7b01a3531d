use winds::providers::engine::{current_ref_time, next_update_time};
use winds::time::{
    civil_of_instant, instant_of_civil, leap_year, month_days, truncate_to_cycle, CivilTime,
    FIRST_INSTANT, LAST_INSTANT,
};

#[test]
fn truncation_goes_down_to_six_hours() {
    // 2024-01-01T00:00:00Z
    let midnight: i64 = 1_704_067_200;
    assert_eq!(truncate_to_cycle(midnight), midnight);
    assert_eq!(truncate_to_cycle(midnight + 1), midnight);
    assert_eq!(truncate_to_cycle(midnight + 21_599), midnight);
    assert_eq!(truncate_to_cycle(midnight + 21_600), midnight + 21_600);
    assert_eq!(truncate_to_cycle(midnight + 80_000), midnight + 64_800);
}

#[test]
fn truncation_before_1970_goes_down_too() {
    assert_eq!(truncate_to_cycle(-1), -21_600);
    assert_eq!(truncate_to_cycle(-21_600), -21_600);
    assert_eq!(truncate_to_cycle(-21_601), -43_200);
    assert_eq!(truncate_to_cycle(FIRST_INSTANT), FIRST_INSTANT);
    assert_eq!(truncate_to_cycle(LAST_INSTANT), LAST_INSTANT - 21_599);
}

#[test]
fn truncated_instants_are_on_a_cycle_hour() {
    let mut t: i64 = 1_704_067_200 - 100_000;
    while t < 1_704_067_200 + 100_000 {
        let r = truncate_to_cycle(t);
        assert_eq!(r.rem_euclid(21_600), 0);
        let hour = r.rem_euclid(86_400) / 3_600;
        assert!(hour == 0 || hour == 6 || hour == 12 || hour == 18);
        assert_eq!(r.rem_euclid(3_600), 0);
        assert!(r <= t && t < r + 21_600);
        t += 977;
    }
}

#[test]
fn current_cycle_is_the_one_before_until_it_is_published() {
    let midnight: i64 = 1_704_067_200;
    assert_eq!(current_ref_time(midnight), midnight - 21_600);
    assert_eq!(current_ref_time(midnight + 12_599), midnight - 21_600);
    assert_eq!(current_ref_time(midnight + 12_600), midnight);
    assert_eq!(current_ref_time(midnight + 21_599), midnight);
    assert_eq!(current_ref_time(midnight + 21_600), midnight);
    assert_eq!(current_ref_time(midnight + 21_600 + 12_600), midnight + 21_600);
}

#[test]
fn next_update_is_three_hours_and_a_half_into_the_cycle() {
    let midnight: i64 = 1_704_067_200;
    assert_eq!(next_update_time(midnight), midnight + 12_600);
    assert_eq!(next_update_time(midnight + 20_000), midnight + 12_600);
    assert_eq!(next_update_time(midnight + 21_600), midnight + 21_600 + 12_600);
}

#[test]
fn calendar_has_the_days_of_each_month() {
    assert!(leap_year(2024) && leap_year(2000) && leap_year(0) && leap_year(400));
    assert!(!leap_year(2023) && !leap_year(1900) && !leap_year(2100) && !leap_year(1));
    let days: Vec<u8> = (1..=12).map(|m| month_days(2023, m)).collect();
    assert_eq!(days, vec![31, 28, 31, 30, 31, 30, 31, 31, 30, 31, 30, 31]);
    assert_eq!(month_days(2024, 2), 29);
    let at = |month: u8, day: u8, hour: u8, minute: u8, second: u8| CivilTime {
        year: 2024,
        month,
        day,
        hour,
        minute,
        second,
    };
    assert!(at(2, 29, 23, 59, 59).is_on_calendar());
    assert!(at(1, 1, 0, 0, 0).is_on_calendar());
    assert!(!at(0, 1, 0, 0, 0).is_on_calendar());
    assert!(!at(13, 1, 0, 0, 0).is_on_calendar());
    assert!(!at(4, 31, 0, 0, 0).is_on_calendar());
    assert!(!at(4, 0, 0, 0, 0).is_on_calendar());
    assert!(!at(4, 1, 24, 0, 0).is_on_calendar());
    assert!(!at(4, 1, 0, 60, 0).is_on_calendar());
    assert!(!at(4, 1, 0, 0, 60).is_on_calendar());
}

fn civil(year: u16, month: u8, day: u8, hour: u8, minute: u8, second: u8) -> CivilTime {
    CivilTime { year, month, day, hour, minute, second }
}

#[test]
fn civil_times_name_their_instants() {
    assert_eq!(instant_of_civil(civil(1970, 1, 1, 0, 0, 0)), Some(0));
    assert_eq!(instant_of_civil(civil(1970, 1, 1, 0, 0, 1)), Some(1));
    assert_eq!(instant_of_civil(civil(1970, 1, 2, 0, 0, 0)), Some(86_400));
    assert_eq!(instant_of_civil(civil(2024, 1, 1, 0, 0, 0)), Some(1_704_067_200));
    assert_eq!(instant_of_civil(civil(2024, 3, 1, 0, 0, 0)), Some(1_709_251_200));
    assert_eq!(instant_of_civil(civil(2000, 2, 29, 12, 34, 56)), Some(951_827_696));
    assert_eq!(instant_of_civil(civil(1969, 12, 31, 18, 0, 0)), Some(-21_600));
    assert_eq!(instant_of_civil(civil(1900, 3, 1, 0, 0, 0)), Some(-2_203_891_200));
    assert_eq!(instant_of_civil(civil(2100, 12, 31, 6, 0, 0)), Some(4_133_916_000));
    assert_eq!(instant_of_civil(civil(1, 1, 1, 0, 0, 0)), Some(-62_135_596_800));
    assert_eq!(instant_of_civil(civil(0, 1, 1, 0, 0, 0)), Some(FIRST_INSTANT));
    assert_eq!(instant_of_civil(civil(9999, 12, 31, 23, 59, 59)), Some(LAST_INSTANT));
    assert_eq!(instant_of_civil(civil(10_000, 1, 1, 0, 0, 0)), Some(LAST_INSTANT + 1));
}

#[test]
fn times_that_the_calendar_lacks_name_no_instant() {
    assert_eq!(instant_of_civil(civil(2023, 2, 29, 0, 0, 0)), None);
    assert_eq!(instant_of_civil(civil(2100, 2, 29, 0, 0, 0)), None);
    assert_eq!(instant_of_civil(civil(2024, 2, 30, 0, 0, 0)), None);
    assert_eq!(instant_of_civil(civil(2024, 0, 1, 0, 0, 0)), None);
    assert_eq!(instant_of_civil(civil(2024, 13, 1, 0, 0, 0)), None);
    assert_eq!(instant_of_civil(civil(2024, 1, 0, 0, 0, 0)), None);
    assert_eq!(instant_of_civil(civil(2024, 4, 31, 0, 0, 0)), None);
    assert_eq!(instant_of_civil(civil(2024, 1, 1, 24, 0, 0)), None);
    assert_eq!(instant_of_civil(civil(2024, 1, 1, 0, 60, 0)), None);
    assert_eq!(instant_of_civil(civil(2024, 1, 1, 0, 0, 60)), None);
    assert!(instant_of_civil(civil(2024, 2, 29, 23, 59, 59)).is_some());
}

#[test]
fn instants_have_their_civil_times() {
    assert_eq!(civil_of_instant(0), civil(1970, 1, 1, 0, 0, 0));
    assert_eq!(civil_of_instant(-1), civil(1969, 12, 31, 23, 59, 59));
    assert_eq!(civil_of_instant(951_827_696), civil(2000, 2, 29, 12, 34, 56));
    assert_eq!(civil_of_instant(1_709_251_199), civil(2024, 2, 29, 23, 59, 59));
    assert_eq!(civil_of_instant(FIRST_INSTANT), civil(0, 1, 1, 0, 0, 0));
    assert_eq!(civil_of_instant(LAST_INSTANT), civil(9999, 12, 31, 23, 59, 59));
}

#[test]
fn each_day_follows_the_day_before_it() {
    for first in [0u16, 1, 99, 399, 1599, 1899, 1969, 1999, 2023, 2099, 9998] {
        let mut t = instant_of_civil(civil(first, 1, 1, 0, 0, 0)).unwrap();
        for year in first..first + 2 {
            for month in 1..=12u8 {
                for day in 1..=month_days(year, month) {
                    let noon = civil(year, month, day, 12, 30, 15);
                    assert_eq!(instant_of_civil(civil(year, month, day, 0, 0, 0)), Some(t));
                    assert_eq!(instant_of_civil(noon), Some(t + 45_015));
                    assert_eq!(civil_of_instant(t + 45_015), noon);
                    t += 86_400;
                }
            }
        }
    }
}
