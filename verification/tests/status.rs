use winds::providers::status::{loaded_winds, Status};
use winds::providers::Wind;
use winds::stamp::Stamp;

// 2024-01-01T00:00:00Z
const DAY: i64 = 1_704_067_200;
const HOUR: i64 = 3_600;

fn status() -> Status {
    Status::new(String::from("noaa"), String::from("Noaa"), DAY)
}

fn wind(mark: u64) -> std::sync::Arc<Wind> {
    std::sync::Arc::new(Wind {
        lat0: mark,
        lon0: 0,
        delta_lat: 0,
        delta_lon: 0,
        n_lat: 0,
        n_lon: 0,
        u: vec![],
        v: vec![],
    })
}

fn loaded(ref_time: i64, hour: u16, mark: u64) -> Stamp {
    let mut stamp = Stamp::from_forecast_hour(ref_time, hour);
    stamp.wind = Some(wind(mark));
    stamp
}

fn marks(winds: &[std::sync::Arc<Wind>]) -> Vec<u64> {
    winds.iter().map(|w| w.lat0).collect()
}

fn entries(status: &Status) -> Vec<(i64, Vec<i64>)> {
    (0..status.len()).map(|i| status.entry(i)).collect()
}

#[test]
fn new_status_knows_nothing() {
    let status = status();
    assert_eq!(status.provider(), "noaa");
    assert_eq!(status.provider_name(), "Noaa");
    assert_eq!(status.current_ref_time(), DAY);
    assert_eq!(status.get_last(), None);
    assert_eq!(status.get_progress(), 0);
    assert_eq!(status.len(), 0);
    assert!(!status.contains_key(&DAY));
    assert!(status.find(&DAY).is_none());
}

#[test]
fn current_ref_time_is_set() {
    let mut status = status();
    status.set_current_ref_time(DAY + 6 * HOUR);
    assert_eq!(status.current_ref_time(), DAY + 6 * HOUR);
    assert_eq!(status.len(), 0);
}

#[test]
fn forecasts_are_kept_by_time_and_in_the_order_of_their_coming() {
    let mut status = status();
    status.add_forecast(Stamp::from_forecast_hour(DAY, 12));
    status.add_forecast(Stamp::from_forecast_hour(DAY, 6));
    status.add_forecast(Stamp::from_forecast_hour(DAY + 6 * HOUR, 6));
    status.add_forecast(Stamp::from_forecast_hour(DAY, 9));
    status.add_forecast(Stamp::from_forecast_hour(DAY - 6 * HOUR, 18));
    assert_eq!(
        entries(&status),
        vec![
            (DAY + 6 * HOUR, vec![DAY]),
            (DAY + 9 * HOUR, vec![DAY]),
            (DAY + 12 * HOUR, vec![DAY, DAY + 6 * HOUR, DAY - 6 * HOUR]),
        ]
    );
    assert!(status.contains_key(&(DAY + 9 * HOUR)));
    assert!(!status.contains_key(&(DAY + 10 * HOUR)));
    assert!(!status.contains_key(&DAY));
}

#[test]
fn status_keeps_its_times_sorted_and_its_lists_filled() {
    let mut status = status();
    let mut state: u64 = 12345;
    for round in 0..400 {
        state = state.wrapping_mul(6_364_136_223_846_793_005).wrapping_add(1_442_695_040_888_963_407);
        let hour = ((state >> 33) % 40) as u16;
        let cycle = DAY + 6 * HOUR * ((state >> 20) % 4) as i64;
        match (state >> 50) % 5 {
            0 => {
                status.remove_forecast(&(cycle + hour as i64 * HOUR));
            }
            1 => {
                status.clean(DAY + (round % 30) * HOUR);
            }
            2 => {
                status.on_stamp_downloaded(true, Stamp::from_forecast_hour(cycle, hour), 384);
            }
            _ => {
                status.add_forecast(Stamp::from_forecast_hour(cycle, hour));
            }
        }
        let entries = entries(&status);
        for pair in entries.windows(2) {
            assert!(pair[0].0 < pair[1].0);
        }
        for (time, cycles) in &entries {
            assert!(!cycles.is_empty());
            assert!(status.contains_key(time));
            assert_eq!(
                status.find(time).unwrap().before.len(),
                0,
                "no wind was loaded for {}",
                time
            );
        }
    }
}

#[test]
fn forecasts_for_a_time_are_removed_together() {
    let mut status = status();
    status.add_forecast(Stamp::from_forecast_hour(DAY, 12));
    status.add_forecast(Stamp::from_forecast_hour(DAY + 6 * HOUR, 6));
    status.add_forecast(Stamp::from_forecast_hour(DAY, 15));
    let removed = status.remove_forecast(&(DAY + 12 * HOUR));
    assert_eq!(
        removed,
        vec![Stamp::from_forecast_hour(DAY, 12), Stamp::from_forecast_hour(DAY + 6 * HOUR, 6)]
    );
    assert_eq!(entries(&status), vec![(DAY + 15 * HOUR, vec![DAY])]);
    assert_eq!(status.remove_forecast(&(DAY + 12 * HOUR)), vec![]);
    assert_eq!(status.remove_forecast(&(DAY + 15 * HOUR)).len(), 1);
    assert_eq!(status.len(), 0);
}

#[test]
fn set_last_takes_note_of_the_latest_forecast() {
    let mut status = status();
    status.set_last(DAY, 12, 384);
    assert_eq!(status.get_last(), Some(Stamp::from_forecast_hour(DAY, 12)));
    assert_eq!(status.get_progress(), 3);
    status.set_last(DAY, 192, 384);
    assert_eq!(status.get_progress(), 50);
    status.set_last(DAY, 383, 384);
    assert_eq!(status.get_progress(), 99);
    status.set_last(DAY, 384, 384);
    assert_eq!(status.get_progress(), 100);
    status.set_last(DAY, 3, 384);
    assert_eq!(status.get_last(), Some(Stamp::from_forecast_hour(DAY, 3)));
    assert_eq!(status.get_progress(), 0);
}

#[test]
fn progress_does_not_go_above_a_hundred() {
    let mut status = status();
    status.set_last(DAY, 400, 384);
    assert_eq!(status.get_progress(), 100);
    status.set_last(DAY, 65_535, 1);
    assert_eq!(status.get_progress(), 100);
    status.set_last(DAY, 1, 65_535);
    assert_eq!(status.get_progress(), 0);
}

#[test]
fn set_last_never_goes_back_to_an_earlier_cycle() {
    let mut status = status();
    status.set_last(DAY + 6 * HOUR, 9, 384);
    status.set_last(DAY, 384, 384);
    assert_eq!(status.get_last(), Some(Stamp::from_forecast_hour(DAY + 6 * HOUR, 9)));
    assert_eq!(status.get_progress(), 2);
    status.set_last(DAY + 6 * HOUR, 6, 384);
    assert_eq!(status.get_last(), Some(Stamp::from_forecast_hour(DAY + 6 * HOUR, 6)));
    status.set_last(DAY + 12 * HOUR, 6, 384);
    assert_eq!(status.get_last().unwrap().ref_time, DAY + 12 * HOUR);
    let mut last = i64::MIN;
    let mut state: u64 = 99;
    for _ in 0..200 {
        state = state.wrapping_mul(6_364_136_223_846_793_005).wrapping_add(1_442_695_040_888_963_407);
        status.set_last(DAY + 6 * HOUR * ((state >> 40) % 9) as i64, (state >> 20) as u16 % 385, 384);
        let now = status.get_last().unwrap().ref_time;
        assert!(now >= last);
        last = now;
    }
}

#[test]
fn get_last_gives_the_stamp_without_its_wind() {
    let mut status = status();
    status.on_stamp_downloaded(true, loaded(DAY, 6, 1), 384);
    assert_eq!(status.get_last(), Some(Stamp::from_forecast_hour(DAY, 6)));
}

#[test]
fn loaded_winds_are_those_of_the_stamps_that_have_one() {
    let stamps = vec![
        loaded(DAY, 12, 1),
        Stamp::from_forecast_hour(DAY + 6 * HOUR, 6),
        loaded(DAY + 12 * HOUR, 0, 3),
    ];
    assert_eq!(marks(&loaded_winds(&stamps)), vec![1, 3]);
    assert_eq!(loaded_winds(&vec![]).len(), 0);
}

#[test]
fn find_between_two_forecasts_gives_both_and_the_share() {
    let mut status = status();
    status.add_forecast(loaded(DAY, 10, 10));
    status.add_forecast(loaded(DAY, 13, 13));
    let found = status.find(&(DAY + 11 * HOUR)).unwrap();
    assert_eq!(marks(&found.before), vec![10]);
    assert_eq!(marks(&found.after.unwrap()), vec![13]);
    assert_eq!(found.alpha_numerator, 60);
    assert_eq!(found.alpha_denominator, 180);
    let alpha = found.alpha_numerator as f64 / found.alpha_denominator as f64;
    assert!((alpha - 1.0 / 3.0).abs() < 1e-12);
}

#[test]
fn find_at_the_last_forecast_gives_it_alone() {
    let mut status = status();
    status.add_forecast(loaded(DAY, 10, 10));
    status.add_forecast(loaded(DAY, 13, 13));
    for time in [DAY + 13 * HOUR, DAY + 13 * HOUR + 1, DAY + 500 * HOUR, i64::MAX] {
        let found = status.find(&time).unwrap();
        assert_eq!(marks(&found.before), vec![13]);
        assert!(found.after.is_none());
        assert_eq!((found.alpha_numerator, found.alpha_denominator), (0, 1));
    }
}

#[test]
fn find_before_the_first_forecast_gives_it_alone() {
    let mut status = status();
    status.add_forecast(loaded(DAY, 10, 10));
    status.add_forecast(loaded(DAY, 13, 13));
    for time in [DAY + 9 * HOUR, DAY + 10 * HOUR - 1, i64::MIN] {
        let found = status.find(&time).unwrap();
        assert_eq!(marks(&found.before), vec![10]);
        assert!(found.after.is_none());
        assert_eq!((found.alpha_numerator, found.alpha_denominator), (0, 1));
    }
}

#[test]
fn find_within_the_first_minute_gives_the_earlier_forecast_alone() {
    let mut status = status();
    status.add_forecast(loaded(DAY, 10, 10));
    status.add_forecast(loaded(DAY, 13, 13));
    for time in [DAY + 10 * HOUR, DAY + 10 * HOUR + 59] {
        let found = status.find(&time).unwrap();
        assert_eq!(marks(&found.before), vec![10]);
        assert!(found.after.is_none());
        assert_eq!((found.alpha_numerator, found.alpha_denominator), (0, 1));
    }
    let found = status.find(&(DAY + 10 * HOUR + 60)).unwrap();
    assert_eq!((found.alpha_numerator, found.alpha_denominator), (1, 180));
    let found = status.find(&(DAY + 13 * HOUR - 1)).unwrap();
    assert_eq!((found.alpha_numerator, found.alpha_denominator), (179, 180));
    assert_eq!(marks(&found.after.unwrap()), vec![13]);
}

#[test]
fn find_with_one_forecast_gives_it_whatever_the_time() {
    let mut status = status();
    status.add_forecast(loaded(DAY, 10, 10));
    status.add_forecast(loaded(DAY - 6 * HOUR, 16, 16));
    for time in [i64::MIN, 0, DAY, DAY + 10 * HOUR, DAY + 10 * HOUR + 90, DAY + 99 * HOUR, i64::MAX] {
        let found = status.find(&time).unwrap();
        assert_eq!(marks(&found.before), vec![10, 16]);
        assert!(found.after.is_none());
        assert_eq!((found.alpha_numerator, found.alpha_denominator), (0, 1));
    }
}

#[test]
fn find_takes_the_nearest_forecasts_of_many() {
    let mut status = status();
    for hour in [6u16, 9, 12, 15, 18] {
        status.add_forecast(loaded(DAY, hour, hour as u64));
    }
    let found = status.find(&(DAY + 13 * HOUR + 30 * 60)).unwrap();
    assert_eq!(marks(&found.before), vec![12]);
    assert_eq!(marks(&found.after.unwrap()), vec![15]);
    assert_eq!((found.alpha_numerator, found.alpha_denominator), (90, 180));
}

#[test]
fn find_passes_over_stamps_without_wind() {
    let mut status = status();
    status.add_forecast(Stamp::from_forecast_hour(DAY, 10));
    status.add_forecast(loaded(DAY - 6 * HOUR, 16, 16));
    status.add_forecast(Stamp::from_forecast_hour(DAY, 13));
    let found = status.find(&(DAY + 12 * HOUR)).unwrap();
    assert_eq!(marks(&found.before), vec![16]);
    assert_eq!(found.after.unwrap().len(), 0);
    assert_eq!((found.alpha_numerator, found.alpha_denominator), (120, 180));
}

#[test]
fn clean_drops_what_is_older_than_three_hours() {
    let mut status = status();
    for hour in [0u16, 3, 6, 9] {
        status.add_forecast(Stamp::from_forecast_hour(DAY, hour));
    }
    status.add_forecast(Stamp::from_forecast_hour(DAY - 6 * HOUR, 9));
    let removed = status.clean(DAY + 9 * HOUR);
    assert_eq!(
        removed,
        vec![
            Stamp::from_forecast_hour(DAY, 0),
            Stamp::from_forecast_hour(DAY, 3),
            Stamp::from_forecast_hour(DAY - 6 * HOUR, 9),
        ]
    );
    assert_eq!(entries(&status), vec![(DAY + 6 * HOUR, vec![DAY]), (DAY + 9 * HOUR, vec![DAY])]);
    assert_eq!(status.clean(DAY + 9 * HOUR), vec![]);
    assert_eq!(status.clean(DAY + 8 * HOUR).len(), 0);
    assert_eq!(status.clean(DAY + 500 * HOUR).len(), 2);
    assert_eq!(status.len(), 0);
}

#[test]
fn clean_keeps_what_is_three_hours_old() {
    let mut status = status();
    status.add_forecast(Stamp::from_forecast_hour(DAY, 6));
    assert_eq!(status.clean(DAY + 9 * HOUR).len(), 0);
    assert_eq!(status.len(), 1);
    assert_eq!(status.clean(DAY + 9 * HOUR + 1).len(), 1);
}

#[test]
fn retain_listed_keeps_the_times_whose_stamps_are_all_listed() {
    let mut status = status();
    status.add_forecast(Stamp::from_forecast_hour(DAY, 6));
    status.add_forecast(Stamp::from_forecast_hour(DAY, 12));
    status.add_forecast(Stamp::from_forecast_hour(DAY + 6 * HOUR, 6));
    status.add_forecast(Stamp::from_forecast_hour(DAY, 18));
    status.add_forecast(loaded(DAY, 24, 1));
    status.retain_listed(&vec![
        Stamp::from_forecast_hour(DAY, 24),
        Stamp::from_forecast_hour(DAY, 12),
        Stamp::from_forecast_hour(DAY, 6),
        Stamp::from_forecast_hour(DAY, 99),
    ]);
    assert_eq!(entries(&status), vec![(DAY + 6 * HOUR, vec![DAY]), (DAY + 24 * HOUR, vec![DAY])]);
    status.retain_listed(&vec![]);
    assert_eq!(status.len(), 0);
    status.retain_listed(&vec![Stamp::from_forecast_hour(DAY, 6)]);
    assert_eq!(status.len(), 0);
}

#[test]
fn stamps_are_registered_when_new_or_first_of_their_cycle() {
    let mut status = status();
    status.add_forecast(Stamp::from_forecast_hour(DAY, 6));
    assert!(status.needs_registration(&Stamp::from_forecast_hour(DAY, 9)));
    assert!(!status.needs_registration(&Stamp::from_forecast_hour(DAY, 6)));
    assert!(!status.needs_registration(&Stamp::from_forecast_hour(DAY - 6 * HOUR, 12)));
    assert!(status.needs_registration(&Stamp::from_forecast_hour(DAY + 6 * HOUR, 0)));
    assert!(status.needs_registration(&Stamp::from_forecast_hour(DAY + 12 * HOUR, 0)));
}

#[test]
fn fresher_cycle_replaces_the_forecasts_of_earlier_ones() {
    let mut status = status();
    let earlier = Stamp::from_forecast_hour(DAY, 18);
    let fresher = Stamp::from_forecast_hour(DAY + 6 * HOUR, 12);
    assert_eq!(status.on_stamp_downloaded(true, earlier.clone(), 384), vec![]);
    assert_eq!(status.on_stamp_downloaded(true, fresher.clone(), 384), vec![earlier]);
    assert_eq!(entries(&status), vec![(DAY + 18 * HOUR, vec![DAY + 6 * HOUR])]);
    assert_eq!(status.get_last(), Some(fresher));
    assert_eq!(status.get_progress(), 3);
}

#[test]
fn forecasts_up_to_hour_six_are_merged() {
    let mut status = status();
    status.on_stamp_downloaded(true, Stamp::from_forecast_hour(DAY, 12), 384);
    assert_eq!(
        status.on_stamp_downloaded(true, Stamp::from_forecast_hour(DAY + 6 * HOUR, 6), 384),
        vec![]
    );
    assert_eq!(entries(&status), vec![(DAY + 12 * HOUR, vec![DAY, DAY + 6 * HOUR])]);
    assert_eq!(
        status.on_stamp_downloaded(true, Stamp::from_forecast_hour(DAY - 6 * HOUR, 18), 384).len(),
        2
    );
    assert_eq!(entries(&status), vec![(DAY + 12 * HOUR, vec![DAY - 6 * HOUR])]);
    assert_eq!(status.get_last(), Some(Stamp::from_forecast_hour(DAY + 6 * HOUR, 6)));
}

#[test]
fn nothing_gives_way_when_nothing_may_be_deleted() {
    let mut status = status();
    status.on_stamp_downloaded(false, Stamp::from_forecast_hour(DAY, 18), 384);
    assert_eq!(
        status.on_stamp_downloaded(false, Stamp::from_forecast_hour(DAY + 6 * HOUR, 12), 384),
        vec![]
    );
    assert_eq!(entries(&status), vec![(DAY + 18 * HOUR, vec![DAY, DAY + 6 * HOUR])]);
}

#[test]
fn prepare_stamp_does_all_but_add() {
    let mut status = status();
    status.add_forecast(Stamp::from_forecast_hour(DAY, 18));
    let fresher = Stamp::from_forecast_hour(DAY + 6 * HOUR, 12);
    assert_eq!(
        status.prepare_stamp(true, &fresher, 384),
        vec![Stamp::from_forecast_hour(DAY, 18)]
    );
    assert_eq!(status.len(), 0);
    assert_eq!(status.get_last(), Some(fresher.clone()));
    assert_eq!(status.prepare_stamp(true, &fresher, 384), vec![]);
}

#[test]
fn status_is_described_with_its_latest_forecast() {
    let mut status = status();
    assert_eq!(status.describe(), "noaa : 0%");
    status.set_last(DAY + 6 * HOUR, 12, 384);
    assert_eq!(status.describe(), "noaa - `06Z+012` : 3%");
    status.set_last(DAY + 18 * HOUR, 384, 384);
    assert_eq!(status.describe(), "noaa - `18Z+384` : 100%");
}

#[test]
fn locate_gives_the_places_of_the_entries() {
    let mut status = status();
    assert!(status.locate(&DAY).is_none());
    for hour in [6u16, 9, 12] {
        status.add_forecast(Stamp::from_forecast_hour(DAY, hour));
    }
    let located = status.locate(&(DAY + 10 * HOUR)).unwrap();
    assert_eq!(located.before, 1);
    assert_eq!(located.after, Some(2));
    assert_eq!((located.alpha_numerator, located.alpha_denominator), (60, 180));
    let last = status.locate(&(DAY + 12 * HOUR)).unwrap();
    assert_eq!((last.before, last.after), (2, None));
    let first = status.locate(&DAY).unwrap();
    assert_eq!((first.before, first.after), (0, None));
    assert_eq!(status.entry(1), (DAY + 9 * HOUR, vec![DAY]));
}
