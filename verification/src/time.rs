//! Instants, the civil calendar and the six-hour forecast cycle.
//!
//! An instant is a count of seconds since 1970-01-01T00:00:00Z, leap seconds
//! not counted. The library works on the instants of the years 0000 to 9999,
//! which are those that a file name can write.
use chrono::{DateTime, Datelike, NaiveDate, Timelike};
use vstd::prelude::*;

verus! {

/// The instant at which a forecast cycle was issued: an instant of which
/// `is_cycle` holds.
pub type RefTime = i64;

/// The instant for which a forecast is valid.
pub type ForecastTime = i64;

pub const SECONDS_PER_HOUR: i64 = 3_600;

/// The length of a forecast cycle: six hours.
pub const CYCLE_SECONDS: i64 = 21_600;

/// How long after the start of a cycle its forecasts are published: three
/// hours and a half.
pub const PUBLICATION_DELAY: i64 = 12_600;

/// 0000-01-01T00:00:00Z.
pub const FIRST_INSTANT: i64 = -62_167_219_200;

/// 9999-12-31T23:59:59Z.
pub const LAST_INSTANT: i64 = 253_402_300_799;

/// Whether `t` is an instant of the years 0000 to 9999.
pub open spec fn is_instant(t: int) -> bool {
    FIRST_INSTANT <= t <= LAST_INSTANT
}

/// Whether `t` is an instant of the years 0000 to 9999.
pub fn instant(t: i64) -> (r: bool)
    ensures
        r == is_instant(t as int),
{
    FIRST_INSTANT <= t && t <= LAST_INSTANT
}

/// Whether `t` is an instant at which a forecast cycle is issued: one of the
/// years 0000 to 9999, a whole number of six hours from
/// 1970-01-01T00:00:00Z.
pub open spec fn is_cycle(t: int) -> bool {
    is_instant(t) && t % 21_600 == 0
}

/// Whether `t` is an instant at which a forecast cycle is issued.
pub fn cycle(t: i64) -> (r: bool)
    ensures
        r == is_cycle(t as int),
{
    if !instant(t) {
        return false;
    }
    let since_first: i64 = t - FIRST_INSTANT;
    proof {
        assert(since_first == t + 2_878_112 * 21_600);
        vstd::arithmetic::div_mod::lemma_mod_multiples_vanish(2_878_112, t as int, 21_600);
    }
    since_first % CYCLE_SECONDS == 0
}

/// The hour of the day of an instant, 0 to 23.
pub open spec fn hour_of_day(t: int) -> int {
    (t % 86_400) / 3_600
}

/// The minute of the hour of an instant, 0 to 59.
pub open spec fn minute_of_hour(t: int) -> int {
    (t % 3_600) / 60
}

/// The second of the minute of an instant, 0 to 59.
pub open spec fn second_of_minute(t: int) -> int {
    t % 60
}

/// A date and a time of day as the calendar writes them.
#[derive(Clone, Copy, Debug, PartialEq, Eq, Structural)]
pub struct CivilTime {
    pub year: u16,
    pub month: u8,
    pub day: u8,
    pub hour: u8,
    pub minute: u8,
    pub second: u8,
}

/// Whether a year of the proleptic Gregorian calendar has a 29th of
/// February.
pub open spec fn is_leap_year(year: int) -> bool {
    year % 4 == 0 && (year % 100 != 0 || year % 400 == 0)
}

/// The number of days of a month of the proleptic Gregorian calendar.
pub open spec fn days_in_month(year: int, month: int) -> int {
    if month == 2 {
        if is_leap_year(year) {
            29
        } else {
            28
        }
    } else if month == 4 || month == 6 || month == 9 || month == 11 {
        30
    } else {
        31
    }
}

impl CivilTime {
    /// Whether the calendar has this day and the day this time.
    pub open spec fn on_calendar(&self) -> bool {
        &&& 1 <= self.month <= 12
        &&& 1 <= self.day <= days_in_month(self.year as int, self.month as int)
        &&& self.hour < 24
        &&& self.minute < 60
        &&& self.second < 60
    }
}

/// Whether a year of the proleptic Gregorian calendar has a 29th of
/// February.
pub fn leap_year(year: u16) -> (r: bool)
    ensures
        r == is_leap_year(year as int),
{
    year % 4 == 0 && (year % 100 != 0 || year % 400 == 0)
}

/// The number of days of a month of the proleptic Gregorian calendar.
pub fn month_days(year: u16, month: u8) -> (days: u8)
    ensures
        days == days_in_month(year as int, month as int),
{
    if month == 2 {
        if leap_year(year) {
            29
        } else {
            28
        }
    } else if month == 4 || month == 6 || month == 9 || month == 11 {
        30
    } else {
        31
    }
}

impl CivilTime {
    /// Whether this time of day is one at which a forecast cycle is issued:
    /// 00, 06, 12 or 18 o'clock.
    pub open spec fn on_cycle(&self) -> bool {
        &&& self.hour == 0 || self.hour == 6 || self.hour == 12 || self.hour == 18
        &&& self.minute == 0
        &&& self.second == 0
    }

    /// Whether this time of day is one at which a forecast cycle is issued.
    pub fn is_on_cycle(&self) -> (r: bool)
        ensures
            r == self.on_cycle(),
    {
        (self.hour == 0 || self.hour == 6 || self.hour == 12 || self.hour == 18) && self.minute
            == 0 && self.second == 0
    }

    /// Whether the calendar has this day and the day this time.
    pub fn is_on_calendar(&self) -> (r: bool)
        ensures
            r == self.on_calendar(),
    {
        1 <= self.month && self.month <= 12 && 1 <= self.day && self.day <= month_days(
            self.year,
            self.month,
        ) && self.hour < 24 && self.minute < 60 && self.second < 60
    }
}

/// The number of days from 0000-01-01 to the first day of a year of the
/// proleptic Gregorian calendar: 365 for each year before it and one more
/// for each of them that has a 29th of February.
pub open spec fn days_before_year(year: int) -> int {
    365 * year + (year + 3) / 4 - (year + 99) / 100 + (year + 399) / 400
}

/// The number of days from the first day of a year to the first day of one
/// of its months.
pub open spec fn days_before_month(year: int, month: int) -> int
    decreases month,
{
    if month <= 1 {
        0
    } else {
        days_before_month(year, month - 1) + days_in_month(year, month - 1)
    }
}

/// The number of days from 0000-01-01 to 1970-01-01.
pub const DAYS_TO_1970: i64 = 719_528;

/// The number of days from 1970-01-01 to a day of the proleptic Gregorian
/// calendar.
pub open spec fn day_number(year: int, month: int, day: int) -> int {
    days_before_year(year) + days_before_month(year, month) + (day - 1) - DAYS_TO_1970
}

/// The instant that a civil time names in UTC: 86400 seconds for each day
/// since 1970-01-01, and the seconds of the time of day.
pub open spec fn civil_instant(
    year: int,
    month: int,
    day: int,
    hour: int,
    minute: int,
    second: int,
) -> int {
    day_number(year, month, day) * 86_400 + hour * 3_600 + minute * 60 + second
}

impl CivilTime {
    /// The instant that this civil time names in UTC.
    pub open spec fn instant(&self) -> int {
        civil_instant(
            self.year as int,
            self.month as int,
            self.day as int,
            self.hour as int,
            self.minute as int,
            self.second as int,
        )
    }
}

/// The civil time in UTC of an instant: the time of the calendar that names
/// it.
pub open spec fn instant_civil(instant: int) -> CivilTime {
    choose|civil: CivilTime| civil.on_calendar() && civil.instant() == instant
}

proof fn lemma_year_step(year: int)
    requires
        year >= 0,
    ensures
        days_before_year(year + 1) == days_before_year(year) + if is_leap_year(year) {
            366int
        } else {
            365int
        },
{
}

proof fn lemma_years_apart(a: int, b: int)
    requires
        0 <= a <= b,
    ensures
        days_before_year(a) <= days_before_year(b),
        a < b ==> days_before_year(a) + (if is_leap_year(a) {
            366int
        } else {
            365int
        }) <= days_before_year(b),
    decreases b - a,
{
    if a < b {
        lemma_years_apart(a, b - 1);
        lemma_year_step(b - 1);
    }
}

proof fn lemma_day_of_year(year: int, month: int, day: int)
    requires
        1 <= month <= 12,
        1 <= day <= days_in_month(year, month),
    ensures
        0 <= days_before_month(year, month) + day - 1 < if is_leap_year(year) {
            366int
        } else {
            365int
        },
{
    reveal_with_fuel(days_before_month, 13);
}

proof fn lemma_months_apart(year: int, a: int, b: int)
    requires
        1 <= a < b <= 12,
    ensures
        days_before_month(year, a) + days_in_month(year, a) <= days_before_month(year, b),
{
    reveal_with_fuel(days_before_month, 13);
}

/// Two days of the calendar that are as many days from 1970-01-01 are one
/// day.
pub proof fn lemma_day_is_unique(a: CivilTime, b: CivilTime)
    requires
        a.on_calendar(),
        b.on_calendar(),
        day_number(a.year as int, a.month as int, a.day as int) == day_number(
            b.year as int,
            b.month as int,
            b.day as int,
        ),
    ensures
        a.year == b.year,
        a.month == b.month,
        a.day == b.day,
{
    lemma_day_of_year(a.year as int, a.month as int, a.day as int);
    lemma_day_of_year(b.year as int, b.month as int, b.day as int);
    if a.year < b.year {
        lemma_years_apart(a.year as int, b.year as int);
    } else if b.year < a.year {
        lemma_years_apart(b.year as int, a.year as int);
    } else if a.month < b.month {
        lemma_months_apart(a.year as int, a.month as int, b.month as int);
    } else if b.month < a.month {
        lemma_months_apart(a.year as int, b.month as int, a.month as int);
    }
}

/// The time of day of the instant of a civil time is the hour, the minute
/// and the second of that civil time.
pub proof fn lemma_time_of_day(civil: CivilTime)
    requires
        civil.on_calendar(),
    ensures
        hour_of_day(civil.instant()) == civil.hour,
        minute_of_hour(civil.instant()) == civil.minute,
        second_of_minute(civil.instant()) == civil.second,
        civil.instant() / 86_400 == day_number(
            civil.year as int,
            civil.month as int,
            civil.day as int,
        ),
{
    let days = day_number(civil.year as int, civil.month as int, civil.day as int);
    let t = civil.instant();
    let of_day: int = civil.hour * 3_600 + civil.minute * 60 + civil.second;
    let of_hour: int = civil.minute * 60 + civil.second;
    assert(t == 86_400 * days + of_day);
    vstd::arithmetic::div_mod::lemma_fundamental_div_mod_converse(t, 86_400, days, of_day);
    vstd::arithmetic::div_mod::lemma_fundamental_div_mod_converse(
        of_day,
        3_600,
        civil.hour as int,
        of_hour,
    );
    assert(t == 3_600 * (24 * days + civil.hour) + of_hour);
    vstd::arithmetic::div_mod::lemma_fundamental_div_mod_converse(
        t,
        3_600,
        24 * days + civil.hour,
        of_hour,
    );
    vstd::arithmetic::div_mod::lemma_fundamental_div_mod_converse(
        of_hour,
        60,
        civil.minute as int,
        civil.second as int,
    );
    assert(t == 60 * (1_440 * days + 60 * civil.hour + civil.minute) + civil.second);
    vstd::arithmetic::div_mod::lemma_fundamental_div_mod_converse(
        t,
        60,
        1_440 * days + 60 * civil.hour + civil.minute,
        civil.second as int,
    );
}

/// Two civil times that name one instant are one civil time, so each
/// instant has one civil time at most.
pub proof fn lemma_civil_time_is_unique(a: CivilTime, b: CivilTime)
    requires
        a.on_calendar(),
        b.on_calendar(),
        a.instant() == b.instant(),
    ensures
        a == b,
{
    lemma_time_of_day(a);
    lemma_time_of_day(b);
    lemma_day_is_unique(a, b);
}

/// The civil time of the instant that a civil time names is that civil
/// time.
pub proof fn lemma_civil_round_trip(civil: CivilTime)
    requires
        civil.on_calendar(),
    ensures
        instant_civil(civil.instant()) == civil,
{
    let found = instant_civil(civil.instant());
    assert(found.on_calendar() && found.instant() == civil.instant());
    lemma_civil_time_is_unique(found, civil);
}

/// The civil times of the years 0000 to 9999 name the instants from
/// `FIRST_INSTANT` to `LAST_INSTANT`, and no other civil time names one of
/// them.
pub proof fn lemma_instants_of_years(civil: CivilTime)
    requires
        civil.on_calendar(),
    ensures
        civil.year <= 9999 <==> is_instant(civil.instant()),
{
    let year = civil.year as int;
    lemma_day_of_year(year, civil.month as int, civil.day as int);
    lemma_years_apart(0, year);
    if year <= 9999 {
        lemma_years_apart(year, 10_000);
    } else {
        lemma_years_apart(10_000, year);
    }
    assert(days_before_year(0) == 0);
    assert(days_before_year(10_000) == 3_652_425);
}

/// chrono's `NaiveDate::from_ymd_opt` and `NaiveDate::and_hms_opt`, read as a
/// UTC timestamp by `DateTime::timestamp`. Believed of them: a result comes
/// exactly when the day exists in the proleptic Gregorian calendar and the
/// time is one of the day, and it counts 86400 seconds for each day since
/// 1970-01-01 and the seconds of the time of day.
#[verifier::external_body]
fn timestamp_of(civil: CivilTime) -> (r: Option<i64>)
    ensures
        r is Some <==> civil.on_calendar(),
        r matches Some(t) ==> t == civil.instant(),
{
    let date = NaiveDate::from_ymd_opt(civil.year as i32, civil.month as u32, civil.day as u32)?;
    let time = date.and_hms_opt(civil.hour as u32, civil.minute as u32, civil.second as u32)?;
    Some(time.and_utc().timestamp())
}

/// chrono's `DateTime::from_timestamp` and the calendar fields of what it
/// makes (`year`, `month`, `day`, `hour`, `minute`, `second`). Believed of
/// them: the fields name an existing civil time of the proleptic Gregorian
/// calendar, and that civil time names the instant.
#[verifier::external_body]
fn fields_of(t: i64) -> (civil: CivilTime)
    requires
        is_instant(t as int),
    ensures
        civil.on_calendar(),
        civil.instant() == t,
{
    let at = DateTime::from_timestamp(t, 0).unwrap();
    CivilTime {
        year: at.year() as u16,
        month: at.month() as u8,
        day: at.day() as u8,
        hour: at.hour() as u8,
        minute: at.minute() as u8,
        second: at.second() as u8,
    }
}

/// The instant that a civil time names, where the calendar has that time.
pub fn instant_of_civil(civil: CivilTime) -> (r: Option<i64>)
    ensures
        r is Some <==> civil.on_calendar(),
        r matches Some(t) ==> civil.hour == hour_of_day(t as int) && civil.minute
            == minute_of_hour(t as int) && civil.second == second_of_minute(t as int),
        r matches Some(t) ==> t == civil_instant(
            civil.year as int,
            civil.month as int,
            civil.day as int,
            civil.hour as int,
            civil.minute as int,
            civil.second as int,
        ) && instant_civil(t as int) == civil,
        r matches Some(t) ==> (civil.year <= 9999 <==> is_instant(t as int)),
{
    let r = timestamp_of(civil);
    proof {
        if civil.on_calendar() {
            lemma_time_of_day(civil);
            lemma_civil_round_trip(civil);
            lemma_instants_of_years(civil);
        }
    }
    r
}

/// The civil time of an instant.
pub fn civil_of_instant(t: i64) -> (civil: CivilTime)
    requires
        is_instant(t as int),
    ensures
        civil == instant_civil(t as int),
        civil.on_calendar(),
        civil.year <= 9999,
        civil.hour == hour_of_day(t as int),
        civil.minute == minute_of_hour(t as int),
        civil.second == second_of_minute(t as int),
        t == civil_instant(
            civil.year as int,
            civil.month as int,
            civil.day as int,
            civil.hour as int,
            civil.minute as int,
            civil.second as int,
        ),
{
    let civil = fields_of(t);
    proof {
        lemma_time_of_day(civil);
        lemma_civil_round_trip(civil);
        lemma_instants_of_years(civil);
    }
    civil
}

/// An instant that is a whole number of six hours from 1970-01-01T00:00:00Z
/// is the start of hour 0, 6, 12 or 18 of its day.
pub proof fn lemma_cycle_start(r: int)
    requires
        r % 21_600 == 0,
    ensures
        hour_of_day(r) == 0 || hour_of_day(r) == 6 || hour_of_day(r) == 12 || hour_of_day(r) == 18,
        minute_of_hour(r) == 0,
        second_of_minute(r) == 0,
{
    let k = r / 21_600;
    vstd::arithmetic::div_mod::lemma_fundamental_div_mod(r, 21_600);
    assert(r == 21_600 * k);
    let q = r / 86_400;
    let m = r % 86_400;
    vstd::arithmetic::div_mod::lemma_fundamental_div_mod(r, 86_400);
    assert(m == r + 21_600 * (-4 * q));
    vstd::arithmetic::div_mod::lemma_mod_multiples_vanish(-4 * q, r, 21_600);
    assert(m % 21_600 == 0);
    assert(m == 0 || m == 21_600 || m == 43_200 || m == 64_800);
    assert(r == (6 * k) * 3_600);
    vstd::arithmetic::div_mod::lemma_mod_multiples_basic(6 * k, 3_600);
    assert(r == (360 * k) * 60);
    vstd::arithmetic::div_mod::lemma_mod_multiples_basic(360 * k, 60);
}

/// An instant at the start of hour 0, 6, 12 or 18 of its day is a whole
/// number of six hours from 1970-01-01T00:00:00Z.
pub proof fn lemma_cycle_hour(t: int)
    requires
        hour_of_day(t) == 0 || hour_of_day(t) == 6 || hour_of_day(t) == 12 || hour_of_day(t) == 18,
        minute_of_hour(t) == 0,
        second_of_minute(t) == 0,
    ensures
        t % 21_600 == 0,
{
    let m = t % 86_400;
    let q = t / 86_400;
    vstd::arithmetic::div_mod::lemma_fundamental_div_mod(t, 86_400);
    let s = t % 3_600;
    vstd::arithmetic::div_mod::lemma_fundamental_div_mod(t, 3_600);
    vstd::arithmetic::div_mod::lemma_fundamental_div_mod(t, 60);
    assert(s == t + 3_600 * (-(t / 3_600)));
    vstd::arithmetic::div_mod::lemma_mod_multiples_vanish(-60 * (t / 3_600), t, 60);
    assert(s % 60 == 0);
    assert(s == 0);
    assert(m == t + 3_600 * (-24 * q));
    vstd::arithmetic::div_mod::lemma_mod_multiples_vanish(-24 * q, t, 3_600);
    assert(m % 3_600 == 0);
    assert(m == 0 || m == 21_600 || m == 43_200 || m == 64_800);
    assert(t == m + 21_600 * (4 * q));
    vstd::arithmetic::div_mod::lemma_mod_multiples_vanish(4 * q, m, 21_600);
}

/// The start of the six-hour cycle in which `t` lies.
pub fn truncate_to_cycle(t: i64) -> (r: RefTime)
    requires
        is_instant(t as int),
    ensures
        is_cycle(r as int),
        r <= t < r + 21_600,
        hour_of_day(r as int) == 0 || hour_of_day(r as int) == 6 || hour_of_day(r as int) == 12
            || hour_of_day(r as int) == 18,
        minute_of_hour(r as int) == 0,
        second_of_minute(r as int) == 0,
{
    let since_first: i64 = t - FIRST_INSTANT;
    let into: i64 = since_first % CYCLE_SECONDS;
    assert(into == t % 21_600) by {
        assert(since_first == t + 2_878_112 * 21_600);
        vstd::arithmetic::div_mod::lemma_mod_multiples_vanish(2_878_112, t as int, 21_600);
    }
    proof {
        vstd::arithmetic::div_mod::lemma_mod_multiples_vanish(-(t / 21_600), t as int, 21_600);
        vstd::arithmetic::div_mod::lemma_fundamental_div_mod(t as int, 21_600);
        assert((t - into) == 21_600 * (t / 21_600));
        vstd::arithmetic::div_mod::lemma_mod_multiples_basic(t / 21_600, 21_600);
        lemma_cycle_start(t - into);
    }
    t - into
}

} // verus!
