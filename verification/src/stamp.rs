//! The stamp of a stored forecast: the cycle that issued it and the time for
//! which it is valid, and the file name that writes both.
use crate::providers::Wind;
use crate::text::{
    all_digits, chars_of, digit_of, digits_value, lemma_padded_digits, lemma_padded_reads_back,
    padded_decimal, parse_digits, push_padded_decimal,
};
use crate::time::{
    civil_instant, civil_of_instant, cycle, instant_civil, instant_of_civil, is_cycle,
    is_instant, lemma_cycle_hour, lemma_cycle_start, CivilTime, ForecastTime, RefTime,
    SECONDS_PER_HOUR,
};
use std::sync::Arc;
use vstd::prelude::*;
use vstd::string::*;

verus! {

/// Why a file name is not the name of a stamp.
#[derive(Debug, Clone, PartialEq, Eq)]
pub enum StampError {
    /// The name has not the shape of the name of a stamp; the name.
    FilenameError(String),
    /// The ten digits of the name do not write an hour of a day.
    ParseError(),
}

/// A `StampError` with its text as a sequence of characters.
pub enum StampFault {
    FilenameError(Seq<char>),
    ParseError,
}

impl View for StampError {
    type V = StampFault;

    open spec fn view(&self) -> StampFault {
        match self {
            StampError::FilenameError(name) => StampFault::FilenameError(name@),
            StampError::ParseError() => StampFault::ParseError,
        }
    }
}

/// One forecast of one cycle.
#[derive(Debug, Clone, PartialEq, Eq)]
pub struct Stamp {
    pub ref_time: RefTime,
    pub forecast_time: ForecastTime,
    /// The wind of the forecast, once it was loaded.
    pub wind: Option<Arc<Wind>>,
}

/// Whether a name has the shape of the name of a stamp: ten digits, a dot,
/// the letter `f` and three digits.
pub open spec fn is_shaped(name: Seq<char>) -> bool {
    &&& name.len() == 15
    &&& all_digits(name.subrange(0, 10))
    &&& name[10] == '.'
    &&& name[11] == 'f'
    &&& all_digits(name.subrange(12, 15))
}

/// The hour of a day that ten digits write: four of the year, then two each
/// of the month, the day and the hour.
pub open spec fn date_of(text: Seq<char>) -> CivilTime
    recommends
        text.len() == 10,
        all_digits(text),
{
    CivilTime {
        year: digits_value(text.subrange(0, 4)) as u16,
        month: digits_value(text.subrange(4, 6)) as u8,
        day: digits_value(text.subrange(6, 8)) as u8,
        hour: digits_value(text.subrange(8, 10)) as u8,
        minute: 0,
        second: 0,
    }
}

/// What a file name says: the hour at which the cycle was issued and the
/// forecast hour. The name of a stamp is `YYYYMMDDHH.fHHH`; a name of
/// another shape is no file name, and neither is one of an hour at which no
/// cycle is issued (other than 00, 06, 12 and 18). Ten digits that write no
/// hour of a day of the calendar are a parse error.
pub open spec fn stamp_of(name: Seq<char>) -> Result<(CivilTime, nat), StampFault> {
    if !is_shaped(name) {
        Err(StampFault::FilenameError(name))
    } else if !date_of(name.subrange(0, 10)).on_calendar() {
        Err(StampFault::ParseError)
    } else if !date_of(name.subrange(0, 10)).on_cycle() {
        Err(StampFault::FilenameError(name))
    } else {
        Ok((date_of(name.subrange(0, 10)), digits_value(name.subrange(12, 15))))
    }
}

/// The file name of the forecast of hour `hour` of the cycle issued at
/// `civil`.
pub open spec fn file_name_of(civil: CivilTime, hour: nat) -> Seq<char> {
    padded_decimal(civil.year as nat, 4) + padded_decimal(civil.month as nat, 2) + padded_decimal(
        civil.day as nat,
        2,
    ) + padded_decimal(civil.hour as nat, 2) + seq!['.', 'f'] + padded_decimal(hour, 3)
}

/// Reading gives back what was written: the file name of a forecast up to
/// hour 999 of a cycle of the years 0000 to 9999 says that cycle and that
/// hour, in fifteen characters.
pub proof fn lemma_file_name_reads_back(civil: CivilTime, hour: nat)
    requires
        civil.year <= 9999,
        civil.on_calendar(),
        civil.on_cycle(),
        hour <= 999,
    ensures
        file_name_of(civil, hour).len() == 15,
        stamp_of(file_name_of(civil, hour)) == Ok::<(CivilTime, nat), StampFault>((civil, hour)),
{
    let year = padded_decimal(civil.year as nat, 4);
    let month = padded_decimal(civil.month as nat, 2);
    let day = padded_decimal(civil.day as nat, 2);
    let hour_of_day = padded_decimal(civil.hour as nat, 2);
    let forecast = padded_decimal(hour, 3);
    lemma_padded_reads_back(civil.year as nat, 4);
    lemma_padded_reads_back(civil.month as nat, 2);
    lemma_padded_reads_back(civil.day as nat, 2);
    lemma_padded_reads_back(civil.hour as nat, 2);
    lemma_padded_reads_back(hour, 3);
    let name = file_name_of(civil, hour);
    let written = year + month + day + hour_of_day;
    assert(name =~= written + seq!['.', 'f'] + forecast);
    let date = name.subrange(0, 10);
    assert(date =~= written);
    assert(date.subrange(0, 4) =~= year);
    assert(date.subrange(4, 6) =~= month);
    assert(date.subrange(6, 8) =~= day);
    assert(date.subrange(8, 10) =~= hour_of_day);
    assert forall|j: int| 0 <= j < date.len() implies (#[trigger] digit_of(date[j])) is Some by {
        if j < 4 {
            assert(date[j] == year[j]);
            assert(digit_of(year[j]) is Some);
        } else if j < 6 {
            assert(date[j] == month[j - 4]);
            assert(digit_of(month[j - 4]) is Some);
        } else if j < 8 {
            assert(date[j] == day[j - 6]);
            assert(digit_of(day[j - 6]) is Some);
        } else {
            assert(date[j] == hour_of_day[j - 8]);
            assert(digit_of(hour_of_day[j - 8]) is Some);
        }
    }
    assert(name.subrange(12, 15) =~= forecast);
    assert(name[10] == '.');
    assert(name[11] == 'f');
    assert(date_of(date) == civil);
}

/// Writing gives back what was read: the file name of the hour and the
/// forecast hour that a name says is that name.
pub proof fn lemma_file_name_round_trip(name: Seq<char>)
    requires
        stamp_of(name) is Ok,
    ensures
        file_name_of(stamp_of(name)->Ok_0.0, stamp_of(name)->Ok_0.1) == name,
{
    let date = name.subrange(0, 10);
    let civil = date_of(date);
    let digits = name.subrange(12, 15);
    assert forall|i: int| 0 <= i < 4 implies (#[trigger] digit_of_at(date.subrange(0, 4), i)) by {
        assert(date.subrange(0, 4)[i] == date[i]);
        assert(digit_of(date[i]) is Some);
    }
    assert forall|i: int| 0 <= i < 2 implies (#[trigger] digit_of_at(date.subrange(4, 6), i)) by {
        assert(date.subrange(4, 6)[i] == date[i + 4]);
        assert(digit_of(date[i + 4]) is Some);
    }
    assert forall|i: int| 0 <= i < 2 implies (#[trigger] digit_of_at(date.subrange(6, 8), i)) by {
        assert(date.subrange(6, 8)[i] == date[i + 6]);
        assert(digit_of(date[i + 6]) is Some);
    }
    assert forall|i: int| 0 <= i < 2 implies (#[trigger] digit_of_at(date.subrange(8, 10), i)) by {
        assert(date.subrange(8, 10)[i] == date[i + 8]);
        assert(digit_of(date[i + 8]) is Some);
    }
    lemma_all_digits(date.subrange(0, 4));
    lemma_all_digits(date.subrange(4, 6));
    lemma_all_digits(date.subrange(6, 8));
    lemma_all_digits(date.subrange(8, 10));
    lemma_padded_digits(date.subrange(0, 4));
    lemma_padded_digits(date.subrange(4, 6));
    lemma_padded_digits(date.subrange(6, 8));
    lemma_padded_digits(date.subrange(8, 10));
    lemma_padded_digits(digits);
    lemma_digits_fit(date.subrange(0, 4));
    lemma_digits_fit(date.subrange(4, 6));
    lemma_digits_fit(date.subrange(6, 8));
    lemma_digits_fit(date.subrange(8, 10));
    assert(date =~= date.subrange(0, 4) + date.subrange(4, 6) + date.subrange(6, 8)
        + date.subrange(8, 10));
    assert(name =~= date + seq!['.', 'f'] + digits);
    assert(file_name_of(civil, digits_value(digits)) =~= name);
}

spec fn digit_of_at(text: Seq<char>, i: int) -> bool {
    digit_of(text[i]) is Some
}

proof fn lemma_all_digits(text: Seq<char>)
    requires
        forall|i: int| 0 <= i < text.len() ==> #[trigger] digit_of_at(text, i),
    ensures
        all_digits(text),
{
    assert forall|i: int| 0 <= i < text.len() implies (#[trigger] digit_of(text[i])) is Some by {
        assert(digit_of_at(text, i));
    }
}

proof fn lemma_digits_fit(text: Seq<char>)
    requires
        all_digits(text),
        text.len() <= 4,
    ensures
        digits_value(text) < 10_000,
        text.len() <= 2 ==> digits_value(text) < 100,
    decreases text.len(),
{
    if text.len() > 0 {
        assert forall|i: int| 0 <= i < text.drop_last().len() implies (#[trigger] digit_of(
            text.drop_last()[i],
        )) is Some by {
            assert(text.drop_last()[i] == text[i]);
        }
        assert(digit_of(text[text.len() - 1]) is Some);
        lemma_digits_fit_step(text.drop_last());
    }
}

proof fn lemma_digits_fit_step(text: Seq<char>)
    requires
        all_digits(text),
        text.len() <= 3,
    ensures
        digits_value(text) < 1_000,
        text.len() <= 1 ==> digits_value(text) < 10,
        text.len() <= 2 ==> digits_value(text) < 100,
    decreases text.len(),
{
    if text.len() > 0 {
        assert forall|i: int| 0 <= i < text.drop_last().len() implies (#[trigger] digit_of(
            text.drop_last()[i],
        )) is Some by {
            assert(text.drop_last()[i] == text[i]);
        }
        assert(digit_of(text[text.len() - 1]) is Some);
        lemma_digits_fit_step(text.drop_last());
    }
}

impl Stamp {
    /// Whether the stamp is one of a forecast: the cycle was issued in the
    /// years 0000 to 9999, at 00, 06, 12 or 18 o'clock, and the forecast is
    /// valid a whole number of hours later, not more than a `u16` counts.
    pub open spec fn well_formed(&self) -> bool {
        &&& is_cycle(self.ref_time as int)
        &&& self.forecast_time >= self.ref_time
        &&& (self.forecast_time - self.ref_time) % 3_600 == 0
        &&& (self.forecast_time - self.ref_time) / 3_600 <= u16::MAX
    }

    /// Whether the stamp is one of a forecast.
    pub fn is_well_formed(&self) -> (r: bool)
        ensures
            r == self.well_formed(),
    {
        if !cycle(self.ref_time) || self.forecast_time < self.ref_time {
            return false;
        }
        let ahead: i128 = (self.forecast_time as i128) - (self.ref_time as i128);
        ahead % 3_600 == 0 && ahead / 3_600 <= 65_535
    }

    /// The forecast hour: the hours from the issue of the cycle to the time
    /// for which the forecast is valid.
    pub open spec fn hour(&self) -> nat {
        ((self.forecast_time - self.ref_time) / 3_600) as nat
    }

    /// The file name of the stamp.
    pub open spec fn file_name_text(&self) -> Seq<char> {
        file_name_of(instant_civil(self.ref_time as int), self.hour())
    }

    /// The stamp of the forecast for `forecast_time` of the cycle issued at
    /// `ref_time`.
    pub fn from_forecast_time(ref_time: RefTime, forecast_time: ForecastTime) -> (r: Stamp)
        ensures
            r == (Stamp { ref_time, forecast_time, wind: None }),
    {
        Stamp { ref_time, forecast_time, wind: None }
    }

    /// The stamp of the forecast of hour `h` of the cycle issued at
    /// `ref_time`.
    pub fn from_forecast_hour(ref_time: RefTime, h: u16) -> (r: Stamp)
        requires
            is_cycle(ref_time as int),
        ensures
            r == (Stamp { ref_time, forecast_time: (ref_time + 3_600 * h) as i64, wind: None }),
            r.well_formed(),
            r.hour() == h,
    {
        Stamp { ref_time, forecast_time: ref_time + SECONDS_PER_HOUR * (h as i64), wind: None }
    }

    /// The time from `now` to the time for which the forecast is valid, in
    /// seconds.
    pub fn from_now(&self, now: i64) -> (r: i64)
        requires
            self.well_formed(),
            is_instant(now as int),
        ensures
            r == self.forecast_time - now,
    {
        self.forecast_time - now
    }

    /// The forecast hour.
    pub fn forecast_hour(&self) -> (h: u16)
        requires
            self.well_formed(),
        ensures
            h == self.hour(),
    {
        ((self.forecast_time - self.ref_time) / SECONDS_PER_HOUR) as u16
    }

    /// The name of the file that holds the forecast. Up to the forecast hour
    /// 999 it has fifteen characters and reads back as the stamp.
    pub fn file_name(&self) -> (name: String)
        requires
            self.well_formed(),
        ensures
            name@ == self.file_name_text(),
            self.hour() <= 999 ==> name@.len() == 15 && stamp_of(name@) == Ok::<
                (CivilTime, nat),
                StampFault,
            >((instant_civil(self.ref_time as int), self.hour())),
            self.ref_time == civil_instant(
                instant_civil(self.ref_time as int).year as int,
                instant_civil(self.ref_time as int).month as int,
                instant_civil(self.ref_time as int).day as int,
                instant_civil(self.ref_time as int).hour as int,
                0,
                0,
            ),
    {
        let civil: CivilTime = civil_of_instant(self.ref_time);
        proof {
            lemma_cycle_start(self.ref_time as int);
            if self.hour() <= 999 {
                lemma_file_name_reads_back(civil, self.hour());
            }
        }
        write_file_name(&civil, self.forecast_hour())
    }

    /// The text that stands for the stamp in messages: the hour of the day at
    /// which the cycle was issued, `Z+` and the forecast hour.
    pub open spec fn label_text(&self) -> Seq<char> {
        label_of(instant_civil(self.ref_time as int), self.hour())
    }

    /// The text that stands for the stamp in messages.
    pub fn label(&self) -> (text: String)
        requires
            self.well_formed(),
        ensures
            text@ == self.label_text(),
    {
        let civil: CivilTime = civil_of_instant(self.ref_time);
        write_label(&civil, self.forecast_hour())
    }

    /// Reads the name of a file as that of a stamp. The stamp that a name
    /// gives has that name.
    pub fn try_from(filename: &str) -> (r: Result<Stamp, StampError>)
        ensures
            match r {
                Ok(stamp) => {
                    &&& stamp_of(filename@) matches Ok((civil, hour)) && stamp.ref_time
                        == civil_instant(
                        civil.year as int,
                        civil.month as int,
                        civil.day as int,
                        civil.hour as int,
                        0,
                        0,
                    ) && stamp.hour() == hour
                    &&& stamp.wind is None
                    &&& stamp.well_formed()
                    &&& stamp.file_name_text() == filename@
                },
                Err(e) => stamp_of(filename@) == Err::<(CivilTime, nat), StampFault>(e@),
            },
    {
        let (civil, hour) = match read_file_name(filename) {
            Ok(read) => read,
            Err(e) => {
                return Err(e);
            },
        };
        match instant_of_civil(civil) {
            Some(ref_time) => {
                proof {
                    lemma_file_name_round_trip(filename@);
                    lemma_cycle_hour(ref_time as int);
                }
                Ok(Stamp::from_forecast_hour(ref_time, hour))
            },
            None => Err(StampError::ParseError()),
        }
    }
}

/// Reads the name of a file: the hour at which the cycle was issued and the
/// forecast hour.
pub fn read_file_name(filename: &str) -> (r: Result<(CivilTime, u16), StampError>)
    ensures
        match r {
            Ok((civil, hour)) => stamp_of(filename@) == Ok::<(CivilTime, nat), StampFault>(
                (civil, hour as nat),
            ) && civil.year <= 9999 && civil.on_calendar() && civil.on_cycle() && hour <= 999,
            Err(e) => stamp_of(filename@) == Err::<(CivilTime, nat), StampFault>(e@),
        },
{
    let chars: Vec<char> = chars_of(filename);
    let ghost name = chars@;
    if chars.len() != 15 {
        return Err(StampError::FilenameError(String::from_str(filename)));
    }
    let ghost date = name.subrange(0, 10);
    proof {
        assert(date.subrange(0, 4) =~= name.subrange(0, 4));
        assert(date.subrange(4, 6) =~= name.subrange(4, 6));
        assert(date.subrange(6, 8) =~= name.subrange(6, 8));
        assert(date.subrange(8, 10) =~= name.subrange(8, 10));
    }
    let year = match parse_digits(&chars, 0, 4) {
        Some(n) => n,
        None => {
            proof {
                lemma_not_all_digits(date, 0, 4);
            }
            return Err(StampError::FilenameError(String::from_str(filename)));
        },
    };
    let month = match parse_digits(&chars, 4, 6) {
        Some(n) => n,
        None => {
            proof {
                lemma_not_all_digits(date, 4, 6);
            }
            return Err(StampError::FilenameError(String::from_str(filename)));
        },
    };
    let day = match parse_digits(&chars, 6, 8) {
        Some(n) => n,
        None => {
            proof {
                lemma_not_all_digits(date, 6, 8);
            }
            return Err(StampError::FilenameError(String::from_str(filename)));
        },
    };
    let hour_of_day = match parse_digits(&chars, 8, 10) {
        Some(n) => n,
        None => {
            proof {
                lemma_not_all_digits(date, 8, 10);
            }
            return Err(StampError::FilenameError(String::from_str(filename)));
        },
    };
    proof {
        assert forall|k: int| 0 <= k < date.len() implies (#[trigger] digit_of(date[k])) is Some by {
            if k < 4 {
                assert(date[k] == date.subrange(0, 4)[k]);
            } else if k < 6 {
                assert(date[k] == date.subrange(4, 6)[k - 4]);
            } else if k < 8 {
                assert(date[k] == date.subrange(6, 8)[k - 6]);
            } else {
                assert(date[k] == date.subrange(8, 10)[k - 8]);
            }
        }
    }
    if chars[10] != '.' || chars[11] != 'f' {
        return Err(StampError::FilenameError(String::from_str(filename)));
    }
    let h = match parse_digits(&chars, 12, 15) {
        Some(n) => n,
        None => {
            return Err(StampError::FilenameError(String::from_str(filename)));
        },
    };
    let civil = CivilTime {
        year: year as u16,
        month: month as u8,
        day: day as u8,
        hour: hour_of_day as u8,
        minute: 0,
        second: 0,
    };
    if !civil.is_on_calendar() {
        return Err(StampError::ParseError());
    }
    if !civil.is_on_cycle() {
        return Err(StampError::FilenameError(String::from_str(filename)));
    }
    Ok((civil, h as u16))
}

/// Writes the file name of the forecast of hour `hour` of the cycle issued
/// at `civil`.
pub fn write_file_name(civil: &CivilTime, hour: u16) -> (name: String)
    ensures
        name@ == file_name_of(*civil, hour as nat),
{
    let mut name = String::new();
    push_padded_decimal(&mut name, civil.year as u64, 4);
    push_padded_decimal(&mut name, civil.month as u64, 2);
    push_padded_decimal(&mut name, civil.day as u64, 2);
    push_padded_decimal(&mut name, civil.hour as u64, 2);
    proof {
        reveal_strlit(".f");
    }
    name.append(".f");
    assert(".f"@ =~= seq!['.', 'f']);
    push_padded_decimal(&mut name, hour as u64, 3);
    name
}

/// The text that stands in messages for the forecast of hour `hour` of the
/// cycle issued at `civil`: the hour of the day at which the cycle was
/// issued, `Z+` and the forecast hour.
pub open spec fn label_of(civil: CivilTime, hour: nat) -> Seq<char> {
    padded_decimal(civil.hour as nat, 2) + seq!['Z', '+'] + padded_decimal(hour, 3)
}

/// Writes the text that stands in messages for the forecast of hour `hour`
/// of the cycle issued at `civil`.
pub fn write_label(civil: &CivilTime, hour: u16) -> (text: String)
    ensures
        text@ == label_of(*civil, hour as nat),
{
    let mut text = String::new();
    push_padded_decimal(&mut text, civil.hour as u64, 2);
    proof {
        reveal_strlit("Z+");
    }
    text.append("Z+");
    assert("Z+"@ =~= seq!['Z', '+']);
    push_padded_decimal(&mut text, hour as u64, 3);
    text
}

proof fn lemma_not_all_digits(text: Seq<char>, from: int, to: int)
    requires
        0 <= from <= to <= text.len(),
        !all_digits(text.subrange(from, to)),
    ensures
        !all_digits(text),
{
    if all_digits(text) {
        assert forall|i: int| 0 <= i < text.subrange(from, to).len() implies (
        #[trigger] crate::text::digit_of(text.subrange(from, to)[i])) is Some by {
            assert(text.subrange(from, to)[i] == text[from + i]);
            assert(crate::text::digit_of(text[from + i]) is Some);
        }
    }
}

} // verus!
