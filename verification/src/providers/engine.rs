//! What the engine of a provider decides: which stored forecasts to load,
//! which to fetch next, and which cycle is current.
use crate::error::{Error, Fault};
use crate::stamp::Stamp;
use crate::time::{
    hour_of_day, is_cycle, is_instant, lemma_cycle_start, minute_of_hour, second_of_minute,
    truncate_to_cycle, RefTime,
    CYCLE_SECONDS, FIRST_INSTANT, PUBLICATION_DELAY, SECONDS_PER_HOUR,
};
use vstd::prelude::*;
use vstd::seq_lib::*;
use vstd::string::*;

verus! {

/// Whether `a` does not come after `b`: the earlier time of validity first,
/// and of that the earlier cycle.
pub open spec fn in_order(a: Stamp, b: Stamp) -> bool {
    a.forecast_time < b.forecast_time || (a.forecast_time == b.forecast_time && a.ref_time
        <= b.ref_time)
}

/// Whether each stamp does not come after those behind it.
pub open spec fn is_sorted(stamps: Seq<Stamp>) -> bool {
    forall|i: int, j: int|
        0 <= i < j < stamps.len() ==> in_order(#[trigger] stamps[i], #[trigger] stamps[j])
}

fn precedes(a: &Stamp, b: &Stamp) -> (r: bool)
    ensures
        r == in_order(*a, *b),
{
    a.forecast_time < b.forecast_time || (a.forecast_time == b.forecast_time && a.ref_time
        <= b.ref_time)
}

/// Where `stamp` goes among sorted stamps: behind the last of the first `at`
/// stamps that does not come after it.
pub open spec fn place_of(sorted: Seq<Stamp>, stamp: Stamp, at: int) -> int
    decreases at,
{
    if at <= 0 || at > sorted.len() {
        0
    } else if in_order(sorted[at - 1], stamp) {
        at
    } else {
        place_of(sorted, stamp, at - 1)
    }
}

/// The stamps in their order; stamps of one time and one cycle keep the
/// order in which they came.
pub open spec fn sorted_of(stamps: Seq<Stamp>) -> Seq<Stamp>
    decreases stamps.len(),
{
    if stamps.len() == 0 {
        stamps
    } else {
        let sorted = sorted_of(stamps.drop_last());
        sorted.insert(place_of(sorted, stamps.last(), sorted.len() as int), stamps.last())
    }
}

/// Sorting gives the same stamps, each as often as it was there, with none
/// before one that it comes after.
pub proof fn lemma_sorted_of(stamps: Seq<Stamp>)
    ensures
        sorted_of(stamps).len() == stamps.len(),
        sorted_of(stamps).to_multiset() == stamps.to_multiset(),
        is_sorted(sorted_of(stamps)),
    decreases stamps.len(),
{
    broadcast use group_to_multiset_ensures;

    if stamps.len() > 0 {
        let rest = stamps.drop_last();
        let stamp = stamps.last();
        lemma_sorted_of(rest);
        let sorted = sorted_of(rest);
        let at = place_of(sorted, stamp, sorted.len() as int);
        lemma_place_of(sorted, stamp, sorted.len() as int);
        let result = sorted.insert(at, stamp);
        to_multiset_insert(sorted, at, stamp);
        assert(stamps =~= rest.push(stamp));
        assert forall|a: int, b: int| 0 <= a < b < result.len() implies in_order(
            #[trigger] result[a],
            #[trigger] result[b],
        ) by {
            let from = |k: int|
                if k < at {
                    k
                } else {
                    k - 1
                };
            if a == at {
                assert(result[b] == sorted[b - 1]);
                assert(!in_order(sorted[b - 1], stamp));
            } else if b == at {
                assert(result[a] == sorted[a]);
                assert(in_order(sorted[at - 1], stamp));
                if a < at - 1 {
                    assert(in_order(sorted[a], sorted[at - 1]));
                }
            } else {
                assert(result[a] == sorted[from(a)]);
                assert(result[b] == sorted[from(b)]);
                assert(in_order(sorted[from(a)], sorted[from(b)]));
            }
        }
    }
}

proof fn lemma_place_of(sorted: Seq<Stamp>, stamp: Stamp, at: int)
    requires
        0 <= at <= sorted.len(),
    ensures
        0 <= place_of(sorted, stamp, at) <= at,
        place_of(sorted, stamp, at) > 0 ==> in_order(
            sorted[place_of(sorted, stamp, at) - 1],
            stamp,
        ),
        forall|k: int|
            place_of(sorted, stamp, at) <= k < at ==> !in_order(#[trigger] sorted[k], stamp),
    decreases at,
{
    if at > 0 && !in_order(sorted[at - 1], stamp) {
        lemma_place_of(sorted, stamp, at - 1);
    }
}

/// Sorts stamps by the time for which their forecast is valid, and those for
/// one time by their cycle.
pub fn sort_stamps(stamps: &mut Vec<Stamp>)
    ensures
        final(stamps)@ == sorted_of(old(stamps)@),
        is_sorted(final(stamps)@),
        final(stamps)@.to_multiset() == old(stamps)@.to_multiset(),
        final(stamps)@.len() == old(stamps)@.len(),
{
    let ghost before = stamps@;
    proof {
        lemma_sorted_of(before);
    }
    if stamps.len() == 0 {
        return ;
    }
    let mut i: usize = 1;
    assert(stamps@ =~= sorted_of(before.take(1)) + before.skip(1)) by {
        assert(before.take(1).drop_last() =~= Seq::<Stamp>::empty());
        assert(sorted_of(before.take(1).drop_last()) =~= Seq::<Stamp>::empty());
        assert(before.take(1).last() == before[0]);
    }
    while i < stamps.len()
        invariant
            1 <= i <= before.len(),
            stamps@.len() == before.len(),
            stamps@ == sorted_of(before.take(i as int)) + before.skip(i as int),
        decreases stamps.len() - i,
    {
        let ghost sorted = sorted_of(before.take(i as int));
        proof {
            lemma_sorted_of(before.take(i as int));
        }
        let stamp: Stamp = stamps.remove(i);
        let ghost rest = stamps@;
        let mut at: usize = i;
        while at > 0 && !precedes(&stamps[at - 1], &stamp)
            invariant
                at <= i,
                i <= rest.len(),
                rest == stamps@,
                sorted.len() == i,
                rest == sorted + before.skip(i + 1),
                place_of(sorted, stamp, i as int) == place_of(sorted, stamp, at as int),
            decreases at,
        {
            assert(rest[at - 1] == sorted[at - 1]);
            at = at - 1;
        }
        proof {
            if at > 0 {
                assert(rest[at - 1] == sorted[at - 1]);
            }
        }
        stamps.insert(at, stamp);
        proof {
            assert(before.take(i + 1).drop_last() =~= before.take(i as int));
            assert(before.take(i + 1).last() == before[i as int]);
            assert(stamps@ =~= sorted_of(before.take(i + 1)) + before.skip(i + 1));
        }
        i = i + 1;
    }
    assert(before.take(i as int) =~= before);
    assert(stamps@ =~= sorted_of(before));
}

/// What is done with a stored forecast when a provider starts.
#[derive(Debug, Clone, PartialEq, Eq)]
pub enum LoadStep {
    /// The forecast is out of date: its file is deleted.
    Remove(Stamp),
    /// The forecast is registered.
    Register(Stamp),
}

impl LoadStep {
    /// The stamp of the step.
    pub open spec fn stamp(self) -> Stamp {
        match self {
            LoadStep::Remove(stamp) => stamp,
            LoadStep::Register(stamp) => stamp,
        }
    }
}

/// Whether stamp `i` of `stamps` is out of date: forecasts may be deleted,
/// and the stamp behind it is for a time before `now`. The last stamp is
/// never out of date.
pub open spec fn is_stale(stamps: Seq<Stamp>, delete: bool, now: int, i: int) -> bool {
    delete && i + 1 < stamps.len() && stamps[i + 1].forecast_time < now
}

/// The step for each stamp, in the order of the stamps.
pub open spec fn steps_of(stamps: Seq<Stamp>, delete: bool, now: int) -> Seq<LoadStep> {
    Seq::new(
        stamps.len(),
        |i: int|
            if is_stale(stamps, delete, now, i) {
                LoadStep::Remove(stamps[i])
            } else {
                LoadStep::Register(stamps[i])
            },
    )
}

/// The stamps of the steps.
pub open spec fn stamps_in(steps: Seq<LoadStep>) -> Seq<Stamp> {
    steps.map_values(|step: LoadStep| step.stamp())
}

/// Walks stamps in their order and gives the step for each: a stamp is out
/// of date when the one behind it is for a time before `now`.
pub fn walk(stamps: Vec<Stamp>, delete: bool, now: i64) -> (steps: Vec<LoadStep>)
    ensures
        steps@ == steps_of(stamps@, delete, now as int),
        stamps_in(steps@) == stamps@,
{
    let ghost all = stamps@;
    let mut stamps = stamps;
    let mut reversed: Vec<LoadStep> = Vec::new();
    let mut next_time: Option<i64> = None;
    while stamps.len() > 0
        invariant
            stamps@ == all.take(stamps@.len() as int),
            stamps@.len() <= all.len(),
            reversed@.len() == all.len() - stamps@.len(),
            match next_time {
                None => stamps@.len() == all.len(),
                Some(time) => stamps@.len() < all.len() && time == all[stamps@.len() as int].forecast_time,
            },
            forall|k: int|
                0 <= k < reversed@.len() ==> #[trigger] reversed@[k] == steps_of(
                    all,
                    delete,
                    now as int,
                )[all.len() - 1 - k],
        decreases stamps@.len(),
    {
        let ghost i = stamps@.len() - 1;
        let stamp: Stamp = match stamps.pop() {
            Some(stamp) => stamp,
            None => {
                return Vec::new();
            },
        };
        assert(stamp == all[i]);
        let time: i64 = stamp.forecast_time;
        let stale: bool = delete && match next_time {
            Some(next) => next < now,
            None => false,
        };
        reversed.push(
            if stale {
                LoadStep::Remove(stamp)
            } else {
                LoadStep::Register(stamp)
            },
        );
        next_time = Some(time);
    }
    let mut steps: Vec<LoadStep> = Vec::new();
    let ghost turned = reversed@;
    while reversed.len() > 0
        invariant
            reversed@ == turned.take(reversed@.len() as int),
            reversed@.len() <= turned.len(),
            steps@.len() == turned.len() - reversed@.len(),
            forall|k: int|
                0 <= k < steps@.len() ==> #[trigger] steps@[k] == turned[turned.len() - 1 - k],
        decreases reversed@.len(),
    {
        match reversed.pop() {
            Some(step) => {
                steps.push(step);
            },
            None => {
                return Vec::new();
            },
        }
    }
    assert(steps@ =~= steps_of(all, delete, now as int));
    assert(stamps_in(steps@) =~= all);
    steps
}

/// The steps with which a provider takes in the forecasts that storage
/// holds: the stamps are sorted and then walked.
pub fn load_plan(stamps: Vec<Stamp>, delete: bool, now: i64) -> (steps: Vec<LoadStep>)
    ensures
        steps@ == steps_of(sorted_of(stamps@), delete, now as int),
        stamps_in(steps@) == sorted_of(stamps@),
        is_sorted(stamps_in(steps@)),
        stamps_in(steps@).to_multiset() == stamps@.to_multiset(),
{
    let mut sorted = stamps;
    sort_stamps(&mut sorted);
    walk(sorted, delete, now)
}

proof fn lemma_truncated(now: int, r: int)
    requires
        r % 21_600 == 0,
        r <= now < r + 21_600,
    ensures
        r == now - now % 21_600,
{
    vstd::arithmetic::div_mod::lemma_fundamental_div_mod(r, 21_600);
    vstd::arithmetic::div_mod::lemma_fundamental_div_mod_converse(
        now,
        21_600,
        r / 21_600,
        now - r,
    );
}

proof fn lemma_cycle_before(r: int)
    requires
        r % 21_600 == 0,
    ensures
        (r - 21_600) % 21_600 == 0,
{
    vstd::arithmetic::div_mod::lemma_mod_multiples_vanish(-1, r, 21_600);
}

/// The cycle that upstream serves at `now`: the one in which `now` lies,
/// once three hours and a half of it have gone, and until then the one before
/// it.
pub fn current_ref_time(now: i64) -> (r: RefTime)
    requires
        is_instant(now as int),
        now >= FIRST_INSTANT + CYCLE_SECONDS,
    ensures
        is_cycle(r as int),
        r == if now % 21_600 < PUBLICATION_DELAY {
            now - now % 21_600 - 21_600
        } else {
            now - now % 21_600
        },
        hour_of_day(r as int) == 0 || hour_of_day(r as int) == 6 || hour_of_day(r as int) == 12
            || hour_of_day(r as int) == 18,
        minute_of_hour(r as int) == 0,
        second_of_minute(r as int) == 0,
{
    let ref_time: RefTime = truncate_to_cycle(now);
    proof {
        lemma_truncated(now as int, ref_time as int);
    }
    if now - ref_time < PUBLICATION_DELAY {
        proof {
            lemma_cycle_before(ref_time as int);
            lemma_cycle_start(ref_time - 21_600);
        }
        ref_time - CYCLE_SECONDS
    } else {
        ref_time
    }
}

/// When the cycle in which `now` lies is published.
pub fn next_update_time(now: i64) -> (r: i64)
    requires
        is_instant(now as int),
    ensures
        r == now - now % 21_600 + PUBLICATION_DELAY,
{
    let ref_time: RefTime = truncate_to_cycle(now);
    proof {
        lemma_truncated(now as int, ref_time as int);
    }
    ref_time + PUBLICATION_DELAY
}

/// The forecast hour at which a pass over a cycle starts.
pub const FIRST_HOUR: u16 = 6;

/// How the attempt to have one forecast went.
#[derive(Debug, Clone, Copy, PartialEq, Eq, Structural)]
pub enum Outcome {
    /// Storage holds the forecast already.
    Stored,
    /// The forecast was fetched and stored.
    Downloaded,
    /// Upstream has not published the forecast.
    NotFound,
    /// The attempt failed otherwise.
    Failed,
}

/// Where a pass over the forecasts of a cycle stands.
pub struct PassModel {
    /// The cycle of which forecasts are fetched.
    pub ref_time: RefTime,
    /// The forecast hour that is tried next.
    pub hour: nat,
    /// Whether no forecast was tried yet, of this cycle or of another.
    pub first: bool,
    /// Whether a forecast was fetched.
    pub something_new: bool,
    /// Whether the pass is over.
    pub finished: bool,
    /// The hours from one forecast of a cycle to the next.
    pub step: u16,
    /// The last forecast hour of a cycle.
    pub max_forecast_hour: u16,
}

impl PassModel {
    /// Whether the forecast of hour `hour` is for a time that lies `step`
    /// hours or more before `now`.
    pub open spec fn is_past(self, hour: nat, now: int) -> bool {
        self.ref_time + 3_600 * hour - now <= -3_600 * self.step
    }

    /// The first forecast hour from `hour` on, in steps of `step`, that is
    /// not past, if there is one up to the last hour of the cycle.
    pub open spec fn next_hour(self, hour: nat, now: int) -> Option<nat>
        decreases
            if hour <= self.max_forecast_hour {
                self.max_forecast_hour + 1 - hour
            } else {
                0
            },
    {
        if hour > self.max_forecast_hour || self.step == 0 {
            None
        } else if self.is_past(hour, now) {
            self.next_hour((hour + self.step) as nat, now)
        } else {
            Some(hour)
        }
    }

    /// The stamp of the forecast that is tried next, if the pass goes on.
    pub open spec fn candidate(self, now: int) -> Option<Stamp> {
        if self.finished {
            None
        } else {
            match self.next_hour(self.hour, now) {
                None => None,
                Some(hour) => Some(
                    Stamp {
                        ref_time: self.ref_time,
                        forecast_time: (self.ref_time + 3_600 * hour) as i64,
                        wind: None,
                    },
                ),
            }
        }
    }

    /// The pass after it was asked for its candidate: at the hour of the
    /// candidate, or over.
    pub open spec fn asked(self, now: int) -> PassModel {
        if self.finished {
            self
        } else {
            match self.next_hour(self.hour, now) {
                None => PassModel { finished: true, ..self },
                Some(hour) => PassModel { hour, ..self },
            }
        }
    }

    /// The pass after the attempt at its candidate. A forecast that is there
    /// leads on to the next hour. One that upstream does not have ends the
    /// pass, unless it was the first that was tried: then the cycle before
    /// is taken, from its first hour on, as long as there is one.
    pub open spec fn after(self, outcome: Outcome) -> PassModel {
        match outcome {
            Outcome::Stored => PassModel {
                hour: self.hour + self.step as nat,
                first: false,
                ..self
            },
            Outcome::Downloaded => PassModel {
                hour: self.hour + self.step as nat,
                first: false,
                something_new: true,
                ..self
            },
            Outcome::NotFound => if self.first && self.ref_time - CYCLE_SECONDS >= FIRST_INSTANT {
                PassModel {
                    ref_time: (self.ref_time - CYCLE_SECONDS) as i64,
                    hour: FIRST_HOUR as nat,
                    first: false,
                    something_new: false,
                    ..self
                }
            } else {
                PassModel { finished: true, ..self }
            },
            Outcome::Failed => PassModel { finished: true, ..self },
        }
    }

    /// Whether the pass can be worked on: its cycle is one, and its hour not
    /// far beyond the last of the cycle.
    pub open spec fn well_formed(self) -> bool {
        &&& is_cycle(self.ref_time as int)
        &&& self.step > 0
        &&& self.hour <= self.max_forecast_hour + self.step + FIRST_HOUR
    }
}

/// A pass over the forecasts of a cycle, from hour six to the last, that
/// fetches what storage does not hold.
#[derive(Debug, Clone)]
pub struct DownloadPass {
    ref_time: RefTime,
    hour: u32,
    first: bool,
    something_new: bool,
    finished: bool,
    step: u16,
    max_forecast_hour: u16,
}

impl View for DownloadPass {
    type V = PassModel;

    closed spec fn view(&self) -> PassModel {
        PassModel {
            ref_time: self.ref_time,
            hour: self.hour as nat,
            first: self.first,
            something_new: self.something_new,
            finished: self.finished,
            step: self.step,
            max_forecast_hour: self.max_forecast_hour,
        }
    }
}

impl DownloadPass {
    /// A pass over the cycle issued at `ref_time`, before anything was tried.
    pub fn new(ref_time: RefTime, step: u16, max_forecast_hour: u16) -> (r: DownloadPass)
        requires
            is_cycle(ref_time as int),
            step > 0,
        ensures
            r@ == (PassModel {
                ref_time,
                hour: FIRST_HOUR as nat,
                first: true,
                something_new: false,
                finished: false,
                step,
                max_forecast_hour,
            }),
            r@.well_formed(),
    {
        DownloadPass {
            ref_time,
            hour: FIRST_HOUR as u32,
            first: true,
            something_new: false,
            finished: false,
            step,
            max_forecast_hour,
        }
    }

    /// Whether a forecast was fetched.
    pub fn something_new(&self) -> (r: bool)
        ensures
            r == self@.something_new,
    {
        self.something_new
    }

    /// Whether the pass is over.
    pub fn is_finished(&self) -> (r: bool)
        ensures
            r == self@.finished,
    {
        self.finished
    }

    /// The cycle of which forecasts are fetched.
    pub fn ref_time(&self) -> (r: RefTime)
        ensures
            r == self@.ref_time,
    {
        self.ref_time
    }

    /// The stamp of the forecast to try next: the first from where the pass
    /// stands that is not for a time `step` hours or more before `now`.
    /// Nothing when the cycle has no such forecast left; the pass is then
    /// over.
    pub fn next(&mut self, now: i64) -> (r: Option<Stamp>)
        requires
            old(self)@.well_formed(),
            is_instant(now as int),
        ensures
            r == old(self)@.candidate(now as int),
            final(self)@ == old(self)@.asked(now as int),
            final(self)@.well_formed(),
            r matches Some(stamp) ==> stamp.well_formed() && !final(self)@.finished,
            r is None ==> final(self)@.finished,
    {
        if self.finished {
            return None;
        }
        let ghost start = self@;
        let ref_time: i64 = self.ref_time;
        let step: u32 = self.step as u32;
        let last: u32 = self.max_forecast_hour as u32;
        let limit: i64 = -(SECONDS_PER_HOUR * (self.step as i64));
        let mut hour: u32 = self.hour;
        while hour <= last && ref_time + SECONDS_PER_HOUR * (hour as i64) - now <= limit
            invariant
                limit == -3_600 * start.step,
                start.well_formed(),
                ref_time == start.ref_time,
                step == start.step,
                last == start.max_forecast_hour,
                hour <= last + step + FIRST_HOUR,
                is_instant(now as int),
                start.next_hour(start.hour, now as int) == start.next_hour(hour as nat, now as int),
            decreases
                if hour <= last {
                    last + 1 - hour
                } else {
                    0
                },
        {
            hour = hour + step;
        }
        if hour > last {
            self.finished = true;
            return None;
        }
        self.hour = hour;
        Some(Stamp::from_forecast_time(ref_time, ref_time + SECONDS_PER_HOUR * (hour as i64)))
    }

    /// Takes note of how the attempt at the forecast that `next` gave went.
    pub fn record(&mut self, outcome: Outcome)
        requires
            old(self)@.well_formed(),
            !old(self)@.finished,
            old(self)@.hour <= old(self)@.max_forecast_hour,
        ensures
            final(self)@ == old(self)@.after(outcome),
            final(self)@.well_formed(),
    {
        match outcome {
            Outcome::Stored => {
                self.hour = self.hour + self.step as u32;
                self.first = false;
            },
            Outcome::Downloaded => {
                self.hour = self.hour + self.step as u32;
                self.first = false;
                self.something_new = true;
            },
            Outcome::NotFound => {
                if self.first && self.ref_time - CYCLE_SECONDS >= FIRST_INSTANT {
                    proof {
                        lemma_cycle_before(self.ref_time as int);
                    }
                    self.ref_time = self.ref_time - CYCLE_SECONDS;
                    self.hour = FIRST_HOUR as u32;
                    self.first = false;
                    self.something_new = false;
                } else {
                    self.finished = true;
                }
            },
            Outcome::Failed => {
                self.finished = true;
            },
        }
    }
}

/// The status with which upstream answers a forecast that it has.
pub const FOUND: u16 = 200;

/// The status with which upstream answers a forecast that it has not
/// published.
pub const NOT_FOUND: u16 = 404;

/// The seconds after which a request to upstream is given up.
pub const REQUEST_TIMEOUT: u64 = 30;

/// The seconds from one pass of downloads to the next.
pub const DOWNLOAD_PERIOD: u64 = 300;

/// The seconds from one reconciliation with storage to the next.
pub const REFRESH_PERIOD: u64 = 10;

/// What the status of an answer of upstream says of the forecast that was
/// asked for.
pub fn check_status(status_code: u16) -> (r: Result<(), Error>)
    ensures
        match r {
            Ok(_) => status_code == FOUND,
            Err(e) => status_code != FOUND && e@ == if status_code == NOT_FOUND {
                Fault::StampNotFoundError
            } else {
                Fault::Error
            },
        },
{
    if status_code == FOUND {
        Ok(())
    } else if status_code == NOT_FOUND {
        Err(Error::StampNotFoundError())
    } else {
        Err(Error::Error())
    }
}

impl Outcome {
    /// How an attempt went that ended with `result`.
    pub open spec fn of_result(result: Result<(), Fault>) -> Outcome {
        match result {
            Ok(_) => Outcome::Downloaded,
            Err(Fault::StampNotFoundError) => Outcome::NotFound,
            Err(_) => Outcome::Failed,
        }
    }

    /// How an attempt went that ended with `result`.
    pub fn from_result(result: &Result<(), Error>) -> (r: Outcome)
        ensures
            r == Outcome::of_result(
                match result {
                    Ok(_) => Ok(()),
                    Err(e) => Err(e@),
                },
            ),
    {
        match result {
            Ok(_) => Outcome::Downloaded,
            Err(Error::StampNotFoundError()) => Outcome::NotFound,
            Err(_) => Outcome::Failed,
        }
    }
}

/// The arguments with which the converter is called that writes the values
/// of a GRIB file at ten metres above ground as messages: the file `input`
/// is read and the file `output` written.
pub fn converter_arguments(output: &str, input: &str) -> (arguments: Vec<String>)
    ensures
        arguments@.len() == 10,
        arguments@[0]@ == "--data"@,
        arguments@[1]@ == "--names"@,
        arguments@[2]@ == "--fs"@,
        arguments@[3]@ == "103"@,
        arguments@[4]@ == "--fv"@,
        arguments@[5]@ == "10"@,
        arguments@[6]@ == "--compact"@,
        arguments@[7]@ == "--output"@,
        arguments@[8]@ == output@,
        arguments@[9]@ == input@,
{
    let mut arguments: Vec<String> = Vec::new();
    arguments.push(String::from_str("--data"));
    arguments.push(String::from_str("--names"));
    arguments.push(String::from_str("--fs"));
    arguments.push(String::from_str("103"));
    arguments.push(String::from_str("--fv"));
    arguments.push(String::from_str("10"));
    arguments.push(String::from_str("--compact"));
    arguments.push(String::from_str("--output"));
    arguments.push(String::from_str(output));
    arguments.push(String::from_str(input));
    arguments
}

} // verus!
