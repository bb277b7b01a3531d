//! The inventory of a provider: the forecasts that are known, by the time for
//! which they are valid.
use crate::providers::listing::{
    lemma_lists_len, lemma_lists_remove, lemma_lists_with_stamp, lemma_times, lists,
    times_in_order, times_of,
};
use crate::providers::Wind;
use crate::stamp::Stamp;
use crate::text::{decimal_text, push_decimal};
use crate::time::{is_cycle, is_instant, ForecastTime, RefTime};
use std::collections::BTreeMap;
use std::sync::Arc;
use vstd::prelude::*;
use vstd::std_specs::btree::*;
use vstd::string::*;

verus! {

/// The known forecasts: for each time for which one is valid, the stamps of
/// the forecasts for that time.
pub type Forecasts = Seq<(ForecastTime, Seq<Stamp>)>;

/// The place of the first entry from `from` on whose time is not before
/// `time`, or the number of entries if there is none.
pub open spec fn lower_bound(forecasts: Forecasts, time: int, from: int) -> int
    decreases forecasts.len() - from,
{
    if from < 0 || from >= forecasts.len() || forecasts[from].0 >= time {
        from
    } else {
        lower_bound(forecasts, time, from + 1)
    }
}

/// Whether the entries stand in the order of their times, no time twice,
/// none without a stamp, and every stamp the stamp of a forecast, under the
/// time for which that forecast is valid.
pub open spec fn is_inventory(forecasts: Forecasts) -> bool {
    &&& forall|i: int, j: int|
        0 <= i < j < forecasts.len() ==> (#[trigger] forecasts[i]).0 < (#[trigger] forecasts[j]).0
    &&& forall|i: int| 0 <= i < forecasts.len() ==> (#[trigger] forecasts[i]).1.len() > 0
    &&& forall|i: int, k: int|
        0 <= i < forecasts.len() && 0 <= k < forecasts[i].1.len() ==> (
        #[trigger] forecasts[i].1[k]).forecast_time == forecasts[i].0 && forecasts[i].1[k].well_formed()
}

/// Whether there are forecasts for `time`.
pub open spec fn has_key(forecasts: Forecasts, time: int) -> bool {
    exists|i: int| 0 <= i < forecasts.len() && (#[trigger] forecasts[i]).0 == time
}

/// The forecasts with `stamp` behind the stamps for its time.
pub open spec fn with_stamp(forecasts: Forecasts, stamp: Stamp) -> Forecasts {
    let at = lower_bound(forecasts, stamp.forecast_time as int, 0);
    if at < forecasts.len() && forecasts[at].0 == stamp.forecast_time {
        forecasts.update(at, (stamp.forecast_time, forecasts[at].1.push(stamp)))
    } else {
        forecasts.insert(at, (stamp.forecast_time, seq![stamp]))
    }
}

/// The forecasts without those for `time`.
pub open spec fn without_time(forecasts: Forecasts, time: int) -> Forecasts {
    let at = lower_bound(forecasts, time, 0);
    if at < forecasts.len() && forecasts[at].0 == time {
        forecasts.remove(at)
    } else {
        forecasts
    }
}

/// The stamps for `time`.
pub open spec fn stamps_at(forecasts: Forecasts, time: int) -> Seq<Stamp> {
    let at = lower_bound(forecasts, time, 0);
    if at < forecasts.len() && forecasts[at].0 == time {
        forecasts[at].1
    } else {
        Seq::empty()
    }
}

/// The first place that `lower_bound` finds is in range, no entry in front of
/// it is as late as `time`, and the entry at it, if there is one, is.
pub proof fn lemma_lower_bound(forecasts: Forecasts, time: int, from: int)
    requires
        0 <= from <= forecasts.len(),
    ensures
        from <= lower_bound(forecasts, time, from) <= forecasts.len(),
        forall|i: int|
            from <= i < lower_bound(forecasts, time, from) ==> (#[trigger] forecasts[i]).0 < time,
        lower_bound(forecasts, time, from) < forecasts.len() ==> forecasts[lower_bound(
            forecasts,
            time,
            from,
        )].0 >= time,
    decreases forecasts.len() - from,
{
    if from < forecasts.len() && forecasts[from].0 < time {
        lemma_lower_bound(forecasts, time, from + 1);
    }
}

/// In an inventory there are forecasts for a time exactly where the entry
/// that `lower_bound` finds has that time.
pub proof fn lemma_has_key(forecasts: Forecasts, time: int)
    requires
        is_inventory(forecasts),
    ensures
        has_key(forecasts, time) <==> lower_bound(forecasts, time, 0) < forecasts.len()
            && forecasts[lower_bound(forecasts, time, 0)].0 == time,
{
    lemma_lower_bound(forecasts, time, 0);
    let at = lower_bound(forecasts, time, 0);
    if has_key(forecasts, time) {
        let i = choose|i: int| 0 <= i < forecasts.len() && (#[trigger] forecasts[i]).0 == time;
        if i < at {
            assert(forecasts[i].0 < time);
        } else if i > at {
            assert(forecasts[at].0 < forecasts[i].0);
        }
    }
}

/// Adding the stamp of a forecast to an inventory gives an inventory.
pub proof fn lemma_with_stamp(forecasts: Forecasts, stamp: Stamp)
    requires
        is_inventory(forecasts),
        stamp.well_formed(),
    ensures
        is_inventory(with_stamp(forecasts, stamp)),
        has_key(with_stamp(forecasts, stamp), stamp.forecast_time as int),
{
    lemma_lower_bound(forecasts, stamp.forecast_time as int, 0);
    let at = lower_bound(forecasts, stamp.forecast_time as int, 0);
    let after = with_stamp(forecasts, stamp);
    if at < forecasts.len() && forecasts[at].0 == stamp.forecast_time {
        assert(after[at].0 == stamp.forecast_time);
        assert forall|i: int, k: int|
            0 <= i < after.len() && 0 <= k < after[i].1.len() implies (#[trigger] after[i].1[k]).forecast_time
            == after[i].0 && after[i].1[k].well_formed() by {
            if i == at {
                if k < forecasts[at].1.len() {
                    assert(after[i].1[k] == forecasts[at].1[k]);
                }
            } else {
                assert(after[i] == forecasts[i]);
                assert(after[i].1[k] == forecasts[i].1[k]);
            }
        }
        assert forall|i: int, j: int| 0 <= i < j < after.len() implies (#[trigger] after[i]).0 < (
        #[trigger] after[j]).0 by {
            assert(after[i].0 == forecasts[i].0);
            assert(after[j].0 == forecasts[j].0);
        }
        assert forall|i: int| 0 <= i < after.len() implies (#[trigger] after[i]).1.len() > 0 by {
            if i != at {
                assert(after[i] == forecasts[i]);
            }
        }
    } else {
        assert(after[at].0 == stamp.forecast_time);
        assert forall|i: int, j: int| 0 <= i < j < after.len() implies (#[trigger] after[i]).0 < (
        #[trigger] after[j]).0 by {
            if i < at {
                assert(after[i] == forecasts[i]);
            } else if i > at {
                assert(after[i] == forecasts[i - 1]);
            }
            if j < at {
                assert(after[j] == forecasts[j]);
            } else if j > at {
                assert(after[j] == forecasts[j - 1]);
                if at < forecasts.len() {
                    assert(forecasts[at].0 <= forecasts[j - 1].0);
                }
            }
        }
        assert forall|i: int| 0 <= i < after.len() implies (#[trigger] after[i]).1.len() > 0 by {
            if i < at {
                assert(after[i] == forecasts[i]);
            } else if i > at {
                assert(after[i] == forecasts[i - 1]);
            }
        }
        assert forall|i: int, k: int|
            0 <= i < after.len() && 0 <= k < after[i].1.len() implies (#[trigger] after[i].1[k]).forecast_time
            == after[i].0 && after[i].1[k].well_formed() by {
            if i < at {
                assert(after[i] == forecasts[i]);
                assert(after[i].1[k] == forecasts[i].1[k]);
            } else if i > at {
                assert(after[i] == forecasts[i - 1]);
                assert(after[i].1[k] == forecasts[i - 1].1[k]);
            }
        }
    }
}

/// Taking the forecasts for a time out of an inventory gives an inventory
/// without forecasts for that time.
pub proof fn lemma_without_time(forecasts: Forecasts, time: int)
    requires
        is_inventory(forecasts),
    ensures
        is_inventory(without_time(forecasts, time)),
        !has_key(without_time(forecasts, time), time),
{
    lemma_lower_bound(forecasts, time, 0);
    lemma_has_key(forecasts, time);
    let at = lower_bound(forecasts, time, 0);
    let after = without_time(forecasts, time);
    if at < forecasts.len() && forecasts[at].0 == time {
        assert forall|i: int| 0 <= i < after.len() implies #[trigger] after[i] == forecasts[if i
            < at {
            i
        } else {
            i + 1
        }] by {}
        assert forall|i: int, j: int| 0 <= i < j < after.len() implies (#[trigger] after[i]).0 < (
        #[trigger] after[j]).0 by {
            let a = if i < at {
                i
            } else {
                i + 1
            };
            let b = if j < at {
                j
            } else {
                j + 1
            };
            assert(forecasts[a].0 < forecasts[b].0);
        }
        assert forall|i: int| 0 <= i < after.len() implies (#[trigger] after[i]).1.len() > 0 by {
            let a = if i < at {
                i
            } else {
                i + 1
            };
            assert(forecasts[a].1.len() > 0);
        }
        assert forall|i: int, k: int|
            0 <= i < after.len() && 0 <= k < after[i].1.len() implies (#[trigger] after[i].1[k]).forecast_time
            == after[i].0 && after[i].1[k].well_formed() by {
            let a = if i < at {
                i
            } else {
                i + 1
            };
            assert(forecasts[a].1[k].forecast_time == forecasts[a].0);
        }
        if has_key(after, time) {
            let i = choose|i: int| 0 <= i < after.len() && (#[trigger] after[i]).0 == time;
            let a = if i < at {
                i
            } else {
                i + 1
            };
            assert(forecasts[a].0 == time);
            if a < at {
                assert(forecasts[a].0 < forecasts[at].0);
            } else {
                assert(forecasts[at].0 < forecasts[a].0);
            }
        }
    }
}

/// What is known of the forecasts of one provider. The forecasts are kept in
/// a map by the time for which they are valid; the entries of the map in the
/// order of their times are what the contracts speak of.
pub struct Status {
    provider: String,
    provider_name: String,
    current_ref_time: RefTime,
    last: Option<Stamp>,
    progress: u8,
    forecasts: BTreeMap<ForecastTime, Vec<Stamp>>,
    /// The entries of `forecasts` in the order of their times.
    listing: Ghost<Forecasts>,
}

/// A `Status` with its texts and lists as sequences.
pub struct StatusModel {
    pub provider: Seq<char>,
    pub provider_name: Seq<char>,
    /// The cycle that is served.
    pub current_ref_time: RefTime,
    /// The stamp of the latest forecast of the latest cycle that was seen.
    pub last: Option<Stamp>,
    /// How far the latest cycle has come, in hundredths.
    pub progress: u8,
    pub forecasts: Forecasts,
}

impl View for Status {
    type V = StatusModel;

    closed spec fn view(&self) -> StatusModel {
        StatusModel {
            provider: self.provider@,
            provider_name: self.provider_name@,
            current_ref_time: self.current_ref_time,
            last: self.last,
            progress: self.progress,
            forecasts: self.listing@,
        }
    }
}

impl StatusModel {
    /// Whether the forecasts are an inventory, and the latest stamp, if there
    /// is one, is the stamp of a forecast.
    pub open spec fn well_formed(self) -> bool {
        &&& is_inventory(self.forecasts)
        &&& self.last matches Some(last) ==> last.well_formed()
    }

    /// The text that stands for the status in messages: the provider, the
    /// latest forecast if there is one, and the progress.
    pub open spec fn description(self) -> Seq<char> {
        match self.last {
            Some(last) => self.provider + seq![' ', '-', ' ', '`'] + last.label_text() + seq![
                '`',
                ' ',
                ':',
                ' ',
            ] + decimal_text(self.progress as nat) + seq!['%'],
            None => self.provider + seq![' ', ':', ' '] + decimal_text(self.progress as nat)
                + seq!['%'],
        }
    }
}

/// How far a cycle of `max_forecast_time` hours has come with the forecast
/// of hour `forecast_time`, in hundredths and not above 100.
pub open spec fn progress_of(forecast_time: u16, max_forecast_time: u16) -> u8
    recommends
        max_forecast_time > 0,
{
    if 100 * forecast_time / (max_forecast_time as int) > 100 {
        100
    } else {
        (100 * forecast_time / (max_forecast_time as int)) as u8
    }
}

impl Status {
    #[verifier::type_invariant]
    spec fn inv(self) -> bool {
        &&& lists(self.listing@, self.forecasts@)
        &&& is_inventory(self.listing@)
        &&& self.last matches Some(last) ==> last.well_formed()
    }

    /// The status of a provider of which no forecast is known.
    pub fn new(provider: String, provider_name: String, current_ref_time: RefTime) -> (r: Status)
        ensures
            r@ == (StatusModel {
                provider: provider@,
                provider_name: provider_name@,
                current_ref_time,
                last: None,
                progress: 0,
                forecasts: Seq::empty(),
            }),
            r@.well_formed(),
    {
        Status {
            provider,
            provider_name,
            current_ref_time,
            last: None,
            progress: 0,
            forecasts: BTreeMap::new(),
            listing: Ghost(Seq::empty()),
        }
    }

    /// Takes the status out and leaves an empty one in its place.
    fn take(&mut self) -> (taken: Status)
        ensures
            taken == *old(self),
    {
        let mut taken = Status::new(String::new(), String::new(), 0);
        core::mem::swap(self, &mut taken);
        taken
    }

    pub fn provider(&self) -> (r: &String)
        ensures
            r@ == self@.provider,
    {
        &self.provider
    }

    pub fn provider_name(&self) -> (r: &String)
        ensures
            r@ == self@.provider_name,
    {
        &self.provider_name
    }

    pub fn current_ref_time(&self) -> (r: RefTime)
        ensures
            r == self@.current_ref_time,
    {
        self.current_ref_time
    }

    /// The stamp of the latest forecast of the latest cycle, without its
    /// wind.
    pub fn get_last(&self) -> (r: Option<Stamp>)
        ensures
            match r {
                Some(stamp) => self@.last matches Some(last) && stamp == (Stamp {
                    ref_time: last.ref_time,
                    forecast_time: last.forecast_time,
                    wind: None,
                }),
                None => self@.last is None,
            },
    {
        match &self.last {
            Some(last) => Some(
                Stamp { ref_time: last.ref_time, forecast_time: last.forecast_time, wind: None },
            ),
            None => None,
        }
    }

    /// The text that stands for the status in messages.
    pub fn describe(&self) -> (text: String)
        ensures
            text@ == self@.description(),
    {
        proof {
            use_type_invariant(self);
        }
        let mut text = self.provider.clone();
        match &self.last {
            Some(last) => {
                proof {
                    reveal_strlit(" - `");
                    reveal_strlit("` : ");
                }
                text.append(" - `");
                text.append(last.label().as_str());
                text.append("` : ");
                assert(" - `"@ =~= seq![' ', '-', ' ', '`']);
                assert("` : "@ =~= seq!['`', ' ', ':', ' ']);
            },
            None => {
                proof {
                    reveal_strlit(" : ");
                }
                text.append(" : ");
                assert(" : "@ =~= seq![' ', ':', ' ']);
            },
        }
        push_decimal(&mut text, self.progress as u64);
        proof {
            reveal_strlit("%");
        }
        text.append("%");
        assert("%"@ =~= seq!['%']);
        text
    }

    pub fn get_progress(&self) -> (r: u8)
        ensures
            r == self@.progress,
    {
        self.progress
    }

    pub fn set_current_ref_time(&mut self, ref_time: RefTime)
        ensures
            final(self)@ == (StatusModel { current_ref_time: ref_time, ..old(self)@ }),
            final(self)@.well_formed(),
    {
        proof {
            use_type_invariant(&*self);
        }
        self.current_ref_time = ref_time;
    }

    /// The number of times for which forecasts are known.
    pub fn len(&self) -> (n: usize)
        ensures
            n == self@.forecasts.len(),
    {
        broadcast use vstd::std_specs::btree::group_btree_axioms;

        proof {
            use_type_invariant(self);
            lemma_lists_len(self.listing@, self.forecasts@);
        }
        self.forecasts.len()
    }

    /// The time of entry `i`, and the cycles of the forecasts for that time.
    pub fn entry(&self, i: usize) -> (r: (ForecastTime, Vec<RefTime>))
        requires
            i < self@.forecasts.len(),
        ensures
            r.0 == self@.forecasts[i as int].0,
            r.1@.len() == self@.forecasts[i as int].1.len(),
            forall|k: int|
                0 <= k < r.1@.len() ==> r.1@[k] == (#[trigger] self@.forecasts[i as int].1[k]).ref_time,
    {
        broadcast use vstd::std_specs::btree::group_btree_axioms;

        proof {
            use_type_invariant(self);
        }
        let times: Vec<ForecastTime> = times_in_order(&self.forecasts);
        proof {
            lemma_times(times@, self.listing@, self.forecasts@);
            assert(times@[i as int] == times_of(self.listing@)[i as int]);
        }
        let time: ForecastTime = times[i];
        let mut ref_times: Vec<RefTime> = Vec::new();
        match self.forecasts.get(&time) {
            Some(stamps) => {
                let mut k: usize = 0;
                while k < stamps.len()
                    invariant
                        k <= stamps.len(),
                        ref_times@.len() == k,
                        forall|j: int|
                            0 <= j < k ==> ref_times@[j] == (#[trigger] stamps@[j]).ref_time,
                    decreases stamps.len() - k,
                {
                    ref_times.push(stamps[k].ref_time);
                    k = k + 1;
                }
            },
            None => {},
        }
        (time, ref_times)
    }

    /// Whether there are forecasts for `forecast_time`.
    pub fn contains_key(&self, forecast_time: &ForecastTime) -> (r: bool)
        ensures
            r == has_key(self@.forecasts, *forecast_time as int),
    {
        broadcast use vstd::std_specs::btree::group_btree_axioms;

        proof {
            use_type_invariant(self);
            if has_key(self@.forecasts, *forecast_time as int) {
                let i = choose|i: int|
                    0 <= i < self.listing@.len() && (#[trigger] self.listing@[i]).0
                        == *forecast_time;
                assert(self.forecasts@.contains_key(self.listing@[i].0));
            }
        }
        self.forecasts.contains_key(forecast_time)
    }

    /// Puts the stamp behind the stamps for the time for which its forecast
    /// is valid.
    pub fn add_forecast(&mut self, forecast: Stamp)
        requires
            forecast.well_formed(),
        ensures
            final(self)@ == (StatusModel {
                forecasts: with_stamp(old(self)@.forecasts, forecast),
                ..old(self)@
            }),
            final(self)@.well_formed(),
            has_key(final(self)@.forecasts, forecast.forecast_time as int),
    {
        broadcast use vstd::std_specs::btree::group_btree_axioms;

        proof {
            use_type_invariant(&*self);
            lemma_with_stamp(self@.forecasts, forecast);
        }
        let Status { provider, provider_name, current_ref_time, last, progress, forecasts, listing } =
            self.take();
        let mut forecasts = forecasts;
        let ghost before = forecasts@;
        let time: ForecastTime = forecast.forecast_time;
        let mut stamps: Vec<Stamp> = match forecasts.remove(&time) {
            Some(stamps) => stamps,
            None => Vec::new(),
        };
        proof {
            lemma_lower_bound(listing@, time as int, 0);
            lemma_has_key(listing@, time as int);
            if has_key(listing@, time as int) {
                assert(before.contains_key(listing@[lower_bound(listing@, time as int, 0)].0));
            }
            assert(stamps@ =~= stamps_at(listing@, time as int));
        }
        stamps.push(forecast);
        forecasts.insert(time, stamps);
        proof {
            lemma_lists_with_stamp(listing@, before, forecast, forecasts@);
        }
        *self = Status {
            provider,
            provider_name,
            current_ref_time,
            last,
            progress,
            forecasts,
            listing: Ghost(with_stamp(listing@, forecast)),
        };
    }

    /// Takes out the forecasts for `forecast_time` and gives their stamps.
    pub fn remove_forecast(&mut self, forecast_time: &ForecastTime) -> (removed: Vec<Stamp>)
        ensures
            final(self)@ == (StatusModel {
                forecasts: without_time(old(self)@.forecasts, *forecast_time as int),
                ..old(self)@
            }),
            removed@ == stamps_at(old(self)@.forecasts, *forecast_time as int),
            final(self)@.well_formed(),
            !has_key(final(self)@.forecasts, *forecast_time as int),
    {
        broadcast use vstd::std_specs::btree::group_btree_axioms;

        proof {
            use_type_invariant(&*self);
            lemma_without_time(self@.forecasts, *forecast_time as int);
        }
        let Status { provider, provider_name, current_ref_time, last, progress, forecasts, listing } =
            self.take();
        let mut forecasts = forecasts;
        let ghost before = forecasts@;
        let removed: Vec<Stamp> = match forecasts.remove(forecast_time) {
            Some(stamps) => stamps,
            None => Vec::new(),
        };
        proof {
            lemma_lower_bound(listing@, *forecast_time as int, 0);
            lemma_has_key(listing@, *forecast_time as int);
            let at = lower_bound(listing@, *forecast_time as int, 0);
            if has_key(listing@, *forecast_time as int) {
                assert(before.contains_key(listing@[at].0));
                lemma_lists_remove(listing@, before, at);
            } else {
                assert(forecasts@ =~= before);
            }
            assert(removed@ =~= stamps_at(listing@, *forecast_time as int));
        }
        *self = Status {
            provider,
            provider_name,
            current_ref_time,
            last,
            progress,
            forecasts,
            listing: Ghost(without_time(listing@, *forecast_time as int)),
        };
        removed
    }

    /// Takes note of the forecast of hour `forecast_time` of the cycle issued
    /// at `ref_time`, unless a later cycle was seen: the cycle of the latest
    /// forecast never goes back.
    pub fn set_last(&mut self, ref_time: RefTime, forecast_time: u16, max_forecast_time: u16)
        requires
            is_cycle(ref_time as int),
            max_forecast_time > 0,
        ensures
            final(self)@ == if old(self)@.last matches Some(last) && last.ref_time > ref_time {
                old(self)@
            } else {
                StatusModel {
                    last: Some(
                        Stamp {
                            ref_time,
                            forecast_time: (ref_time + 3_600 * forecast_time) as i64,
                            wind: None,
                        },
                    ),
                    progress: progress_of(forecast_time, max_forecast_time),
                    ..old(self)@
                }
            },
            final(self)@.last matches Some(last) && last.ref_time >= ref_time,
            old(self)@.last matches Some(before) ==> final(self)@.last->0.ref_time
                >= before.ref_time,
            final(self)@.well_formed(),
    {
        proof {
            use_type_invariant(&*self);
        }
        let newer: bool = match &self.last {
            None => true,
            Some(last) => last.ref_time <= ref_time,
        };
        if newer {
            self.last = Some(Stamp::from_forecast_hour(ref_time, forecast_time));
            let hundredths: u32 = 100 * (forecast_time as u32) / (max_forecast_time as u32);
            self.progress = if hundredths > 100 {
                100
            } else {
                hundredths as u8
            };
        }
    }
}

/// The winds of the stamps that have one, in the order of the stamps.
pub open spec fn winds_of(stamps: Seq<Stamp>) -> Seq<Arc<Wind>>
    decreases stamps.len(),
{
    if stamps.len() == 0 {
        Seq::empty()
    } else {
        match stamps.last().wind {
            Some(wind) => winds_of(stamps.drop_last()).push(wind),
            None => winds_of(stamps.drop_last()),
        }
    }
}

/// What a time lies between: the entry before it, and, where it lies after
/// that and before another, the entry after it with the minutes since the one
/// and from the one to the other.
pub struct Bracket {
    pub before: int,
    pub after: Option<int>,
    pub elapsed: int,
    pub span: int,
}

/// The entries between which the time `m` lies. Before all entries it is the
/// first entry alone, from the last entry on the last alone, and so it is the
/// entry before `m` where less than a minute has gone since.
pub open spec fn bracket_of(forecasts: Forecasts, m: int) -> Option<Bracket> {
    let later = lower_bound(forecasts, m + 1, 0);
    if forecasts.len() == 0 {
        None
    } else if later == 0 {
        Some(Bracket { before: 0, after: None, elapsed: 0, span: 1 })
    } else if later >= forecasts.len() {
        Some(Bracket { before: forecasts.len() - 1, after: None, elapsed: 0, span: 1 })
    } else if (m - forecasts[later - 1].0) / 60 == 0 {
        Some(Bracket { before: later - 1, after: None, elapsed: 0, span: 1 })
    } else {
        Some(
            Bracket {
                before: later - 1,
                after: Some(later),
                elapsed: (m - forecasts[later - 1].0) / 60,
                span: (forecasts[later].0 - forecasts[later - 1].0) / 60,
            },
        )
    }
}

/// With forecasts for one time only, that time is what every time is
/// answered with.
pub proof fn lemma_single_forecast(forecasts: Forecasts, m: int)
    requires
        forecasts.len() == 1,
    ensures
        bracket_of(forecasts, m) == Some(Bracket { before: 0, after: None, elapsed: 0, span: 1 }),
{
    lemma_lower_bound(forecasts, m + 1, 0);
}

/// The times of an inventory are whole hours.
pub proof fn lemma_whole_hours(forecasts: Forecasts, i: int)
    requires
        is_inventory(forecasts),
        0 <= i < forecasts.len(),
    ensures
        forecasts[i].0 % 3_600 == 0,
{
    let stamp = forecasts[i].1[0];
    assert(forecasts[i].1.len() > 0);
    assert(stamp.forecast_time == forecasts[i].0 && stamp.well_formed());
    let ahead = stamp.forecast_time - stamp.ref_time;
    vstd::arithmetic::div_mod::lemma_fundamental_div_mod(stamp.ref_time as int, 21_600);
    vstd::arithmetic::div_mod::lemma_fundamental_div_mod(ahead, 3_600);
    let hours = 6 * (stamp.ref_time / 21_600) + ahead / 3_600;
    assert(stamp.forecast_time == hours * 3_600);
    vstd::arithmetic::div_mod::lemma_mod_multiples_basic(hours, 3_600);
}

/// Where a time is answered with two entries of an inventory, they stand
/// side by side, the time lies a minute or more after the first and before
/// the second, and the share of the way that has gone lies strictly between
/// nothing and all: the span counts the minutes from the one to the other,
/// and the minutes that have gone are those of the time, less than a minute
/// left out.
pub proof fn lemma_between(forecasts: Forecasts, m: int)
    requires
        is_inventory(forecasts),
        bracket_of(forecasts, m) matches Some(bracket) && bracket.after is Some,
    ensures
        ({
            let bracket = bracket_of(forecasts, m)->0;
            let first = forecasts[bracket.before].0;
            let second = forecasts[bracket.before + 1].0;
            &&& 0 <= bracket.before && bracket.before + 1 < forecasts.len()
            &&& bracket.after == Some(bracket.before + 1)
            &&& first + 60 <= m < second
            &&& 0 < bracket.elapsed < bracket.span
            &&& 60 * bracket.span == second - first
            &&& 60 * bracket.elapsed <= m - first < 60 * bracket.elapsed + 60
        }),
{
    lemma_lower_bound(forecasts, m + 1, 0);
    let later = lower_bound(forecasts, m + 1, 0);
    let first = forecasts[later - 1].0;
    let second = forecasts[later].0;
    assert(first < m + 1);
    lemma_whole_hours(forecasts, later - 1);
    lemma_whole_hours(forecasts, later);
    vstd::arithmetic::div_mod::lemma_fundamental_div_mod(first as int, 3_600);
    vstd::arithmetic::div_mod::lemma_fundamental_div_mod(second as int, 3_600);
    let minutes = 60 * (second / 3_600) - 60 * (first / 3_600);
    assert(second - first == 60 * minutes);
    vstd::arithmetic::div_mod::lemma_fundamental_div_mod_converse(
        second - first,
        60,
        minutes,
        0,
    );
    vstd::arithmetic::div_mod::lemma_fundamental_div_mod(m - first, 60);
}

/// With forecasts for two times, a time that lies a minute or more after the
/// first and before the second is answered with both, and with the minutes
/// since the first and from the first to the second, of which the former are
/// fewer.
pub proof fn lemma_between_two(forecasts: Forecasts, m: int)
    requires
        is_inventory(forecasts),
        forecasts.len() == 2,
        forecasts[0].0 + 60 <= m < forecasts[1].0,
    ensures
        bracket_of(forecasts, m) == Some(
            Bracket {
                before: 0,
                after: Some(1),
                elapsed: (m - forecasts[0].0) / 60,
                span: (forecasts[1].0 - forecasts[0].0) / 60,
            },
        ),
        0 < (m - forecasts[0].0) / 60 < (forecasts[1].0 - forecasts[0].0) / 60,
        60 * ((forecasts[1].0 - forecasts[0].0) / 60) == forecasts[1].0 - forecasts[0].0,
        60 * ((m - forecasts[0].0) / 60) <= m - forecasts[0].0 < 60 * ((m - forecasts[0].0) / 60)
            + 60,
{
    lemma_lower_bound(forecasts, m + 1, 0);
    assert(lower_bound(forecasts, m + 1, 0) == 1) by {
        reveal_with_fuel(lower_bound, 3);
    }
    lemma_between(forecasts, m);
}

/// The winds that answer a time: those of the forecasts before it and, where
/// the time lies between two entries, those of the forecasts after it. The
/// share of the way from the one to the other that has gone is
/// `alpha_numerator / alpha_denominator`.
#[derive(Debug, Clone)]
pub struct Lookup {
    pub before: Vec<Arc<Wind>>,
    pub after: Option<Vec<Arc<Wind>>>,
    pub alpha_numerator: i64,
    pub alpha_denominator: i64,
}

/// `Arc::clone` of std. Believed of it: what it gives is the value that it
/// was given, held once more.
#[verifier::external_body]
fn share(wind: &Arc<Wind>) -> (r: Arc<Wind>)
    ensures
        r == *wind,
{
    Arc::clone(wind)
}

/// The winds of the stamps that have one, in the order of the stamps.
pub fn loaded_winds(stamps: &Vec<Stamp>) -> (winds: Vec<Arc<Wind>>)
    ensures
        winds@ == winds_of(stamps@),
{
    let mut winds: Vec<Arc<Wind>> = Vec::new();
    let mut i: usize = 0;
    assert(stamps@.take(0) =~= Seq::<Stamp>::empty());
    while i < stamps.len()
        invariant
            i <= stamps.len(),
            winds@ == winds_of(stamps@.take(i as int)),
        decreases stamps.len() - i,
    {
        proof {
            assert(stamps@.take(i + 1).drop_last() =~= stamps@.take(i as int));
            assert(stamps@.take(i + 1).last() == stamps@[i as int]);
        }
        match &stamps[i].wind {
            Some(wind) => {
                winds.push(share(wind));
            },
            None => {},
        }
        i = i + 1;
    }
    assert(stamps@.take(i as int) =~= stamps@);
    winds
}

fn minutes_between(from: i64, to: i64) -> (minutes: i64)
    requires
        from <= to,
    ensures
        minutes == (to - from) / 60,
{
    (((to as i128) - (from as i128)) / 60) as i64
}

/// The entries between which a time lies, by their places.
#[derive(Debug, Clone, Copy, PartialEq, Eq, Structural)]
pub struct Located {
    /// The place of the entry before the time.
    pub before: usize,
    /// The place of the entry after the time, where the time lies between
    /// two.
    pub after: Option<usize>,
    pub alpha_numerator: i64,
    pub alpha_denominator: i64,
}

impl Located {
    /// The bracket that these places are.
    pub open spec fn bracket(self) -> Bracket {
        Bracket {
            before: self.before as int,
            after: match self.after {
                Some(after) => Some(after as int),
                None => None,
            },
            elapsed: self.alpha_numerator as int,
            span: self.alpha_denominator as int,
        }
    }
}

impl Status {
    fn bracket(&self, m: &i64) -> (r: Option<(Located, ForecastTime, Option<ForecastTime>)>)
        ensures
            match r {
                None => bracket_of(self@.forecasts, *m as int) is None,
                Some((located, before, after)) => bracket_of(self@.forecasts, *m as int) == Some(
                    located.bracket(),
                ) && located.before < self@.forecasts.len() && before
                    == self@.forecasts[located.before as int].0 && match located.after {
                    Some(at) => at < self@.forecasts.len() && after == Some(
                        self@.forecasts[at as int].0,
                    ),
                    None => after is None,
                },
            },
    {
        proof {
            use_type_invariant(self);
        }
        let times: Vec<ForecastTime> = times_in_order(&self.forecasts);
        proof {
            lemma_times(times@, self.listing@, self.forecasts@);
            assert forall|i: int| 0 <= i < times@.len() implies times@[i] == (
            #[trigger] self.listing@[i]).0 by {
                assert(times@[i] == times_of(self.listing@)[i]);
            }
        }
        let len: usize = times.len();
        if len == 0 {
            return None;
        }
        let mut later: usize = 0;
        while later < len && times[later] <= *m
            invariant
                len == times@.len(),
                len == self@.forecasts.len(),
                later <= len,
                forall|i: int| 0 <= i < times@.len() ==> times@[i] == (#[trigger] self@.forecasts[i]).0,
                lower_bound(self@.forecasts, *m + 1, 0) == lower_bound(
                    self@.forecasts,
                    *m + 1,
                    later as int,
                ),
            decreases len - later,
        {
            assert(self@.forecasts[later as int].0 == times@[later as int]);
            later = later + 1;
        }
        proof {
            if later < len {
                assert(self@.forecasts[later as int].0 == times@[later as int]);
            }
        }
        if later == 0 {
            return Some(
                (
                    Located { before: 0, after: None, alpha_numerator: 0, alpha_denominator: 1 },
                    times[0],
                    None,
                ),
            );
        }
        if later >= len {
            return Some(
                (
                    Located {
                        before: len - 1,
                        after: None,
                        alpha_numerator: 0,
                        alpha_denominator: 1,
                    },
                    times[len - 1],
                    None,
                ),
            );
        }
        proof {
            lemma_lower_bound(self@.forecasts, *m + 1, 0);
            assert(self@.forecasts[later - 1].0 < *m + 1);
            assert(self@.forecasts[later as int].0 >= *m + 1);
        }
        let previous: i64 = times[later - 1];
        let elapsed: i64 = minutes_between(previous, *m);
        if elapsed == 0 {
            return Some(
                (
                    Located {
                        before: later - 1,
                        after: None,
                        alpha_numerator: 0,
                        alpha_denominator: 1,
                    },
                    previous,
                    None,
                ),
            );
        }
        let span: i64 = minutes_between(previous, times[later]);
        Some(
            (
                Located {
                    before: later - 1,
                    after: Some(later),
                    alpha_numerator: elapsed,
                    alpha_denominator: span,
                },
                previous,
                Some(times[later]),
            ),
        )
    }

    /// The entries between which the time `m` lies, or nothing where no
    /// forecast is known.
    pub fn locate(&self, m: &i64) -> (r: Option<Located>)
        ensures
            match r {
                None => bracket_of(self@.forecasts, *m as int) is None,
                Some(located) => bracket_of(self@.forecasts, *m as int) == Some(located.bracket())
                    && located.before < self@.forecasts.len() && (located.after matches Some(after)
                    ==> after < self@.forecasts.len()),
            },
            r is Some && r->0.after is Some ==> 0 < r->0.alpha_numerator < r->0.alpha_denominator,
    {
        proof {
            use_type_invariant(self);
            if bracket_of(self@.forecasts, *m as int) is Some && bracket_of(
                self@.forecasts,
                *m as int,
            )->0.after is Some {
                lemma_between(self@.forecasts, *m as int);
            }
        }
        match self.bracket(m) {
            None => None,
            Some((located, _, _)) => Some(located),
        }
    }

    /// The winds that answer the time `m`, or nothing where no forecast is
    /// known.
    pub fn find(&self, m: &i64) -> (r: Option<Lookup>)
        ensures
            match r {
                None => bracket_of(self@.forecasts, *m as int) is None,
                Some(found) => bracket_of(self@.forecasts, *m as int) matches Some(bracket) && {
                    &&& 0 <= bracket.before < self@.forecasts.len()
                    &&& found.before@ == winds_of(self@.forecasts[bracket.before].1)
                    &&& match found.after {
                        None => bracket.after is None,
                        Some(winds) => bracket.after matches Some(after) && 0 <= after
                            < self@.forecasts.len() && winds@ == winds_of(
                            self@.forecasts[after].1,
                        ),
                    }
                    &&& found.alpha_numerator == bracket.elapsed
                    &&& found.alpha_denominator == bracket.span
                },
            },
            r is Some && r->0.after is Some ==> 0 < r->0.alpha_numerator < r->0.alpha_denominator,
    {
        broadcast use vstd::std_specs::btree::group_btree_axioms;

        proof {
            use_type_invariant(self);
            if bracket_of(self@.forecasts, *m as int) is Some && bracket_of(
                self@.forecasts,
                *m as int,
            )->0.after is Some {
                lemma_between(self@.forecasts, *m as int);
            }
        }
        let (located, first, second) = match self.bracket(m) {
            None => {
                return None;
            },
            Some(found) => found,
        };
        proof {
            assert(self.forecasts@.contains_key(self.listing@[located.before as int].0));
            if located.after is Some {
                assert(self.forecasts@.contains_key(self.listing@[located.after->0 as int].0));
            }
        }
        let before: Vec<Arc<Wind>> = match self.forecasts.get(&first) {
            Some(stamps) => loaded_winds(stamps),
            None => Vec::new(),
        };
        let after: Option<Vec<Arc<Wind>>> = match second {
            None => None,
            Some(time) => match self.forecasts.get(&time) {
                Some(stamps) => Some(loaded_winds(stamps)),
                None => Some(Vec::new()),
            },
        };
        Some(
            Lookup {
                before,
                after,
                alpha_numerator: located.alpha_numerator,
                alpha_denominator: located.alpha_denominator,
            },
        )
    }
}

/// Whether `listing` holds a stamp of the cycle and for the time of `stamp`.
pub open spec fn is_listed(stamp: Stamp, listing: Seq<Stamp>) -> bool {
    exists|k: int|
        0 <= k < listing.len() && (#[trigger] listing[k]).ref_time == stamp.ref_time
            && listing[k].forecast_time == stamp.forecast_time
}

/// Whether `listing` holds each of `stamps`.
pub open spec fn all_listed(stamps: Seq<Stamp>, listing: Seq<Stamp>) -> bool {
    forall|k: int| 0 <= k < stamps.len() ==> is_listed(#[trigger] stamps[k], listing)
}

/// The entries of which `listing` holds every stamp.
pub open spec fn listed_only(forecasts: Forecasts, listing: Seq<Stamp>) -> Forecasts {
    forecasts.filter(|entry: (ForecastTime, Seq<Stamp>)| all_listed(entry.1, listing))
}

/// The stamps of all entries, entry by entry.
pub open spec fn stamps_of(forecasts: Forecasts) -> Seq<Stamp>
    decreases forecasts.len(),
{
    if forecasts.len() == 0 {
        Seq::empty()
    } else {
        stamps_of(forecasts.drop_last()) + forecasts.last().1
    }
}

/// How long forecasts are kept after the time for which they are valid:
/// three hours, in seconds.
pub const KEPT_SECONDS: i64 = 10_800;

/// The forecast hour up to which a fresher cycle leaves the forecasts of
/// earlier cycles in place.
pub const MERGED_HOURS: u16 = 6;

/// An inventory without one of its entries is an inventory.
pub proof fn lemma_remove_entry(forecasts: Forecasts, at: int)
    requires
        is_inventory(forecasts),
        0 <= at < forecasts.len(),
    ensures
        is_inventory(forecasts.remove(at)),
{
    let after = forecasts.remove(at);
    assert forall|i: int, j: int| 0 <= i < j < after.len() implies (#[trigger] after[i]).0 < (
    #[trigger] after[j]).0 by {
        let a = if i < at {
            i
        } else {
            i + 1
        };
        let b = if j < at {
            j
        } else {
            j + 1
        };
        assert(forecasts[a].0 < forecasts[b].0);
    }
    assert forall|i: int| 0 <= i < after.len() implies (#[trigger] after[i]).1.len() > 0 by {
        let a = if i < at {
            i
        } else {
            i + 1
        };
        assert(forecasts[a].1.len() > 0);
    }
    assert forall|i: int, k: int|
        0 <= i < after.len() && 0 <= k < after[i].1.len() implies (#[trigger] after[i].1[k]).forecast_time
        == after[i].0 && after[i].1[k].well_formed() by {
        let a = if i < at {
            i
        } else {
            i + 1
        };
        assert(forecasts[a].1[k].forecast_time == forecasts[a].0);
    }
}

/// What is left of an inventory behind some of its first entries is an
/// inventory.
pub proof fn lemma_skip_entries(forecasts: Forecasts, n: int)
    requires
        is_inventory(forecasts),
        0 <= n <= forecasts.len(),
    ensures
        is_inventory(forecasts.skip(n)),
{
    let after = forecasts.skip(n);
    assert forall|i: int, j: int| 0 <= i < j < after.len() implies (#[trigger] after[i]).0 < (
    #[trigger] after[j]).0 by {
        assert(forecasts[i + n].0 < forecasts[j + n].0);
    }
    assert forall|i: int| 0 <= i < after.len() implies (#[trigger] after[i]).1.len() > 0 by {
        assert(forecasts[i + n].1.len() > 0);
    }
    assert forall|i: int, k: int|
        0 <= i < after.len() && 0 <= k < after[i].1.len() implies (#[trigger] after[i].1[k]).forecast_time
        == after[i].0 && after[i].1[k].well_formed() by {
        assert(forecasts[i + n].1[k].forecast_time == forecasts[i + n].0);
    }
}

fn listed(stamp: &Stamp, listing: &Vec<Stamp>) -> (r: bool)
    ensures
        r == is_listed(*stamp, listing@),
{
    let mut k: usize = 0;
    while k < listing.len()
        invariant
            k <= listing.len(),
            forall|j: int|
                0 <= j < k ==> !((#[trigger] listing@[j]).ref_time == stamp.ref_time
                    && listing@[j].forecast_time == stamp.forecast_time),
        decreases listing.len() - k,
    {
        if listing[k].ref_time == stamp.ref_time && listing[k].forecast_time
            == stamp.forecast_time {
            return true;
        }
        k = k + 1;
    }
    false
}

fn every_listed(stamps: &Vec<Stamp>, listing: &Vec<Stamp>) -> (r: bool)
    ensures
        r == all_listed(stamps@, listing@),
{
    let mut k: usize = 0;
    while k < stamps.len()
        invariant
            k <= stamps.len(),
            forall|j: int| 0 <= j < k ==> is_listed(#[trigger] stamps@[j], listing@),
        decreases stamps.len() - k,
    {
        if !listed(&stamps[k], listing) {
            return false;
        }
        k = k + 1;
    }
    true
}

impl Status {
    /// Keeps the entries of which `listing` holds every stamp, and drops the
    /// others.
    pub fn retain_listed(&mut self, listing: &Vec<Stamp>)
        ensures
            final(self)@ == (StatusModel {
                forecasts: listed_only(old(self)@.forecasts, listing@),
                ..old(self)@
            }),
            final(self)@.well_formed(),
    {
        broadcast use vstd::std_specs::btree::group_btree_axioms;

        proof {
            use_type_invariant(&*self);
        }
        let times: Vec<ForecastTime> = times_in_order(&self.forecasts);
        let Status {
            provider,
            provider_name,
            current_ref_time,
            last,
            progress,
            forecasts,
            listing: entries,
        } = self.take();
        let mut forecasts = forecasts;
        let ghost before = entries@;
        let ghost mut current = before;
        let ghost keep = |entry: (ForecastTime, Seq<Stamp>)| all_listed(entry.1, listing@);
        let mut i: usize = times.len();
        proof {
            lemma_times(times@, before, forecasts@);
            assert(before.skip(i as int) =~= Seq::empty());
            assert(before.take(i as int) =~= before);
            assert(before.skip(i as int).filter(keep) =~= Seq::empty()) by {
                reveal(Seq::filter);
            }
            assert(before.take(i as int) + before.skip(i as int).filter(keep) =~= before);
        }
        while i > 0
            invariant
                i <= before.len(),
                i <= current.len(),
                times@ == times_of(before),
                keep == |entry: (ForecastTime, Seq<Stamp>)| all_listed(entry.1, listing@),
                current == before.take(i as int) + before.skip(i as int).filter(keep),
                is_inventory(current),
                lists(current, forecasts@),
            decreases i,
        {
            i = i - 1;
            proof {
                assert(current[i as int] == before[i as int]);
                assert(times@[i as int] == before[i as int].0);
                assert(forecasts@.contains_key(current[i as int].0));
                assert(before.skip(i as int) =~= seq![before[i as int]] + before.skip(i + 1));
                Seq::filter_distributes_over_add(seq![before[i as int]], before.skip(i + 1), keep);
                reveal_with_fuel(Seq::filter, 3);
                assert(seq![before[i as int]].drop_last() =~= Seq::empty());
                assert(seq![before[i as int]].last() == before[i as int]);
                assert(seq![before[i as int]].filter(keep) =~= if keep(before[i as int]) {
                    seq![before[i as int]]
                } else {
                    Seq::empty()
                });
            }
            let time: ForecastTime = times[i];
            let kept: bool = match forecasts.get(&time) {
                Some(stamps) => every_listed(stamps, listing),
                None => true,
            };
            if !kept {
                proof {
                    lemma_remove_entry(current, i as int);
                    lemma_lists_remove(current, forecasts@, i as int);
                }
                forecasts.remove(&time);
                proof {
                    current = current.remove(i as int);
                    assert(current =~= before.take(i as int) + before.skip(i as int).filter(keep));
                }
            } else {
                assert(current =~= before.take(i as int) + before.skip(i as int).filter(keep));
            }
        }
        proof {
            assert(before.skip(0) =~= before);
            assert(before.take(0) + before.filter(keep) =~= before.filter(keep));
        }
        *self = Status {
            provider,
            provider_name,
            current_ref_time,
            last,
            progress,
            forecasts,
            listing: Ghost(current),
        };
    }

    /// Drops the forecasts that are valid for a time more than three hours
    /// before `now`, and gives their stamps.
    pub fn clean(&mut self, now: i64) -> (removed: Vec<Stamp>)
        requires
            is_instant(now as int),
        ensures
            final(self)@ == (StatusModel {
                forecasts: old(self)@.forecasts.skip(
                    lower_bound(old(self)@.forecasts, now - KEPT_SECONDS, 0),
                ),
                ..old(self)@
            }),
            removed@ == stamps_of(
                old(self)@.forecasts.take(lower_bound(old(self)@.forecasts, now - KEPT_SECONDS, 0)),
            ),
            final(self)@.well_formed(),
            forall|i: int|
                0 <= i < final(self)@.forecasts.len() ==> (#[trigger] final(self)@.forecasts[i]).0
                    - now >= -KEPT_SECONDS,
            forall|k: int|
                0 <= k < removed@.len() ==> (#[trigger] removed@[k]).forecast_time - now
                    < -KEPT_SECONDS,
    {
        broadcast use vstd::std_specs::btree::group_btree_axioms;

        proof {
            use_type_invariant(&*self);
        }
        let times: Vec<ForecastTime> = times_in_order(&self.forecasts);
        let Status {
            provider,
            provider_name,
            current_ref_time,
            last,
            progress,
            forecasts,
            listing: entries,
        } = self.take();
        let mut forecasts = forecasts;
        let ghost before = entries@;
        proof {
            lemma_times(times@, before, forecasts@);
            assert forall|i: int| 0 <= i < times@.len() implies times@[i] == (#[trigger] before[i]).0 by {
                assert(times@[i] == times_of(before)[i]);
            }
        }
        let limit: i64 = now - KEPT_SECONDS;
        let mut at: usize = 0;
        while at < times.len() && times[at] < limit
            invariant
                at <= times@.len(),
                times@.len() == before.len(),
                forall|i: int| 0 <= i < times@.len() ==> times@[i] == (#[trigger] before[i]).0,
                lower_bound(before, limit as int, 0) == lower_bound(before, limit as int, at as int),
            decreases times@.len() - at,
        {
            assert(before[at as int].0 == times@[at as int]);
            at = at + 1;
        }
        proof {
            if at < times@.len() {
                assert(before[at as int].0 == times@[at as int]);
            }
            lemma_lower_bound(before, limit as int, 0);
        }
        let mut removed: Vec<Stamp> = Vec::new();
        let ghost mut current = before;
        let mut j: usize = 0;
        proof {
            assert(before.skip(0) =~= before);
            assert(before.take(0) =~= Seq::empty());
        }
        while j < at
            invariant
                j <= at <= before.len(),
                times@.len() == before.len(),
                forall|i: int| 0 <= i < times@.len() ==> times@[i] == (#[trigger] before[i]).0,
                current == before.skip(j as int),
                is_inventory(before),
                is_inventory(current),
                lists(current, forecasts@),
                removed@ == stamps_of(before.take(j as int)),
                forall|i: int| 0 <= i < at ==> (#[trigger] before[i]).0 < now - KEPT_SECONDS,
                forall|k: int|
                    0 <= k < removed@.len() ==> (#[trigger] removed@[k]).forecast_time - now
                        < -KEPT_SECONDS,
            decreases at - j,
        {
            let time: ForecastTime = times[j];
            proof {
                assert(current[0] == before[j as int]);
                assert(time == current[0].0);
                assert(forecasts@.contains_key(current[0].0));
                lemma_remove_entry(current, 0);
                lemma_lists_remove(current, forecasts@, 0);
                assert(before.take(j + 1).drop_last() =~= before.take(j as int));
                assert(before.take(j + 1).last() == before[j as int]);
                assert forall|k: int| 0 <= k < before[j as int].1.len() implies (
                #[trigger] before[j as int].1[k]).forecast_time - now < -KEPT_SECONDS by {
                    assert(before[j as int].1[k].forecast_time == before[j as int].0);
                }
            }
            match forecasts.remove(&time) {
                Some(mut stamps) => {
                    removed.append(&mut stamps);
                },
                None => {},
            }
            proof {
                current = current.remove(0);
                assert(current =~= before.skip(j + 1));
            }
            j = j + 1;
        }
        proof {
            assert forall|i: int| 0 <= i < current.len() implies (#[trigger] current[i]).0 - now
                >= -KEPT_SECONDS by {
                assert(current[i] == before[i + at]);
                if i > 0 {
                    assert(before[at as int].0 < before[i + at].0);
                }
            }
        }
        *self = Status {
            provider,
            provider_name,
            current_ref_time,
            last,
            progress,
            forecasts,
            listing: Ghost(current),
        };
        removed
    }

    /// Whether a stamp that storage holds is to be registered: it is where
    /// no forecast is known for its time, and where it is the first forecast
    /// of its cycle.
    pub fn needs_registration(&self, stamp: &Stamp) -> (r: bool)
        requires
            stamp.well_formed(),
        ensures
            r == (!has_key(self@.forecasts, stamp.forecast_time as int) || stamp.hour() == 0),
    {
        !self.contains_key(&stamp.forecast_time) || stamp.forecast_hour() == 0
    }

    /// The first steps of the registration of a stamp: where `delete` is set,
    /// forecasts are known for its time and its forecast hour is above six,
    /// those forecasts give way and their stamps are handed back; then note
    /// is taken of the stamp as the latest.
    pub fn prepare_stamp(&mut self, delete: bool, stamp: &Stamp, max_forecast_hour: u16) -> (removed:
        Vec<Stamp>)
        requires
            stamp.well_formed(),
            max_forecast_hour > 0,
        ensures
            final(self)@ == prepared(old(self)@, delete, *stamp, max_forecast_hour),
            removed@ == if gives_way(old(self)@.forecasts, delete, *stamp) {
                stamps_at(old(self)@.forecasts, stamp.forecast_time as int)
            } else {
                Seq::empty()
            },
            final(self)@.well_formed(),
    {
        let removed: Vec<Stamp> = if delete && self.contains_key(&stamp.forecast_time)
            && stamp.forecast_hour() > MERGED_HOURS {
            self.remove_forecast(&stamp.forecast_time)
        } else {
            Vec::new()
        };
        self.set_last(stamp.ref_time, stamp.forecast_hour(), max_forecast_hour);
        removed
    }

    /// Registers a stamp whose forecast is stored: the steps of
    /// `prepare_stamp`, and then the stamp is put behind the stamps for its
    /// time. Gives the stamps that gave way; their files are to be deleted.
    pub fn on_stamp_downloaded(&mut self, delete: bool, stamp: Stamp, max_forecast_hour: u16) -> (removed:
        Vec<Stamp>)
        requires
            stamp.well_formed(),
            max_forecast_hour > 0,
        ensures
            final(self)@ == (StatusModel {
                forecasts: with_stamp(
                    prepared(old(self)@, delete, stamp, max_forecast_hour).forecasts,
                    stamp,
                ),
                ..prepared(old(self)@, delete, stamp, max_forecast_hour)
            }),
            removed@ == if gives_way(old(self)@.forecasts, delete, stamp) {
                stamps_at(old(self)@.forecasts, stamp.forecast_time as int)
            } else {
                Seq::empty()
            },
            final(self)@.well_formed(),
            gives_way(old(self)@.forecasts, delete, stamp) ==> stamps_at(
                final(self)@.forecasts,
                stamp.forecast_time as int,
            ) == seq![stamp],
    {
        proof {
            use_type_invariant(&*self);
        }
        let ghost before = self@.forecasts;
        let removed: Vec<Stamp> = self.prepare_stamp(delete, &stamp, max_forecast_hour);
        proof {
            if gives_way(before, delete, stamp) {
                lemma_without_time(before, stamp.forecast_time as int);
                lemma_has_key(self@.forecasts, stamp.forecast_time as int);
                lemma_lower_bound(self@.forecasts, stamp.forecast_time as int, 0);
                lemma_with_stamp(self@.forecasts, stamp);
            }
        }
        let ghost cleared = self@.forecasts;
        self.add_forecast(stamp);
        proof {
            if gives_way(before, delete, stamp) {
                lemma_lower_bound(cleared, stamp.forecast_time as int, 0);
                let at = lower_bound(cleared, stamp.forecast_time as int, 0);
                assert(self@.forecasts == cleared.insert(at, (stamp.forecast_time, seq![stamp])));
                lemma_insert_found(cleared, stamp);
            }
        }
        removed
    }
}

proof fn lemma_insert_found(forecasts: Forecasts, stamp: Stamp)
    requires
        is_inventory(forecasts),
        stamp.well_formed(),
        !has_key(forecasts, stamp.forecast_time as int),
    ensures
        stamps_at(with_stamp(forecasts, stamp), stamp.forecast_time as int) == seq![stamp],
{
    lemma_lower_bound(forecasts, stamp.forecast_time as int, 0);
    lemma_has_key(forecasts, stamp.forecast_time as int);
    lemma_with_stamp(forecasts, stamp);
    let at = lower_bound(forecasts, stamp.forecast_time as int, 0);
    let after = with_stamp(forecasts, stamp);
    assert(after == forecasts.insert(at, (stamp.forecast_time, seq![stamp])));
    assert(after[at] == (stamp.forecast_time, seq![stamp]));
    lemma_has_key(after, stamp.forecast_time as int);
    lemma_lower_bound(after, stamp.forecast_time as int, 0);
    let found = lower_bound(after, stamp.forecast_time as int, 0);
    if found < at {
        assert(after[found].0 < after[at].0);
    } else if found > at {
        assert(after[at].0 < stamp.forecast_time);
    }
}

/// Whether the forecasts that are known for the time of `stamp` give way to
/// it: `delete` is set, there are such forecasts, and the forecast hour of
/// the stamp is above six, so that it comes from a fresher cycle.
pub open spec fn gives_way(forecasts: Forecasts, delete: bool, stamp: Stamp) -> bool {
    delete && has_key(forecasts, stamp.forecast_time as int) && stamp.hour() > MERGED_HOURS
}

/// The status after the first steps of the registration of `stamp`.
pub open spec fn prepared(
    status: StatusModel,
    delete: bool,
    stamp: Stamp,
    max_forecast_hour: u16,
) -> StatusModel {
    let forecasts = if gives_way(status.forecasts, delete, stamp) {
        without_time(status.forecasts, stamp.forecast_time as int)
    } else {
        status.forecasts
    };
    if status.last matches Some(last) && last.ref_time > stamp.ref_time {
        StatusModel { forecasts, ..status }
    } else {
        StatusModel {
            forecasts,
            last: Some(
                Stamp {
                    ref_time: stamp.ref_time,
                    forecast_time: (stamp.ref_time + 3_600 * stamp.hour()) as i64,
                    wind: None,
                },
            ),
            progress: progress_of(stamp.hour() as u16, max_forecast_hour),
            ..status
        }
    }
}

} // verus!
