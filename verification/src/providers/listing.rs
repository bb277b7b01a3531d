//! The inventory as it is kept: a map from the time for which forecasts are
//! valid to their stamps, and its entries in the order of their times.
use crate::providers::status::{
    has_key, is_inventory, lemma_has_key, lemma_lower_bound, lemma_with_stamp, lower_bound,
    stamps_at, with_stamp, Forecasts,
};
use crate::stamp::Stamp;
use crate::time::ForecastTime;
use std::collections::BTreeMap;
use vstd::prelude::*;
use vstd::std_specs::btree::*;
use vstd::std_specs::iter::IteratorSpec;

verus! {

/// Whether each time is before those behind it.
pub open spec fn ascending(times: Seq<ForecastTime>) -> bool {
    forall|i: int, j: int| 0 <= i < j < times.len() ==> times[i] < times[j]
}

/// The times of the entries.
pub open spec fn times_of(forecasts: Forecasts) -> Seq<ForecastTime> {
    forecasts.map_values(|entry: (ForecastTime, Seq<Stamp>)| entry.0)
}

/// Whether `listing` holds the entries of `map`, each once, in the order of
/// their times.
pub open spec fn lists(listing: Forecasts, map: Map<ForecastTime, Vec<Stamp>>) -> bool {
    &&& ascending(times_of(listing))
    &&& forall|i: int|
        0 <= i < listing.len() ==> map.contains_key((#[trigger] listing[i]).0) && map[listing[i].0]@
            == listing[i].1
    &&& forall|time: ForecastTime| #[trigger]
        map.contains_key(time) ==> has_key(listing, time as int)
}

proof fn lemma_increasing(times: Seq<&ForecastTime>)
    requires
        increasing_seq(times),
    ensures
        ascending(times.unref()),
{
    broadcast use vstd::std_specs::btree::group_btree_axioms;

    axiom_increasing_seq_meaning::<&ForecastTime>(times);
    assert forall|i: int, j: int| 0 <= i < j < times.len() implies times.unref()[i]
        < times.unref()[j] by {
        assert(vstd::std_specs::cmp::OrdSpec::cmp_spec(&times[i], &times[j]) is Less);
    }
}

/// The times of a map, each once, the earliest first.
pub fn times_in_order(map: &BTreeMap<ForecastTime, Vec<Stamp>>) -> (times: Vec<ForecastTime>)
    ensures
        ascending(times@),
        forall|time: ForecastTime| times@.contains(time) <==> map@.contains_key(time),
{
    broadcast use vstd::std_specs::btree::group_btree_axioms;

    let mut times: Vec<ForecastTime> = Vec::new();
    let ghost all = spec_keys_iter(map).remaining();
    for time in walk: map.keys()
        invariant
            walk.seq() == all,
            times@.len() == walk.index(),
            forall|i: int| 0 <= i < times@.len() ==> times@[i] == *all[i],
    {
        times.push(*time);
    }
    proof {
        assert(times@ =~= all.unref());
        lemma_increasing(all);
        assert(times@.to_set() == map@.dom());
        assert forall|time: ForecastTime| times@.contains(time) <==> map@.contains_key(
            time,
        ) by {
            assert(times@.to_set().contains(time) <==> times@.contains(time));
        }
    }
    times
}

/// Times in ascending order are fixed by which times they are.
pub proof fn lemma_same_times(a: Seq<ForecastTime>, b: Seq<ForecastTime>)
    requires
        ascending(a),
        ascending(b),
        forall|time: ForecastTime| a.contains(time) <==> b.contains(time),
    ensures
        a == b,
    decreases a.len(),
{
    if a.len() == 0 {
        if b.len() > 0 {
            assert(b.contains(b[0]));
            assert(a.contains(b[0]));
        }
        assert(a =~= b);
    } else {
        assert(a.contains(a[0]));
        assert(b.contains(a[0]));
        let j = choose|j: int| 0 <= j < b.len() && b[j] == a[0];
        assert(b.contains(b[0]));
        assert(a.contains(b[0]));
        let i = choose|i: int| 0 <= i < a.len() && a[i] == b[0];
        assert(a[0] == b[0]);
        let rest_a = a.skip(1);
        let rest_b = b.skip(1);
        assert forall|time: ForecastTime| rest_a.contains(time) <==> rest_b.contains(time) by {
            if rest_a.contains(time) {
                let k = choose|k: int| 0 <= k < rest_a.len() && rest_a[k] == time;
                assert(a[k + 1] == time);
                assert(a.contains(time));
                let l = choose|l: int| 0 <= l < b.len() && b[l] == time;
                assert(l > 0);
                assert(rest_b[l - 1] == time);
            }
            if rest_b.contains(time) {
                let k = choose|k: int| 0 <= k < rest_b.len() && rest_b[k] == time;
                assert(b[k + 1] == time);
                assert(b.contains(time));
                let l = choose|l: int| 0 <= l < a.len() && a[l] == time;
                assert(l > 0);
                assert(rest_a[l - 1] == time);
            }
        }
        assert forall|p: int, q: int| 0 <= p < q < rest_a.len() implies rest_a[p] < rest_a[q] by {
            assert(a[p + 1] < a[q + 1]);
        }
        assert forall|p: int, q: int| 0 <= p < q < rest_b.len() implies rest_b[p] < rest_b[q] by {
            assert(b[p + 1] < b[q + 1]);
        }
        lemma_same_times(rest_a, rest_b);
        assert(a =~= seq![a[0]] + rest_a);
        assert(b =~= seq![b[0]] + rest_b);
    }
}

/// The times of a map in their order are the times of its listing.
pub proof fn lemma_times(
    times: Seq<ForecastTime>,
    listing: Forecasts,
    map: Map<ForecastTime, Vec<Stamp>>,
)
    requires
        lists(listing, map),
        ascending(times),
        forall|time: ForecastTime| times.contains(time) <==> map.contains_key(time),
    ensures
        times == times_of(listing),
        times.len() == listing.len(),
{
    let listed = times_of(listing);
    assert forall|time: ForecastTime| times.contains(time) <==> listed.contains(time) by {
        if listed.contains(time) {
            let i = choose|i: int| 0 <= i < listed.len() && listed[i] == time;
            assert(map.contains_key(listing[i].0));
        }
        if map.contains_key(time) {
            assert(has_key(listing, time as int));
            let i = choose|i: int| 0 <= i < listing.len() && (#[trigger] listing[i]).0 == time;
            assert(listed[i] == time);
        }
    }
    lemma_same_times(times, listed);
}

/// A listing without one of its entries lists the map without the time of
/// that entry.
pub proof fn lemma_lists_remove(
    listing: Forecasts,
    map: Map<ForecastTime, Vec<Stamp>>,
    at: int,
)
    requires
        lists(listing, map),
        0 <= at < listing.len(),
    ensures
        lists(listing.remove(at), map.remove(listing[at].0)),
{
    let after = listing.remove(at);
    let left = map.remove(listing[at].0);
    let from = |i: int|
        if i < at {
            i
        } else {
            i + 1
        };
    assert forall|i: int, j: int| 0 <= i < j < times_of(after).len() implies times_of(after)[i]
        < times_of(after)[j] by {
        assert(times_of(listing)[from(i)] < times_of(listing)[from(j)]);
    }
    assert forall|i: int| 0 <= i < after.len() implies left.contains_key((#[trigger] after[i]).0)
        && left[after[i].0]@ == after[i].1 by {
        assert(after[i] == listing[from(i)]);
        assert(map.contains_key(listing[from(i)].0));
        if from(i) < at {
            assert(times_of(listing)[from(i)] < times_of(listing)[at]);
        } else {
            assert(times_of(listing)[at] < times_of(listing)[from(i)]);
        }
    }
    assert forall|time: ForecastTime| #[trigger] left.contains_key(time) implies has_key(
        after,
        time as int,
    ) by {
        assert(map.contains_key(time));
        assert(has_key(listing, time as int));
        let i = choose|i: int| 0 <= i < listing.len() && (#[trigger] listing[i]).0 == time;
        let to = if i < at {
            i
        } else {
            i - 1
        };
        assert(after[to] == listing[i]);
    }
}

/// A listing with a stamp put in lists the map in which the stamp stands
/// behind the stamps for its time.
pub proof fn lemma_lists_with_stamp(
    listing: Forecasts,
    map: Map<ForecastTime, Vec<Stamp>>,
    stamp: Stamp,
    after: Map<ForecastTime, Vec<Stamp>>,
)
    requires
        lists(listing, map),
        is_inventory(listing),
        stamp.well_formed(),
        forall|time: ForecastTime|
            after.contains_key(time) <==> map.contains_key(time) || time == stamp.forecast_time,
        after[stamp.forecast_time]@ == stamps_at(listing, stamp.forecast_time as int).push(stamp),
        forall|time: ForecastTime|
            map.contains_key(time) && time != stamp.forecast_time ==> after[time] == map[time],
    ensures
        lists(with_stamp(listing, stamp), after),
{
    let time = stamp.forecast_time;
    lemma_lower_bound(listing, time as int, 0);
    lemma_has_key(listing, time as int);
    lemma_with_stamp(listing, stamp);
    let at = lower_bound(listing, time as int, 0);
    let result = with_stamp(listing, stamp);
    assert forall|i: int, j: int| 0 <= i < j < times_of(result).len() implies times_of(result)[i]
        < times_of(result)[j] by {
        assert(result[i].0 < result[j].0);
    }
    if at < listing.len() && listing[at].0 == time {
        assert forall|i: int| 0 <= i < result.len() implies after.contains_key(
            (#[trigger] result[i]).0,
        ) && after[result[i].0]@ == result[i].1 by {
            assert(map.contains_key(listing[i].0));
            if i != at {
                assert(result[i] == listing[i]);
                if i < at {
                    assert(times_of(listing)[i] < times_of(listing)[at]);
                } else {
                    assert(times_of(listing)[at] < times_of(listing)[i]);
                }
            }
        }
        assert forall|t: ForecastTime| #[trigger] after.contains_key(t) implies has_key(
            result,
            t as int,
        ) by {
            if t == time {
                assert(result[at].0 == t);
            } else {
                assert(has_key(listing, t as int));
                let i = choose|i: int| 0 <= i < listing.len() && (#[trigger] listing[i]).0 == t;
                assert(result[i].0 == t);
            }
        }
    } else {
        assert(!map.contains_key(time)) by {
            if map.contains_key(time) {
                assert(has_key(listing, time as int));
            }
        }
        assert forall|i: int| 0 <= i < result.len() implies after.contains_key(
            (#[trigger] result[i]).0,
        ) && after[result[i].0]@ == result[i].1 by {
            if i < at {
                assert(result[i] == listing[i]);
                assert(map.contains_key(listing[i].0));
            } else if i > at {
                assert(result[i] == listing[i - 1]);
                assert(map.contains_key(listing[i - 1].0));
            } else {
                assert(result[i] == (time, seq![stamp]));
                assert(stamps_at(listing, time as int).push(stamp) =~= seq![stamp]);
            }
        }
        assert forall|t: ForecastTime| #[trigger] after.contains_key(t) implies has_key(
            result,
            t as int,
        ) by {
            if t == time {
                assert(result[at].0 == t);
            } else {
                assert(has_key(listing, t as int));
                let i = choose|i: int| 0 <= i < listing.len() && (#[trigger] listing[i]).0 == t;
                let to = if i < at {
                    i
                } else {
                    i + 1
                };
                assert(result[to] == listing[i]);
            }
        }
    }
}

/// A listing has as many entries as its map has times.
pub proof fn lemma_lists_len(listing: Forecasts, map: Map<ForecastTime, Vec<Stamp>>)
    requires
        lists(listing, map),
        map.dom().finite(),
    ensures
        listing.len() == map.dom().len(),
{
    let times = times_of(listing);
    assert(times.no_duplicates());
    assert(times.to_set() =~= map.dom()) by {
        assert forall|time: ForecastTime| times.to_set().contains(time) <==> map.dom().contains(
            time,
        ) by {
            if times.contains(time) {
                let i = choose|i: int| 0 <= i < times.len() && times[i] == time;
                assert(map.contains_key(listing[i].0));
            }
            if map.contains_key(time) {
                assert(has_key(listing, time as int));
                let i = choose|i: int| 0 <= i < listing.len() && (#[trigger] listing[i]).0 == time;
                assert(times[i] == time);
            }
        }
    }
    times.unique_seq_to_set();
}

} // verus!
