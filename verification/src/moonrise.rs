//! The moonrise sequence generator.
//!
//! For each of a requested number of days it asks an external astronomical
//! oracle for the moonrise of the longitude-adjusted solar day, corrects the
//! near-duplicate answers that day-boundary aliasing can produce by asking
//! once more for the next day's boundary, and collects the accepted
//! instants in day order.

use vstd::prelude::*;
use crate::julian::solar_day_start;
use crate::julian::solar_day_start_of;
use crate::julian::lemma_solar_day_step;

verus! {

broadcast use vstd::seq::group_seq_axioms;

/// The external astronomical collaborator: for the solar day beginning at a
/// given Unix instant, and a coordinate in micro-degrees, it reports the
/// moonrise of that day, or nothing when no moonrise falls within the day.
/// It is treated as a correct black box; all that is assumed of it is that
/// a reported moonrise lies within the solar day it was asked about.  It is
/// an injectable capability, so that tests can drive the generator with a
/// scripted oracle instead of the real astronomical computation.
pub trait MoonriseOracle {
    /// Asks the oracle for the moonrise of the solar day beginning at
    /// `day_start`.
    fn moonrise(&self, day_start: i64, lon_udeg: i64, lat_udeg: i64) -> (r: Option<i64>)
        ensures
            r matches Some(v) ==> day_start <= v < day_start + 86400,
    ;
}

/// Whether a naive answer must be discarded and the next day's boundary
/// asked instead: exactly when there is an answer and it lies within 500
/// seconds of the previously accepted instant (a day-boundary aliasing
/// artifact), the answers that lie before the previously accepted instant
/// included.
pub fn needs_requery(previous: i64, naive: Option<i64>) -> (r: bool)
    requires
        -1000000000000000 <= previous <= 1000000000000000,
        naive matches Some(v) ==> -1000000000000000 <= v <= 1000000000000000,
    ensures
        r == (naive matches Some(v) && v - previous <= 500),
{
    match naive {
        Some(v) => v - previous <= 500,
        None => false,
    }
}

/// The instant one day contributes, given the day's two answers and the
/// previously accepted instant `prev`: the naive answer, unless it exists
/// and lies within 500 seconds of `prev`, in which case the re-query's
/// answer takes its place.
pub open spec fn accept_step(day: (Option<int>, Option<int>), prev: int) -> Option<int> {
    if day.0 matches Some(v) && v - prev <= 500 {
        day.1
    } else {
        day.0
    }
}

/// The instants accepted when the generator's decision rule is replayed
/// over a trace of per-day oracle answers (naive answer, re-query answer),
/// with `prev` the previously accepted instant.
pub open spec fn replay_accepted(days: Seq<(Option<int>, Option<int>)>, prev: int) -> Seq<int>
    decreases days.len(),
{
    if days.len() == 0 {
        Seq::empty()
    } else {
        match accept_step(days[0], prev) {
            Some(v) => seq![v] + replay_accepted(days.drop_first(), v),
            None => replay_accepted(days.drop_first(), prev),
        }
    }
}

/// The previously-accepted instant after a trace has been replayed.
pub open spec fn replay_prev(days: Seq<(Option<int>, Option<int>)>, prev: int) -> int
    decreases days.len(),
{
    if days.len() == 0 {
        prev
    } else {
        match accept_step(days[0], prev) {
            Some(v) => replay_prev(days.drop_first(), v),
            None => replay_prev(days.drop_first(), prev),
        }
    }
}

/// Every answer of the trace lies within the solar day it was asked about:
/// day `i`'s naive answer within day `i`, its re-query answer within day
/// `i + 1`.
pub open spec fn trace_in_windows(days: Seq<(Option<int>, Option<int>)>, start: int) -> bool {
    forall|i: int|
        0 <= i < days.len() ==> {
            &&& ((#[trigger] days[i]).0 matches Some(v) ==> start + i * 86400 <= v < start + (i + 1)
                * 86400)
            &&& (days[i].1 matches Some(v) ==> start + (i + 1) * 86400 <= v < start + (i + 2)
                * 86400)
        }
}

/// Replaying a trace extended by one day appends that day's contribution.
proof fn lemma_replay_snoc(days: Seq<(Option<int>, Option<int>)>, day: (Option<int>, Option<int>), prev: int)
    ensures
        replay_accepted(days.push(day), prev) == replay_accepted(days, prev) + (
        match accept_step(day, replay_prev(days, prev)) {
            Some(v) => seq![v],
            None => Seq::<int>::empty(),
        }),
        replay_prev(days.push(day), prev) == (match accept_step(day, replay_prev(days, prev)) {
            Some(v) => v,
            None => replay_prev(days, prev),
        }),
    decreases days.len(),
{
    let snoc = days.push(day);
    let tail_step: Seq<int> = match accept_step(day, replay_prev(days, prev)) {
        Some(v) => seq![v],
        None => Seq::<int>::empty(),
    };
    if days.len() == 0 {
        assert(snoc[0] == day);
        assert(snoc.drop_first() =~= Seq::<(Option<int>, Option<int>)>::empty());
        assert(replay_prev(days, prev) == prev);
        assert(replay_accepted(days, prev) == Seq::<int>::empty());
        match accept_step(day, prev) {
            Some(v) => {
                assert(replay_accepted(snoc, prev) == seq![v] + replay_accepted(
                    snoc.drop_first(),
                    v,
                ));
                assert(replay_accepted(snoc.drop_first(), v) == Seq::<int>::empty());
                assert(seq![v] + Seq::<int>::empty() =~= seq![v]);
                assert(Seq::<int>::empty() + seq![v] =~= seq![v]);
                assert(replay_prev(snoc, prev) == replay_prev(snoc.drop_first(), v));
            },
            None => {
                assert(replay_accepted(snoc, prev) == replay_accepted(snoc.drop_first(), prev));
                assert(Seq::<int>::empty() + Seq::<int>::empty() =~= Seq::<int>::empty());
                assert(replay_prev(snoc, prev) == replay_prev(snoc.drop_first(), prev));
            },
        }
    } else {
        assert(snoc[0] == days[0]);
        assert(snoc.drop_first() =~= days.drop_first().push(day));
        match accept_step(days[0], prev) {
            Some(v) => {
                assert(replay_accepted(snoc, prev) == seq![v] + replay_accepted(
                    days.drop_first().push(day),
                    v,
                ));
                assert(replay_prev(snoc, prev) == replay_prev(days.drop_first().push(day), v));
                assert(replay_accepted(days, prev) == seq![v] + replay_accepted(
                    days.drop_first(),
                    v,
                ));
                assert(replay_prev(days, prev) == replay_prev(days.drop_first(), v));
                lemma_replay_snoc(days.drop_first(), day, v);
                vstd::seq_lib::lemma_concat_associative(
                    seq![v],
                    replay_accepted(days.drop_first(), v),
                    tail_step,
                );
            },
            None => {
                assert(replay_accepted(snoc, prev) == replay_accepted(
                    days.drop_first().push(day),
                    prev,
                ));
                assert(replay_prev(snoc, prev) == replay_prev(days.drop_first().push(day), prev));
                assert(replay_accepted(days, prev) == replay_accepted(days.drop_first(), prev));
                assert(replay_prev(days, prev) == replay_prev(days.drop_first(), prev));
                lemma_replay_snoc(days.drop_first(), day, prev);
            },
        }
    }
}

/// Produces up to `number_of_days` moonrise instants, one candidate per
/// solar day starting with the day containing `now`, skipping days without
/// a moonrise.  A candidate within 500 seconds of the previously accepted
/// instant is treated as a day-boundary aliasing artifact and replaced by
/// one more query at the next day's boundary, whose answer, if any, is
/// accepted instead.  The result is exactly the decision rule replayed
/// over a trace of per-day oracle answers, each within the solar day it
/// was asked about; the accepted instants are strictly increasing, the
/// instant at position `k` was found no earlier than the `k`-th probed
/// day, and every instant falls within the probed window of days.
pub fn generate_moonrises<O: MoonriseOracle>(
    oracle: &O,
    now: i64,
    lat_udeg: i64,
    lon_udeg: i64,
    number_of_days: usize,
) -> (r: Vec<i64>)
    requires
        0 <= now <= 4000000000000,
        -90000000 <= lat_udeg <= 90000000,
        -180000000 <= lon_udeg <= 180000000,
        number_of_days <= 36500,
    ensures
        exists|days: Seq<(Option<int>, Option<int>)>|
            {
                &&& days.len() == number_of_days
                &&& trace_in_windows(days, solar_day_start_of(now as int, lon_udeg as int))
                &&& r@.map_values(|v: i64| v as int) == #[trigger] replay_accepted(days, 0)
            },
        r@.len() <= number_of_days,
        forall|k: int| #![trigger r@[k]] 0 <= k && k + 1 < r@.len() ==> r@[k] < r@[k + 1],
        forall|k: int|
            0 <= k < r@.len() ==> solar_day_start_of(now as int, lon_udeg as int) + k * 86400
                <= #[trigger] r@[k] < solar_day_start_of(now as int, lon_udeg as int) + (
            number_of_days as int + 1) * 86400,
{
    let ghost start0: int = solar_day_start_of(now as int, lon_udeg as int);
    let mut moonrises: Vec<i64> = Vec::new();
    let mut previous_moonrise: i64 = 0;
    let ghost mut prev_day: int = 0;
    let ghost mut trace: Seq<(Option<int>, Option<int>)> = Seq::empty();
    let mut i: usize = 0;
    while i < number_of_days
        invariant
            0 <= now <= 4000000000000,
            -90000000 <= lat_udeg <= 90000000,
            -180000000 <= lon_udeg <= 180000000,
            number_of_days <= 36500,
            i <= number_of_days,
            start0 == solar_day_start_of(now as int, lon_udeg as int),
            now as int - 2 * 86400 < start0 <= now as int + 86400,
            solar_day_start_of(now as int + i as int * 86400, lon_udeg as int) == start0 + i as int
                * 86400,
            moonrises@.len() <= i,
            trace.len() == i,
            trace_in_windows(trace, start0),
            moonrises@.map_values(|v: i64| v as int) == replay_accepted(trace, 0),
            previous_moonrise as int == replay_prev(trace, 0),
            moonrises@.len() == 0 ==> previous_moonrise == 0,
            moonrises@.len() > 0 ==> {
                &&& previous_moonrise == moonrises@[moonrises@.len() - 1]
                &&& start0 <= prev_day <= start0 + i as int * 86400
                &&& prev_day <= previous_moonrise < prev_day + 2 * 86400
                &&& previous_moonrise < start0 + (i as int + 1) * 86400
            },
            forall|k: int| #![trigger moonrises@[k]]
                0 <= k && k + 1 < moonrises@.len() ==> moonrises@[k] < moonrises@[k + 1],
            forall|k: int|
                0 <= k < moonrises@.len() ==> start0 + k * 86400 <= #[trigger] moonrises@[k]
                    < start0 + (i as int + 1) * 86400,
        decreases number_of_days - i,
    {
        let anchor: i64 = now + (i as i64) * 86400;
        let day_start: i64 = solar_day_start(anchor, lon_udeg);
        proof {
            assert(day_start as int == start0 + i as int * 86400);
        }
        let naive = oracle.moonrise(day_start, lon_udeg, lat_udeg);
        let requery = needs_requery(previous_moonrise, naive);
        let next_moonrise = if requery {
            oracle.moonrise(day_start + 86400, lon_udeg, lat_udeg)
        } else {
            naive
        };
        let ghost entry: (Option<int>, Option<int>) = (
            match naive {
                Some(v) => Some(v as int),
                None => None,
            },
            if requery {
                match next_moonrise {
                    Some(v) => Some(v as int),
                    None => None,
                }
            } else {
                None
            },
        );
        proof {
            lemma_replay_snoc(trace, entry, 0);
            assert(accept_step(entry, previous_moonrise as int) == (match next_moonrise {
                Some(v) => Some(v as int),
                None => None::<int>,
            }));
            assert forall|j: int| 0 <= j < trace.push(entry).len() implies {
                &&& ((#[trigger] trace.push(entry)[j]).0 matches Some(v) ==> start0 + j * 86400
                    <= v < start0 + (j + 1) * 86400)
                &&& (trace.push(entry)[j].1 matches Some(v) ==> start0 + (j + 1) * 86400 <= v
                    < start0 + (j + 2) * 86400)
            } by {
                if j < trace.len() {
                    assert(trace.push(entry)[j] == trace[j]);
                } else {
                    assert(trace.push(entry)[j] == entry);
                }
            }
        }
        let ghost old_seq = moonrises@;
        match next_moonrise {
            Some(moonrise) => {
                proof {
                    prev_day = if requery {
                        day_start as int + 86400
                    } else {
                        day_start as int
                    };
                }
                moonrises.push(moonrise);
                previous_moonrise = moonrise;
                proof {
                    assert(moonrises@.map_values(|v: i64| v as int) =~= old_seq.map_values(
                        |v: i64| v as int,
                    ) + seq![moonrise as int]);
                    assert forall|k: int| #![trigger moonrises@[k]]
                        0 <= k && k + 1 < moonrises@.len() implies moonrises@[k] < moonrises@[k
                        + 1] by {
                        if k + 1 < old_seq.len() {
                            assert(moonrises@[k] == old_seq[k]);
                            assert(moonrises@[k + 1] == old_seq[k + 1]);
                        } else {
                            assert(moonrises@[k] == old_seq[old_seq.len() - 1]);
                            assert(moonrises@[k + 1] == moonrise);
                        }
                    }
                    assert forall|k: int|
                        0 <= k < moonrises@.len() implies start0 + k * 86400
                        <= #[trigger] moonrises@[k] < start0 + (i as int + 2) * 86400 by {
                        if k < old_seq.len() {
                            assert(moonrises@[k] == old_seq[k]);
                        } else {
                            assert(moonrises@[k] == moonrise);
                            assert(k <= i as int);
                        }
                    }
                }
            },
            None => {
            },
        }
        proof {
            trace = trace.push(entry);
            lemma_solar_day_step(now as int + i as int * 86400, lon_udeg as int);
        }
        i = i + 1;
    }
    proof {
        assert(trace.len() == number_of_days && trace_in_windows(trace, start0)
            && moonrises@.map_values(|v: i64| v as int) == replay_accepted(trace, 0));
    }
    moonrises
}

/// Two answers report either the same moonrise event or two events more
/// than the proximity threshold of 500 seconds apart.
pub open spec fn spaced_pair(a: Option<int>, b: Option<int>) -> bool {
    a matches Some(v) ==> (b matches Some(w) ==> (v == w || v - w > 500 || w - v > 500))
}

/// All answers of the trace are pairwise spaced: any two answers, from any
/// days, a day's naive answer against any re-query answer included, report
/// the same event or events more than 500 seconds apart.
pub open spec fn trace_spaced(days: Seq<(Option<int>, Option<int>)>) -> bool {
    forall|i: int, j: int| #![trigger days[i], days[j]]
        0 <= i < days.len() && 0 <= j < days.len() ==> {
            &&& spaced_pair(days[i].0, days[j].1)
            &&& (i != j ==> spaced_pair(days[i].0, days[j].0))
            &&& (i != j ==> spaced_pair(days[i].1, days[j].1))
        }
}

/// Every answer of the trace is spaced from the instant `prev`.
pub open spec fn spaced_from(prev: int, days: Seq<(Option<int>, Option<int>)>) -> bool {
    forall|i: int|
        0 <= i < days.len() ==> {
            &&& spaced_pair((#[trigger] days[i]).0, Some(prev))
            &&& spaced_pair(days[i].1, Some(prev))
        }
}

proof fn lemma_tail_hypotheses(days: Seq<(Option<int>, Option<int>)>, start: int)
    requires
        days.len() > 0,
        trace_in_windows(days, start),
        trace_spaced(days),
    ensures
        trace_in_windows(days.drop_first(), start + 86400),
        trace_spaced(days.drop_first()),
{
    let tail = days.drop_first();
    assert forall|i: int| 0 <= i < tail.len() implies {
        &&& ((#[trigger] tail[i]).0 matches Some(v) ==> start + 86400 + i * 86400 <= v < start
            + 86400 + (i + 1) * 86400)
        &&& (tail[i].1 matches Some(v) ==> start + 86400 + (i + 1) * 86400 <= v < start + 86400 + (
        i + 2) * 86400)
    } by {
        assert(tail[i] == days[i + 1]);
    }
    assert forall|i: int, j: int| #![trigger tail[i], tail[j]]
        0 <= i < tail.len() && 0 <= j < tail.len() implies {
        &&& spaced_pair(tail[i].0, tail[j].1)
        &&& (i != j ==> spaced_pair(tail[i].0, tail[j].0))
        &&& (i != j ==> spaced_pair(tail[i].1, tail[j].1))
    } by {
        assert(tail[i] == days[i + 1]);
        assert(tail[j] == days[j + 1]);
    }
}

proof fn lemma_replay_gaps_from(days: Seq<(Option<int>, Option<int>)>, prev: int, start: int)
    requires
        trace_in_windows(days, start),
        trace_spaced(days),
        spaced_from(prev, days),
        prev < start + 86400,
    ensures
        forall|k: int| #![trigger replay_accepted(days, prev)[k]]
            0 <= k && k + 1 < replay_accepted(days, prev).len() ==> replay_accepted(days, prev)[k
                + 1] - replay_accepted(days, prev)[k] > 500,
        replay_accepted(days, prev).len() > 0 ==> replay_accepted(days, prev)[0] - prev > 500,
    decreases days.len(),
{
    if days.len() > 0 {
        let tail = days.drop_first();
        lemma_tail_hypotheses(days, start);
        match accept_step(days[0], prev) {
            Some(v) => {
                assert(v - prev > 500);
                assert forall|i: int| 0 <= i < tail.len() implies {
                    &&& spaced_pair((#[trigger] tail[i]).0, Some(v))
                    &&& spaced_pair(tail[i].1, Some(v))
                } by {
                    assert(tail[i] == days[i + 1]);
                    assert(spaced_pair(days[0].0, days[i + 1].0) && spaced_pair(days[0].0, days[i + 1].1));
                    assert(spaced_pair(days[i + 1].0, days[0].1) && spaced_pair(days[0].1, days[i + 1].1));
                }
                lemma_replay_gaps_from(tail, v, start + 86400);
                let whole = replay_accepted(days, prev);
                let rest = replay_accepted(tail, v);
                assert(whole == seq![v] + rest);
                assert forall|k: int| #![trigger whole[k]]
                    0 <= k && k + 1 < whole.len() implies whole[k + 1] - whole[k] > 500 by {
                    if k == 0 {
                        assert(whole[0] == v);
                        assert(whole[1] == rest[0]);
                    } else {
                        assert(whole[k] == rest[k - 1]);
                        assert(whole[k + 1] == rest[k]);
                    }
                }
                assert(whole[0] == v);
            },
            None => {
                assert forall|i: int| 0 <= i < tail.len() implies {
                    &&& spaced_pair((#[trigger] tail[i]).0, Some(prev))
                    &&& spaced_pair(tail[i].1, Some(prev))
                } by {
                    assert(tail[i] == days[i + 1]);
                }
                lemma_replay_gaps_from(tail, prev, start + 86400);
                assert(replay_accepted(days, prev) == replay_accepted(tail, prev));
            },
        }
    }
}

/// Replaying the generator's decision rule over a window-respecting,
/// pairwise-spaced trace never accepts two consecutive instants within 500
/// seconds of one another: the single-step correction is sound whenever
/// the oracle's answers report genuinely distinct moonrise events.  (A
/// trace that violates the spacing hypothesis can defeat the heuristic: a
/// re-query answered at the very start of its day, right after a previous
/// re-query answered at the very end of its own, leaves a gap of one
/// second.)
pub proof fn lemma_replay_spacing(days: Seq<(Option<int>, Option<int>)>, start: int)
    requires
        trace_in_windows(days, start),
        trace_spaced(days),
    ensures
        forall|k: int| #![trigger replay_accepted(days, 0)[k]]
            0 <= k && k + 1 < replay_accepted(days, 0).len() ==> replay_accepted(days, 0)[k + 1]
                - replay_accepted(days, 0)[k] > 500,
    decreases days.len(),
{
    if days.len() > 0 {
        let tail = days.drop_first();
        lemma_tail_hypotheses(days, start);
        match accept_step(days[0], 0) {
            Some(v) => {
                assert forall|i: int| 0 <= i < tail.len() implies {
                    &&& spaced_pair((#[trigger] tail[i]).0, Some(v))
                    &&& spaced_pair(tail[i].1, Some(v))
                } by {
                    assert(tail[i] == days[i + 1]);
                    assert(spaced_pair(days[0].0, days[i + 1].0) && spaced_pair(days[0].0, days[i + 1].1));
                    assert(spaced_pair(days[i + 1].0, days[0].1) && spaced_pair(days[0].1, days[i + 1].1));
                }
                assert(v < start + 2 * 86400);
                lemma_replay_gaps_from(tail, v, start + 86400);
                let whole = replay_accepted(days, 0);
                let rest = replay_accepted(tail, v);
                assert(whole == seq![v] + rest);
                assert forall|k: int| #![trigger whole[k]]
                    0 <= k && k + 1 < whole.len() implies whole[k + 1] - whole[k] > 500 by {
                    if k == 0 {
                        assert(whole[0] == v);
                        assert(whole[1] == rest[0]);
                    } else {
                        assert(whole[k] == rest[k - 1]);
                        assert(whole[k + 1] == rest[k]);
                    }
                }
            },
            None => {
                lemma_replay_spacing(tail, start + 86400);
                assert(replay_accepted(days, 0) == replay_accepted(tail, 0));
            },
        }
    }
}

/// In a chain whose consecutive entries lie more than the proximity
/// threshold of 500 seconds apart, every later entry lies more than 500
/// seconds after every earlier one: such a chain never holds two instants
/// within 500 seconds of one another.
pub proof fn lemma_no_two_within_threshold(s: Seq<int>, a: int, b: int)
    requires
        forall|k: int| #![trigger s[k]] 0 <= k && k + 1 < s.len() ==> s[k + 1] - s[k] > 500,
        0 <= a < b < s.len(),
    ensures
        s[b] - s[a] > 500,
    decreases b - a,
{
    if a + 1 < b {
        lemma_no_two_within_threshold(s, a + 1, b);
    }
}

} // verus!
