//! The time that a set of readings spans.
//!
//! The cost of a plan is the average reading, per hour that the readings
//! span, times the plan's unit rate. The span is integer arithmetic on the
//! instants of the readings and is computed here, in whole seconds; dividing
//! it into hours is left to the arithmetic on quantities.

use crate::reading::ElectricityReading;
use crate::timestamp::whole_seconds;
use crate::timestamp::Timestamp;
use crate::timestamp::MAX_SECONDS;
use vstd::prelude::*;

verus! {

/// The instant of the earliest of the readings. Meant for a sequence that is
/// not empty.
pub open spec fn earliest_instant(readings: Seq<ElectricityReading>) -> int
    decreases readings.len(),
{
    if readings.len() <= 1 {
        readings[0].time.instant()
    } else {
        let rest = earliest_instant(readings.drop_last());
        if readings.last().time.instant() < rest {
            readings.last().time.instant()
        } else {
            rest
        }
    }
}

/// The instant of the latest of the readings. Meant for a sequence that is
/// not empty.
pub open spec fn latest_instant(readings: Seq<ElectricityReading>) -> int
    decreases readings.len(),
{
    if readings.len() <= 1 {
        readings[0].time.instant()
    } else {
        let rest = latest_instant(readings.drop_last());
        if readings.last().time.instant() > rest {
            readings.last().time.instant()
        } else {
            rest
        }
    }
}

/// The whole seconds from the earliest of the readings to the latest; zero
/// when there is no reading.
pub open spec fn elapsed_seconds(readings: Seq<ElectricityReading>) -> int {
    if readings.len() == 0 {
        0
    } else {
        whole_seconds(latest_instant(readings) - earliest_instant(readings))
    }
}

/// The earliest instant is the instant of one of the readings, and none of
/// them is earlier.
pub proof fn lemma_earliest_instant(readings: Seq<ElectricityReading>)
    requires
        readings.len() > 0,
    ensures
        exists|i: int|
            0 <= i < readings.len() && (#[trigger] readings[i]).time.instant() == earliest_instant(
                readings,
            ),
        forall|i: int|
            0 <= i < readings.len() ==> earliest_instant(readings) <= (
            #[trigger] readings[i]).time.instant(),
    decreases readings.len(),
{
    if readings.len() > 1 {
        let front = readings.drop_last();
        lemma_earliest_instant(front);
        let witness = choose|i: int|
            0 <= i < front.len() && (#[trigger] front[i]).time.instant() == earliest_instant(front);
        assert(front[witness] == readings[witness]);
        let last = readings.len() - 1;
        assert(readings[last] == readings.last());
        assert forall|i: int| 0 <= i < readings.len() implies earliest_instant(readings) <= (
        #[trigger] readings[i]).time.instant() by {
            if i < last {
                assert(front[i] == readings[i]);
            }
        }
    } else {
        assert(readings[0].time.instant() == earliest_instant(readings));
    }
}

/// The latest instant is the instant of one of the readings, and none of them
/// is later.
pub proof fn lemma_latest_instant(readings: Seq<ElectricityReading>)
    requires
        readings.len() > 0,
    ensures
        exists|i: int|
            0 <= i < readings.len() && (#[trigger] readings[i]).time.instant() == latest_instant(
                readings,
            ),
        forall|i: int|
            0 <= i < readings.len() ==> (#[trigger] readings[i]).time.instant() <= latest_instant(
                readings,
            ),
    decreases readings.len(),
{
    if readings.len() > 1 {
        let front = readings.drop_last();
        lemma_latest_instant(front);
        let witness = choose|i: int|
            0 <= i < front.len() && (#[trigger] front[i]).time.instant() == latest_instant(front);
        assert(front[witness] == readings[witness]);
        let last = readings.len() - 1;
        assert(readings[last] == readings.last());
        assert forall|i: int| 0 <= i < readings.len() implies (#[trigger] readings[i]).time.instant()
            <= latest_instant(readings) by {
            if i < last {
                assert(front[i] == readings[i]);
            }
        }
    } else {
        assert(readings[0].time.instant() == latest_instant(readings));
    }
}

/// The span of a set of readings does not depend on the order in which they
/// were recorded: two sequences that hold the same readings, each as often in
/// one as in the other, span the same number of seconds.
pub proof fn lemma_elapsed_seconds_ignores_order(
    first: Seq<ElectricityReading>,
    second: Seq<ElectricityReading>,
)
    requires
        first.to_multiset() == second.to_multiset(),
    ensures
        elapsed_seconds(first) == elapsed_seconds(second),
{
    first.to_multiset_ensures();
    second.to_multiset_ensures();
    assert(first.len() == second.len());
    if first.len() > 0 {
        assert forall|i: int| 0 <= i < first.len() implies second.contains(#[trigger] first[i]) by {
            assert(first.contains(first[i]));
            assert(first.to_multiset().count(first[i]) > 0);
            assert(second.to_multiset().count(first[i]) > 0);
        }
        assert forall|i: int| 0 <= i < second.len() implies first.contains(#[trigger] second[i]) by {
            assert(second.contains(second[i]));
            assert(second.to_multiset().count(second[i]) > 0);
            assert(first.to_multiset().count(second[i]) > 0);
        }
        lemma_earliest_instant(first);
        lemma_earliest_instant(second);
        lemma_latest_instant(first);
        lemma_latest_instant(second);
        let low_first = choose|i: int|
            0 <= i < first.len() && (#[trigger] first[i]).time.instant() == earliest_instant(first);
        let low_second = choose|i: int|
            0 <= i < second.len() && (#[trigger] second[i]).time.instant() == earliest_instant(
                second,
            );
        let high_first = choose|i: int|
            0 <= i < first.len() && (#[trigger] first[i]).time.instant() == latest_instant(first);
        let high_second = choose|i: int|
            0 <= i < second.len() && (#[trigger] second[i]).time.instant() == latest_instant(second);
        lemma_found_in(first, second, low_first);
        lemma_found_in(second, first, low_second);
        lemma_found_in(first, second, high_first);
        lemma_found_in(second, first, high_second);
        assert(earliest_instant(first) == earliest_instant(second));
        assert(latest_instant(first) == latest_instant(second));
    }
}

proof fn lemma_found_in(from: Seq<ElectricityReading>, within: Seq<ElectricityReading>, i: int)
    requires
        0 <= i < from.len(),
        within.contains(from[i]),
    ensures
        exists|j: int| 0 <= j < within.len() && #[trigger] within[j] == from[i],
{
}

/// The whole seconds from the earliest of the readings to the latest,
/// whatever their order; zero when there is no reading or only one.
pub fn total_seconds_elapsed(readings: &Vec<ElectricityReading>) -> (elapsed: i64)
    ensures
        elapsed == elapsed_seconds(readings@),
        0 <= elapsed <= 2 * MAX_SECONDS,
{
    if readings.len() == 0 {
        return 0;
    }
    let mut earliest: Timestamp = readings[0].time;
    let mut latest: Timestamp = readings[0].time;
    assert(readings@.take(1).len() == 1);
    assert(readings@.take(1)[0] == readings@[0]);
    let mut i: usize = 1;
    while i < readings.len()
        invariant
            1 <= i <= readings.len(),
            earliest.instant() == earliest_instant(readings@.take(i as int)),
            latest.instant() == latest_instant(readings@.take(i as int)),
            earliest.instant() <= latest.instant(),
        decreases readings.len() - i,
    {
        let time: Timestamp = readings[i].time;
        proof {
            let upto = readings@.take(i as int + 1);
            assert(upto.drop_last() == readings@.take(i as int));
            assert(upto.last() == readings@[i as int]);
        }
        if time.is_before(&earliest) {
            earliest = time;
        }
        if latest.is_before(&time) {
            latest = time;
        }
        i = i + 1;
    }
    assert(readings@.take(readings.len() as int) == readings@);
    latest.whole_seconds_since(&earliest)
}

} // verus!
