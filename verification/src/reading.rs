//! Electricity readings, and the times at which a history of readings is
//! laid out.

use crate::quantity::Quantity;
use crate::timestamp::Timestamp;
use crate::timestamp::MAX_SECONDS;
use vstd::prelude::*;

verus! {

/// Days of history that are laid out when no duration is given.
pub const DEFAULT_DURATION_DAYS: i64 = 10;

/// Hours between two readings when no interval is given.
pub const DEFAULT_INTERVAL_HOURS: i64 = 6;

/// Hours in one day.
pub const HOURS_PER_DAY: i64 = 24;

/// Seconds in one hour.
pub const SECONDS_PER_HOUR: i64 = 3_600;

/// What a meter showed at one instant.
#[derive(Clone, Copy, Debug, PartialEq)]
pub struct ElectricityReading {
    pub time: Timestamp,
    pub reading: Quantity,
}

impl ElectricityReading {
    /// The reading of the given value at the given time.
    pub fn new(time: Timestamp, reading: Quantity) -> (made: ElectricityReading)
        ensures
            made.time == time,
            made.reading == reading,
    {
        ElectricityReading { time, reading }
    }
}

/// The duration that is meant: the one given, or the default.
pub open spec fn duration_or_default(duration: Option<i64>) -> int {
    match duration {
        Some(days) => days as int,
        None => DEFAULT_DURATION_DAYS as int,
    }
}

/// The interval that is meant: the one given, or the default.
pub open spec fn interval_or_default(interval: Option<i64>) -> int {
    match interval {
        Some(hours) => hours as int,
        None => DEFAULT_INTERVAL_HOURS as int,
    }
}

/// How many readings a history of `duration_days` days holds when one is
/// taken every `interval_hours` hours, the newest at the end of the period
/// and none at its start or before: the number of steps of one interval that
/// begin inside the period.
pub open spec fn scheduled_count(duration_days: int, interval_hours: int) -> int {
    if duration_days <= 0 {
        0
    } else {
        (duration_days * HOURS_PER_DAY + interval_hours - 1) / interval_hours
    }
}

/// The count is the least number of intervals that cover the period.
pub proof fn lemma_scheduled_count_covers(duration_days: int, interval_hours: int)
    requires
        duration_days > 0,
        interval_hours >= 1,
    ensures
        (scheduled_count(duration_days, interval_hours) - 1) * interval_hours < duration_days
            * HOURS_PER_DAY,
        duration_days * HOURS_PER_DAY <= scheduled_count(duration_days, interval_hours)
            * interval_hours,
{
    let period = duration_days * HOURS_PER_DAY;
    let count = scheduled_count(duration_days, interval_hours);
    assert(count == (period + interval_hours - 1) / interval_hours);
    lemma_ceiling_bounds(period, interval_hours);
}

/// No other number of intervals is the least that covers the period.
pub proof fn lemma_scheduled_count_unique(duration_days: int, interval_hours: int, count: int)
    requires
        duration_days > 0,
        interval_hours >= 1,
        (count - 1) * interval_hours < duration_days * HOURS_PER_DAY,
        duration_days * HOURS_PER_DAY <= count * interval_hours,
    ensures
        count == scheduled_count(duration_days, interval_hours),
{
    let period = duration_days * HOURS_PER_DAY;
    let least = scheduled_count(duration_days, interval_hours);
    lemma_scheduled_count_covers(duration_days, interval_hours);
    assert(count == least) by (nonlinear_arith)
        requires
            interval_hours >= 1,
            (count - 1) * interval_hours < period,
            period <= count * interval_hours,
            (least - 1) * interval_hours < period,
            period <= least * interval_hours,
    {
    }
}

proof fn lemma_ceiling_bounds(period: int, step: int)
    requires
        step >= 1,
    ensures
        ((period + step - 1) / step - 1) * step < period,
        period <= ((period + step - 1) / step) * step,
{
    let total = period + step - 1;
    let quotient = total / step;
    assert(total == quotient * step + total % step && 0 <= total % step < step)
        by (nonlinear_arith)
        requires
            step >= 1,
            quotient == total / step,
    {
    }
    assert((quotient - 1) * step == quotient * step - step) by (nonlinear_arith);
}

/// Whether a history that ends at `now` can be laid out: the interval is an
/// hour or more, and the period, if it has any length, starts at an instant
/// that a timestamp can hold.
pub open spec fn can_schedule(now: Timestamp, duration: Option<i64>, interval: Option<i64>) -> bool {
    &&& interval_or_default(interval) >= 1
    &&& duration_or_default(duration) > 0 ==> now.unix_seconds() - duration_or_default(duration)
        * HOURS_PER_DAY * SECONDS_PER_HOUR >= -MAX_SECONDS
}

/// The times of a history of readings that ends at `now`.
///
/// The newest reading is taken at `now`, each earlier one an interval before
/// the next, as long as the time lies inside the period that ends at `now`:
/// strictly after `now` minus the duration. A duration of zero or less gives
/// no reading. Each time keeps the fraction of a second and the offset of
/// `now`.
///
/// Without a duration the period is `DEFAULT_DURATION_DAYS` days, without an
/// interval a reading is taken every `DEFAULT_INTERVAL_HOURS` hours.
pub fn reading_times(now: Timestamp, duration: Option<i64>, interval: Option<i64>) -> (times: Vec<
    Timestamp,
>)
    requires
        can_schedule(now, duration, interval),
    ensures
        times@.len() == scheduled_count(
            duration_or_default(duration),
            interval_or_default(interval),
        ),
        forall|k: int|
            0 <= k < times@.len() ==> {
                &&& (#[trigger] times@[k]).unix_seconds() == now.unix_seconds() - k
                    * interval_or_default(interval) * SECONDS_PER_HOUR
                &&& times@[k].subsec_nanos() == now.subsec_nanos()
                &&& times@[k].utc_offset() == now.utc_offset()
            },
{
    let days: i64 = match duration {
        Some(days) => days,
        None => DEFAULT_DURATION_DAYS,
    };
    let hours: i64 = match interval {
        Some(hours) => hours,
        None => DEFAULT_INTERVAL_HOURS,
    };
    let mut times: Vec<Timestamp> = Vec::new();
    if days <= 0 {
        return times;
    }
    let newest: i64 = now.seconds();
    let period: i64 = days * HOURS_PER_DAY * SECONDS_PER_HOUR;
    let start: i64 = newest - period;
    let step: i128 = (hours as i128) * (SECONDS_PER_HOUR as i128);
    let mut current: Timestamp = now;
    loop
        invariant_except_break
            current.unix_seconds() == newest - times@.len() * step,
            current.subsec_nanos() == now.subsec_nanos(),
            current.utc_offset() == now.utc_offset(),
            current.unix_seconds() > start,
        invariant
            days == duration_or_default(duration),
            hours == interval_or_default(interval),
            hours >= 1,
            days > 0,
            newest == now.unix_seconds(),
            period == days * HOURS_PER_DAY * SECONDS_PER_HOUR,
            start == newest - period,
            start >= -MAX_SECONDS,
            step == hours * SECONDS_PER_HOUR,
            forall|k: int|
                0 <= k < times@.len() ==> {
                    &&& (#[trigger] times@[k]).unix_seconds() == newest - k * step
                    &&& times@[k].subsec_nanos() == now.subsec_nanos()
                    &&& times@[k].utc_offset() == now.utc_offset()
                },
        ensures
            times@.len() >= 1,
            newest - (times@.len() - 1) * step > start,
            newest - times@.len() * step <= start,
            forall|k: int|
                0 <= k < times@.len() ==> {
                    &&& (#[trigger] times@[k]).unix_seconds() == newest - k * step
                    &&& times@[k].subsec_nanos() == now.subsec_nanos()
                    &&& times@[k].utc_offset() == now.utc_offset()
                },
        decreases current.unix_seconds() - start,
    {
        let ghost taken = times@.len() as int;
        times.push(current);
        assert((taken + 1) * step == taken * step + step) by (nonlinear_arith);
        let earlier: i128 = (current.seconds() as i128) - step;
        if earlier <= start as i128 {
            break ;
        }
        match current.minus_seconds(step as i64) {
            Some(moved) => {
                current = moved;
            },
            None => {
                break ;
            },
        }
    }
    proof {
        let count = times@.len() as int;
        let interval_hours = interval_or_default(interval);
        let duration_days = duration_or_default(duration);
        assert((count - 1) * interval_hours < duration_days * HOURS_PER_DAY
            && duration_days * HOURS_PER_DAY <= count * interval_hours) by (nonlinear_arith)
            requires
                step == interval_hours * SECONDS_PER_HOUR,
                period == duration_days * HOURS_PER_DAY * SECONDS_PER_HOUR,
                start == newest - period,
                newest - (count - 1) * step > start,
                newest - count * step <= start,
        {
        }
        lemma_scheduled_count_unique(duration_days, interval_hours, count);
        assert forall|k: int| 0 <= k < times@.len() implies (#[trigger] times@[k]).unix_seconds()
            == now.unix_seconds() - k * interval_hours * SECONDS_PER_HOUR by {
            assert(k * step == k * interval_hours * SECONDS_PER_HOUR) by (nonlinear_arith)
                requires
                    step == interval_hours * SECONDS_PER_HOUR,
            {
            }
        }
    }
    times
}

/// The times of a history of readings that ends at `now`, as `reading_times`
/// gives them, if the history can be laid out.
pub fn checked_reading_times(now: Timestamp, duration: Option<i64>, interval: Option<i64>) -> (times:
    Option<Vec<Timestamp>>)
    ensures
        times is Some <==> can_schedule(now, duration, interval),
        times matches Some(times) ==> {
            &&& times@.len() == scheduled_count(
                duration_or_default(duration),
                interval_or_default(interval),
            )
            &&& forall|k: int|
                0 <= k < times@.len() ==> {
                    &&& (#[trigger] times@[k]).unix_seconds() == now.unix_seconds() - k
                        * interval_or_default(interval) * SECONDS_PER_HOUR
                    &&& times@[k].subsec_nanos() == now.subsec_nanos()
                    &&& times@[k].utc_offset() == now.utc_offset()
                }
        },
{
    let days: i64 = match duration {
        Some(days) => days,
        None => DEFAULT_DURATION_DAYS,
    };
    let hours: i64 = match interval {
        Some(hours) => hours,
        None => DEFAULT_INTERVAL_HOURS,
    };
    if hours < 1 {
        return None;
    }
    if days > 0 {
        let period: i128 = (days as i128) * 86_400;
        assert(period == days * HOURS_PER_DAY * SECONDS_PER_HOUR);
        if (now.seconds() as i128) - period < -(MAX_SECONDS as i128) {
            return None;
        }
    }
    Some(reading_times(now, duration, interval))
}

} // verus!
