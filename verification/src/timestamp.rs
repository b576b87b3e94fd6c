//! Instants with a timezone offset.
//!
//! A [`Timestamp`] is an instant on the UTC time line, counted from the Unix
//! epoch, together with the offset of the local clock that recorded it. The
//! offset travels with the value and is handed back unchanged; order and
//! elapsed time depend on the instant alone.

use vstd::prelude::*;

verus! {

/// Nanoseconds in one second.
pub const NANOS_PER_SECOND: u32 = 1_000_000_000;

/// The largest distance from the epoch, in seconds, that a timestamp may
/// have: 2^52. A count of elapsed seconds between two timestamps is then
/// below 2^53 in magnitude and converts to a binary64 number without loss.
pub const MAX_SECONDS: i64 = 4_503_599_627_370_496;

/// The largest offset from UTC, in seconds, in either direction: one second
/// short of a day.
pub const MAX_OFFSET_SECONDS: i32 = 86_399;

/// Whether the three parts are those of a timestamp.
pub open spec fn in_range(seconds: int, nanos: int, offset_seconds: int) -> bool {
    &&& -MAX_SECONDS <= seconds <= MAX_SECONDS
    &&& 0 <= nanos < NANOS_PER_SECOND
    &&& -MAX_OFFSET_SECONDS <= offset_seconds <= MAX_OFFSET_SECONDS
}

/// A span of nanoseconds in whole seconds, the fraction dropped: rounded
/// toward zero.
pub open spec fn whole_seconds(nanos: int) -> int {
    if nanos >= 0 {
        nanos / (NANOS_PER_SECOND as int)
    } else {
        -((-nanos) / (NANOS_PER_SECOND as int))
    }
}

/// An instant and the UTC offset it was recorded with.
#[derive(Clone, Copy, Debug, PartialEq, Eq)]
pub struct Timestamp {
    seconds: i64,
    nanos: u32,
    offset_seconds: i32,
}

impl Timestamp {
    #[verifier::type_invariant]
    spec fn well_formed(self) -> bool {
        in_range(self.seconds as int, self.nanos as int, self.offset_seconds as int)
    }

    /// Whole seconds from the Unix epoch to the instant, rounded down.
    pub closed spec fn unix_seconds(self) -> int {
        self.seconds as int
    }

    /// Nanoseconds of the instant past `unix_seconds`.
    pub closed spec fn subsec_nanos(self) -> int {
        self.nanos as int
    }

    /// Seconds that the recording clock was ahead of UTC.
    pub closed spec fn utc_offset(self) -> int {
        self.offset_seconds as int
    }

    /// The timestamp with the given parts. Meant for parts that are in
    /// range.
    pub closed spec fn at(seconds: int, nanos: int, offset_seconds: int) -> Timestamp {
        Timestamp {
            seconds: seconds as i64,
            nanos: nanos as u32,
            offset_seconds: offset_seconds as i32,
        }
    }

    /// Nanoseconds from the Unix epoch to the instant.
    pub open spec fn instant(self) -> int {
        self.unix_seconds() * (NANOS_PER_SECOND as int) + self.subsec_nanos()
    }

    /// The timestamp with the given parts, if they are in range.
    pub fn from_unix(seconds: i64, nanos: u32, offset_seconds: i32) -> (made: Option<Timestamp>)
        ensures
            made == (if in_range(seconds as int, nanos as int, offset_seconds as int) {
                Some(Timestamp::at(seconds as int, nanos as int, offset_seconds as int))
            } else {
                None
            }),
            made matches Some(t) ==> {
                &&& t.unix_seconds() == seconds
                &&& t.subsec_nanos() == nanos
                &&& t.utc_offset() == offset_seconds
            },
    {
        if -MAX_SECONDS <= seconds && seconds <= MAX_SECONDS && nanos < NANOS_PER_SECOND
            && -MAX_OFFSET_SECONDS <= offset_seconds && offset_seconds <= MAX_OFFSET_SECONDS {
            Some(Timestamp { seconds, nanos, offset_seconds })
        } else {
            None
        }
    }

    /// Whole seconds from the Unix epoch to the instant, rounded down.
    pub fn seconds(&self) -> (seconds: i64)
        ensures
            seconds == self.unix_seconds(),
            -MAX_SECONDS <= seconds <= MAX_SECONDS,
    {
        proof {
            use_type_invariant(self);
        }
        self.seconds
    }

    /// Nanoseconds of the instant past its whole seconds.
    pub fn nanos(&self) -> (nanos: u32)
        ensures
            nanos == self.subsec_nanos(),
            nanos < NANOS_PER_SECOND,
    {
        proof {
            use_type_invariant(self);
        }
        self.nanos
    }

    /// Seconds that the recording clock was ahead of UTC.
    pub fn offset_seconds(&self) -> (offset_seconds: i32)
        ensures
            offset_seconds == self.utc_offset(),
            -MAX_OFFSET_SECONDS <= offset_seconds <= MAX_OFFSET_SECONDS,
    {
        proof {
            use_type_invariant(self);
        }
        self.offset_seconds
    }

    /// Whether this instant comes strictly before the other.
    pub fn is_before(&self, other: &Timestamp) -> (before: bool)
        ensures
            before == (self.instant() < other.instant()),
    {
        proof {
            use_type_invariant(self);
            use_type_invariant(other);
        }
        self.seconds < other.seconds || (self.seconds == other.seconds && self.nanos < other.nanos)
    }

    /// The whole seconds that passed from `earlier` to this instant; negative
    /// when this instant is the earlier one.
    pub fn whole_seconds_since(&self, earlier: &Timestamp) -> (elapsed: i64)
        ensures
            elapsed == whole_seconds(self.instant() - earlier.instant()),
            -2 * MAX_SECONDS <= elapsed <= 2 * MAX_SECONDS,
    {
        proof {
            use_type_invariant(self);
            use_type_invariant(earlier);
        }
        let seconds: i64 = self.seconds - earlier.seconds;
        if seconds > 0 && self.nanos < earlier.nanos {
            seconds - 1
        } else if seconds < 0 && self.nanos > earlier.nanos {
            seconds + 1
        } else {
            seconds
        }
    }

    /// The instant the given number of seconds earlier, with the same offset,
    /// if it is in range.
    pub fn minus_seconds(&self, seconds: i64) -> (moved: Option<Timestamp>)
        ensures
            moved == (if -MAX_SECONDS <= self.unix_seconds() - seconds <= MAX_SECONDS {
                Some(
                    Timestamp::at(
                        self.unix_seconds() - seconds,
                        self.subsec_nanos(),
                        self.utc_offset(),
                    ),
                )
            } else {
                None
            }),
            moved matches Some(t) ==> {
                &&& t.unix_seconds() == self.unix_seconds() - seconds
                &&& t.subsec_nanos() == self.subsec_nanos()
                &&& t.utc_offset() == self.utc_offset()
            },
    {
        proof {
            use_type_invariant(self);
        }
        match self.seconds.checked_sub(seconds) {
            Some(moved) => Timestamp::from_unix(moved, self.nanos, self.offset_seconds),
            None => None,
        }
    }
}

/// A timestamp made of parts in range has these parts.
pub proof fn lemma_parts_of_timestamp(seconds: int, nanos: int, offset_seconds: int)
    requires
        in_range(seconds, nanos, offset_seconds),
    ensures
        Timestamp::at(seconds, nanos, offset_seconds).unix_seconds() == seconds,
        Timestamp::at(seconds, nanos, offset_seconds).subsec_nanos() == nanos,
        Timestamp::at(seconds, nanos, offset_seconds).utc_offset() == offset_seconds,
{
}

/// A timestamp is the one that its parts make: two timestamps with the same
/// parts are the same.
pub proof fn lemma_timestamp_of_parts(time: Timestamp)
    ensures
        time == Timestamp::at(time.unix_seconds(), time.subsec_nanos(), time.utc_offset()),
{
}

} // verus!
