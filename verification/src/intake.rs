//! Readings as they are submitted.
//!
//! A batch of readings comes in one of two shapes: with the time of each
//! reading as a timestamp, or with the time as text. Text is an RFC 3339 date
//! and time with an offset. It is read by the `chrono` crate; what that reads
//! is taken apart into the plain parts of a [`Timestamp`], and everything
//! after that is this library's own.

use crate::quantity::Quantity;
use crate::reading::ElectricityReading;
use crate::store::DataStore;
use crate::store::StoreError;
use crate::timestamp::in_range;
use crate::timestamp::Timestamp;
use vstd::prelude::*;

verus! {

/// What `chrono` reads from a text as a date and time with an offset: the
/// whole seconds from the Unix epoch, the nanoseconds past them, and the
/// seconds that the offset is ahead of UTC; `None` for a text that it does
/// not read as one.
pub uninterp spec fn parsed_date_time(text: Seq<char>) -> Option<(i64, u32, i32)>;

/// Reads the text with `chrono`: `str::parse` to a `DateTime<FixedOffset>`,
/// which is `chrono`'s `FromStr` for that type, and, where that gives a date
/// and time, its `timestamp`, its `timestamp_subsec_nanos` and the
/// `local_minus_utc` of its `offset`. The contract claims that the outcome
/// depends on the text alone, and gives it its name; it claims nothing of
/// which texts are read, nor of the parts.
#[verifier::external_body]
fn parse_date_time(text: &str) -> (parts: Option<(i64, u32, i32)>)
    ensures
        parts == parsed_date_time(text@),
{
    match text.parse::<chrono::DateTime<chrono::FixedOffset>>() {
        Ok(time) => Some(
            (time.timestamp(), time.timestamp_subsec_nanos(), time.offset().local_minus_utc()),
        ),
        Err(_) => None,
    }
}

/// The timestamp that parts make, if there are parts and they are in range.
pub open spec fn timestamp_of(parts: Option<(i64, u32, i32)>) -> Option<Timestamp> {
    match parts {
        Some(parts) => if in_range(parts.0 as int, parts.1 as int, parts.2 as int) {
            Some(Timestamp::at(parts.0 as int, parts.1 as int, parts.2 as int))
        } else {
            None
        },
        None => None,
    }
}

/// The timestamp that the text denotes, if it denotes one: a date and time
/// that `chrono` reads, inside the range of timestamps. A leap second, which
/// `chrono` reads with a billion nanoseconds or more, is outside it.
pub open spec fn time_in(text: Seq<char>) -> Option<Timestamp> {
    timestamp_of(parsed_date_time(text))
}

/// A reading as a client submits it.
#[derive(Debug)]
pub struct ElectricityReadingRequest {
    /// The time of the reading, as text.
    pub time: String,
    /// What the meter showed.
    pub reading: Quantity,
}

impl Clone for ElectricityReadingRequest {
    fn clone(&self) -> (copy: ElectricityReadingRequest)
        ensures
            copy.time@ == self.time@,
            copy.reading == self.reading,
    {
        ElectricityReadingRequest { time: self.time.clone(), reading: self.reading }
    }
}

/// A batch of readings for one meter, as a client submits it.
#[derive(Debug)]
pub struct StoreReadingRequest {
    pub smart_meter_id: String,
    pub electricity_readings: Vec<ElectricityReadingRequest>,
}

/// The reading that the request describes, if its time can be read.
pub open spec fn reading_in(request: ElectricityReadingRequest) -> Option<ElectricityReading> {
    match time_in(request.time@) {
        Some(time) => Some(ElectricityReading { time, reading: request.reading }),
        None => None,
    }
}

/// Whether the time of every request can be read.
pub open spec fn all_readable(requests: Seq<ElectricityReadingRequest>) -> bool {
    forall|i: int| 0 <= i < requests.len() ==> reading_in(#[trigger] requests[i]) is Some
}

/// The readings that the requests describe, in the order of the requests.
/// Meant for requests that are all readable.
pub open spec fn readings_in(requests: Seq<ElectricityReadingRequest>) -> Seq<ElectricityReading> {
    requests.map_values(|request: ElectricityReadingRequest| reading_in(request)->0)
}

/// The timestamp that parts make, if there are parts and they are in range.
pub fn time_of_parts(parts: Option<(i64, u32, i32)>) -> (time: Option<Timestamp>)
    ensures
        time == timestamp_of(parts),
{
    match parts {
        Some((seconds, nanos, offset_seconds)) => Timestamp::from_unix(
            seconds,
            nanos,
            offset_seconds,
        ),
        None => None,
    }
}

/// The timestamp that the text denotes, if it denotes one.
pub fn read_time(text: &str) -> (time: Option<Timestamp>)
    ensures
        time == time_in(text@),
{
    time_of_parts(parse_date_time(text))
}

/// The readings that the requests describe, in the order of the requests;
/// `MalformedInput` if the time of any of them cannot be read.
pub fn read_readings(requests: &Vec<ElectricityReadingRequest>) -> (readings: Result<
    Vec<ElectricityReading>,
    StoreError,
>)
    ensures
        match readings {
            Ok(readings) => all_readable(requests@) && readings@ == readings_in(requests@),
            Err(error) => error == StoreError::MalformedInput && !all_readable(requests@),
        },
{
    let mut readings: Vec<ElectricityReading> = Vec::new();
    let mut i: usize = 0;
    while i < requests.len()
        invariant
            0 <= i <= requests.len(),
            readings@.len() == i,
            forall|k: int| 0 <= k < i ==> reading_in(#[trigger] requests@[k]) == Some(readings@[k]),
        decreases requests.len() - i,
    {
        match read_time(requests[i].time.as_str()) {
            Some(time) => {
                readings.push(ElectricityReading::new(time, requests[i].reading));
            },
            None => {
                assert(reading_in(requests@[i as int]) is None);
                return Err(StoreError::MalformedInput);
            },
        }
        i = i + 1;
    }
    assert(readings@ =~= readings_in(requests@));
    Ok(readings)
}

/// Stores the readings of the body for its meter, behind those that are
/// stored, and confirms it; if the time of any reading cannot be read,
/// nothing is stored and the answer is `MalformedInput`.
pub fn store_readings(store: &mut DataStore, body: StoreReadingRequest) -> (stored: Result<
    String,
    StoreError,
>)
    ensures
        match stored {
            Ok(confirmation) => {
                &&& all_readable(body.electricity_readings@)
                &&& confirmation@ == "Readings stored successfully"@
                &&& final(store)@ == old(store)@.with_readings(
                    body.smart_meter_id@,
                    readings_in(body.electricity_readings@),
                )
            },
            Err(error) => {
                &&& error == StoreError::MalformedInput
                &&& !all_readable(body.electricity_readings@)
                &&& final(store)@ == old(store)@
            },
        },
{
    match read_readings(&body.electricity_readings) {
        Ok(readings) => {
            store.add_readings(body.smart_meter_id, readings);
            Ok("Readings stored successfully".to_owned())
        },
        Err(error) => Err(error),
    }
}

/// Stores the readings for the meter, behind those that are stored, and
/// confirms it.
pub fn create_readings(
    store: &mut DataStore,
    smart_meter_id: String,
    readings: Vec<ElectricityReading>,
) -> (confirmation: String)
    ensures
        confirmation@ == "Readings created successfully"@,
        final(store)@ == old(store)@.with_readings(smart_meter_id@, readings@),
{
    store.insert_readings(smart_meter_id, readings);
    "Readings created successfully".to_owned()
}

} // verus!
