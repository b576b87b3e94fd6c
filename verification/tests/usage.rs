use chrono::DateTime;
use chrono::FixedOffset;
use joyofenergy::quantity::Quantity;
use joyofenergy::reading::ElectricityReading;
use joyofenergy::timestamp::Timestamp;
use joyofenergy::timestamp::MAX_SECONDS;
use joyofenergy::usage::total_seconds_elapsed;

fn reading(text: &str, value: f64) -> ElectricityReading {
    let time = DateTime::parse_from_rfc3339(text).unwrap();
    ElectricityReading::new(
        Timestamp::from_unix(
            time.timestamp(),
            time.timestamp_subsec_nanos(),
            time.offset().local_minus_utc(),
        )
        .unwrap(),
        Quantity::from_bits(value.to_bits()),
    )
}

fn calendar_seconds(texts: &[&str]) -> i64 {
    let times: Vec<DateTime<FixedOffset>> = texts
        .iter()
        .map(|text| DateTime::parse_from_rfc3339(text).unwrap())
        .collect();
    let earliest = times.iter().min().unwrap();
    let latest = times.iter().max().unwrap();
    latest.signed_duration_since(earliest).num_seconds()
}

#[test]
fn no_reading_spans_no_time() {
    assert_eq!(total_seconds_elapsed(&Vec::new()), 0);
}

#[test]
fn one_reading_spans_no_time() {
    assert_eq!(
        total_seconds_elapsed(&vec![reading("2020-11-29T08:00:00Z", 1.0)]),
        0
    );
}

#[test]
fn readings_at_one_instant_span_no_time() {
    let readings = vec![
        reading("2020-11-29T08:00:00Z", 1.0),
        reading("2020-11-29T09:00:00+01:00", 2.0),
        reading("2020-11-29T03:00:00-05:00", 3.0),
    ];
    assert_eq!(total_seconds_elapsed(&readings), 0);
}

#[test]
fn three_readings_a_minute_apart_span_two_minutes() {
    let readings = vec![
        reading("2020-11-29T08:00:00Z", 1.0),
        reading("2020-11-29T08:01:00Z", 2.0),
        reading("2020-11-29T08:02:00Z", 3.0),
    ];
    assert_eq!(total_seconds_elapsed(&readings), 120);
}

#[test]
fn the_span_does_not_depend_on_the_order_of_the_readings() {
    let a = reading("2020-11-29T08:00:00Z", 1.0);
    let b = reading("2020-11-29T08:01:00.5Z", 2.0);
    let c = reading("2020-11-29T10:02:00+02:00", 3.0);
    let d = reading("2020-11-28T23:15:30.25-09:00", 4.0);
    let orders = vec![
        vec![a, b, c, d],
        vec![d, c, b, a],
        vec![b, d, a, c],
        vec![c, a, d, b],
        vec![b, a, d, c],
        vec![d, a, b, c],
    ];
    for readings in orders {
        assert_eq!(total_seconds_elapsed(&readings), 930, "{readings:?}");
    }
}

#[test]
fn the_span_is_counted_in_whole_seconds() {
    let readings = vec![
        reading("2020-11-29T08:00:00.900Z", 1.0),
        reading("2020-11-29T08:00:02.100Z", 2.0),
    ];
    assert_eq!(total_seconds_elapsed(&readings), 1);

    let readings = vec![
        reading("2020-11-29T08:00:02.899Z", 1.0),
        reading("2020-11-29T08:00:00.900Z", 2.0),
    ];
    assert_eq!(total_seconds_elapsed(&readings), 1);

    let readings = vec![
        reading("2020-11-29T08:00:00.900Z", 1.0),
        reading("2020-11-29T08:00:01.100Z", 2.0),
    ];
    assert_eq!(total_seconds_elapsed(&readings), 0);
}

#[test]
fn the_span_is_the_one_that_the_calendar_gives() {
    let sets: Vec<Vec<&str>> = vec![
        vec!["2020-11-29T08:00:00Z"],
        vec![
            "2024-01-01T00:00:00Z",
            "2023-12-31T18:00:00Z",
            "2023-12-31T12:00:00Z",
            "2023-12-22T06:00:00Z",
        ],
        vec![
            "2020-11-29T08:00:00.75+01:00",
            "2020-11-29T08:00:00.25-01:00",
            "2020-11-29T08:00:00.5Z",
        ],
        vec![
            "1969-12-31T23:59:59.9Z",
            "1970-01-01T00:00:00.1Z",
            "1969-12-31T23:59:58.95Z",
        ],
        vec!["0001-01-01T00:00:00Z", "9999-12-31T23:59:59.999999999Z"],
    ];
    for texts in sets {
        let readings: Vec<ElectricityReading> =
            texts.iter().map(|text| reading(text, 1.0)).collect();
        assert_eq!(
            total_seconds_elapsed(&readings),
            calendar_seconds(&texts),
            "{texts:?}"
        );
    }
}

#[test]
fn the_widest_span_fits() {
    let readings = vec![
        ElectricityReading::new(
            Timestamp::from_unix(MAX_SECONDS, 999_999_999, 0).unwrap(),
            Quantity::from_bits(0),
        ),
        ElectricityReading::new(
            Timestamp::from_unix(0, 0, 0).unwrap(),
            Quantity::from_bits(0),
        ),
        ElectricityReading::new(
            Timestamp::from_unix(-MAX_SECONDS, 0, 0).unwrap(),
            Quantity::from_bits(0),
        ),
    ];
    assert_eq!(total_seconds_elapsed(&readings), 2 * MAX_SECONDS);
    assert_eq!((2 * MAX_SECONDS) as f64 as i64, 2 * MAX_SECONDS);
}
