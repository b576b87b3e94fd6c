use chrono::DateTime;
use joyofenergy::plan::PricePlan;
use joyofenergy::quantity::Quantity;
use joyofenergy::reading::ElectricityReading;
use joyofenergy::store::DataStore;
use joyofenergy::store::StoreError;
use joyofenergy::timestamp::Timestamp;
use joyofenergy::usage::total_seconds_elapsed;
use std::collections::BTreeMap;
use std::collections::HashMap;
use std::str::FromStr;

fn number(quantity: Quantity) -> f64 {
    f64::from_bits(quantity.to_bits())
}

fn reading(time: &str, reading: f64) -> ElectricityReading {
    let time: DateTime<chrono::FixedOffset> = DateTime::from_str(time).unwrap();
    ElectricityReading {
        time: Timestamp::from_unix(
            time.timestamp(),
            time.timestamp_subsec_nanos(),
            time.offset().local_minus_utc(),
        )
        .unwrap(),
        reading: Quantity::from_bits(reading.to_bits()),
    }
}

fn average_hourly_cost(plan: &PricePlan, readings: &Vec<ElectricityReading>) -> f64 {
    if readings.is_empty() {
        return 0.0;
    }
    let sum: f64 = readings.iter().map(|r| number(r.reading)).sum();
    let average_reading = sum / readings.len() as f64;
    let hours_elapsed = (total_seconds_elapsed(readings) as f64) / 3600.0;
    (average_reading / hours_elapsed) * number(plan.unit_rate)
}

fn three_readings() -> Vec<ElectricityReading> {
    vec![
        reading("2020-11-29T08:00:00Z", 1.0),
        reading("2020-11-29T08:01:00Z", 2.0),
        reading("2020-11-29T08:02:00Z", 3.0),
    ]
}

fn make_state() -> DataStore {
    DataStore::default()
}

#[test]
fn plans_testing_getting_price_plans() {
    let mut db = make_state();
    db.insert_readings("smart-meter-0".to_string(), three_readings());

    let found = db.compare_plans(&"smart-meter-0".to_string()).unwrap();
    let price_plans: BTreeMap<String, f64> = found
        .price_plans
        .iter()
        .map(|plan| {
            (
                plan.supplier_id.to_string(),
                average_hourly_cost(plan, &found.readings),
            )
        })
        .collect();

    let mut expected_plans = BTreeMap::new();
    expected_plans.insert("price-plan-0".to_string(), 600.0);
    expected_plans.insert("price-plan-1".to_string(), 120.0);
    expected_plans.insert("price-plan-2".to_string(), 60.0);

    assert_eq!(expected_plans, price_plans);
    assert_eq!("price-plan-0".to_string(), found.supplier_id);
}

#[test]
fn plans_testing_getting_price_recommendations() {
    let mut db = make_state();
    db.insert_readings("smart-meter-0".to_string(), three_readings());

    let found = db.recommend_plans(&"smart-meter-0".to_string(), 2);
    let result: Vec<HashMap<String, f64>> = found
        .price_plans
        .iter()
        .map(|plan| {
            HashMap::from([(
                plan.supplier_id.clone(),
                average_hourly_cost(plan, &found.readings),
            )])
        })
        .collect();

    let expected_result: Vec<HashMap<String, f64>> = vec![
        HashMap::from([("price-plan-2".to_string(), 60.0)]),
        HashMap::from([("price-plan-1".to_string(), 120.0)]),
    ];

    assert_eq!(expected_result, result);
}

#[test]
fn views_testing_getting_price_plans() {
    let mut db = make_state();
    db.add_readings("smart-meter-0".to_string(), three_readings());

    let found = db.compare_plans(&"smart-meter-0".to_string()).unwrap();
    let mut price_plans = BTreeMap::new();
    for plan in found.price_plans.iter() {
        price_plans.insert(
            plan.supplier_id.to_string(),
            average_hourly_cost(plan, &found.readings),
        );
    }

    let mut expected_plans = BTreeMap::new();
    expected_plans.insert("price-plan-0".to_string(), 600.0);
    expected_plans.insert("price-plan-1".to_string(), 120.0);
    expected_plans.insert("price-plan-2".to_string(), 60.0);

    assert_eq!(expected_plans, price_plans);
    assert_eq!(found.supplier_id, "price-plan-0");
    assert_eq!(found.readings, three_readings());
}

#[test]
fn views_testing_getting_price_recommendations() {
    let mut db = make_state();
    db.add_readings("smart-meter-0".to_string(), three_readings());

    let found = db.recommend_plans(&"smart-meter-0".to_string(), 2);
    let mut result = Vec::new();
    for plan in found.price_plans.iter() {
        let mut plan_recommendation = HashMap::new();
        plan_recommendation.insert(
            plan.supplier_id.clone(),
            average_hourly_cost(plan, &found.readings),
        );
        result.push(plan_recommendation);
    }

    let expected_result: Vec<HashMap<String, f64>> = vec![
        HashMap::from([("price-plan-2".to_string(), 60.0)]),
        HashMap::from([("price-plan-1".to_string(), 120.0)]),
    ];

    assert_eq!(expected_result, result);
}

#[test]
fn readings_testing_getting_empty_readings() {
    let db = make_state();

    let result = db.get_readings(&"smart-meter-0".to_string());

    assert_eq!(Vec::<ElectricityReading>::new(), result);
}

#[test]
fn readings_testing_getting_existing_readings() {
    let mut db = make_state();
    db.insert_readings("smart-meter-0".to_string(), three_readings());

    let result = db.get_readings(&"smart-meter-0".to_string());

    let expected_results = vec![
        reading("2020-11-29T08:00:00Z", 1.0),
        reading("2020-11-29T08:01:00Z", 2.0),
        reading("2020-11-29T08:02:00Z", 3.0),
    ];
    assert_eq!(expected_results, result);
}

#[test]
fn views_testing_getting_empty_readings() {
    let db = make_state();

    assert!(db.get_readings(&"smart-meter-0".to_string()).is_empty());
}

#[test]
fn views_testing_getting_existing_readings() {
    let mut db = make_state();
    db.add_readings("smart-meter-0".to_string(), three_readings());

    let result = db.get_readings(&"smart-meter-0".to_string());

    assert_eq!(three_readings(), result);
    assert_eq!(result[1].time.seconds(), 1_606_636_860);
    assert_eq!(number(result[1].reading), 2.0);
}

#[test]
fn the_cost_of_each_unit_rate_for_three_readings_a_minute_apart() {
    let readings = three_readings();
    let plan = |unit_rate: f64| {
        PricePlan::new(
            "plan",
            "plan",
            Quantity::from_bits(unit_rate.to_bits()),
            HashMap::new(),
        )
    };

    assert_eq!(total_seconds_elapsed(&readings), 120);
    assert_eq!(average_hourly_cost(&plan(10.0), &readings), 600.0);
    assert_eq!(average_hourly_cost(&plan(2.0), &readings), 120.0);
    assert_eq!(average_hourly_cost(&plan(1.0), &readings), 60.0);
    assert_eq!(average_hourly_cost(&plan(10.0), &Vec::new()), 0.0);
}

#[test]
fn two_recommendations_from_a_catalog_of_three() {
    let catalog = vec![
        PricePlan::new("rate10", "ten", Quantity::from_bits(10.0f64.to_bits()), HashMap::new()),
        PricePlan::new("rate2", "two", Quantity::from_bits(2.0f64.to_bits()), HashMap::new()),
        PricePlan::new("rate1", "one", Quantity::from_bits(1.0f64.to_bits()), HashMap::new()),
    ];
    let mut store = DataStore::new(Vec::new(), Vec::new(), catalog);
    store.insert_readings("meter".to_string(), three_readings());

    let found = store.recommend_plans(&"meter".to_string(), 2);
    let result: Vec<(String, f64)> = found
        .price_plans
        .iter()
        .map(|plan| {
            (
                plan.supplier_id.clone(),
                average_hourly_cost(plan, &found.readings),
            )
        })
        .collect();

    assert_eq!(
        result,
        vec![("rate1".to_string(), 60.0), ("rate2".to_string(), 120.0)]
    );
}

#[test]
fn a_recommendation_has_as_many_plans_as_limit_and_catalog_allow() {
    let mut store = make_state();
    store.insert_readings("smart-meter-0".to_string(), three_readings());
    let meter = "smart-meter-0".to_string();
    let ranked: Vec<String> = store
        .compare_plans(&meter)
        .unwrap()
        .price_plans
        .iter()
        .map(|plan| plan.supplier_id.clone())
        .collect();
    assert_eq!(ranked, vec!["price-plan-2", "price-plan-1", "price-plan-0"]);

    for limit in [0u64, 1, 2, 3, 4, 100, u64::MAX] {
        let found = store.recommend_plans(&meter, limit);
        let expected = std::cmp::min(limit, 3) as usize;
        let recommended: Vec<String> = found
            .price_plans
            .iter()
            .map(|plan| plan.supplier_id.clone())
            .collect();
        assert_eq!(recommended.len(), expected);
        assert_eq!(recommended[..], ranked[..expected]);
        assert_eq!(found.readings, three_readings());
    }
}

#[test]
fn a_meter_without_readings_is_recommended_plans_at_no_cost() {
    let store = make_state();

    let found = store.recommend_plans(&"no-such-meter".to_string(), 5);

    assert!(found.readings.is_empty());
    assert_eq!(found.price_plans.len(), 3);
    for plan in found.price_plans.iter() {
        assert_eq!(average_hourly_cost(plan, &found.readings), 0.0);
    }
}

#[test]
fn a_comparison_for_a_meter_without_an_account_is_not_found() {
    let mut store = make_state();
    store.insert_readings("no-such-meter".to_string(), three_readings());

    let found = store.compare_plans(&"no-such-meter".to_string());

    assert_eq!(found.err(), Some(StoreError::NotFound));
    assert_eq!(
        store.get_readings(&"no-such-meter".to_string()),
        three_readings()
    );
}

#[test]
fn a_comparison_for_a_meter_without_readings_costs_nothing() {
    let store = make_state();

    let found = store.compare_plans(&"smart-meter-3".to_string()).unwrap();

    assert_eq!(found.supplier_id, "price-plan-2");
    assert!(found.readings.is_empty());
    assert_eq!(found.price_plans.len(), 3);
    for plan in found.price_plans.iter() {
        assert_eq!(average_hourly_cost(plan, &found.readings), 0.0);
    }
}

#[test]
fn the_cost_is_not_negative_when_no_reading_is() {
    let readings = vec![
        reading("2024-01-01T00:00:00Z", 0.0),
        reading("2024-01-01T06:00:00Z", 0.75),
        reading("2024-01-02T00:00:00Z", 1.23),
    ];
    let store = make_state();
    for plan in store.get_price_plans().iter() {
        assert!(average_hourly_cost(plan, &readings) >= 0.0);
    }
}

#[test]
fn readings_that_span_no_time_have_no_finite_cost() {
    let plan = PricePlan::new(
        "plan",
        "plan",
        Quantity::from_bits(10.0f64.to_bits()),
        HashMap::new(),
    );
    let one = vec![reading("2020-11-29T08:00:00Z", 1.0)];
    let same_instant = vec![
        reading("2020-11-29T08:00:00Z", 1.0),
        reading("2020-11-29T09:00:00+01:00", 3.0),
    ];

    assert_eq!(total_seconds_elapsed(&one), 0);
    assert_eq!(total_seconds_elapsed(&same_instant), 0);
    assert_eq!(average_hourly_cost(&plan, &one), f64::INFINITY);
    assert_eq!(average_hourly_cost(&plan, &same_instant), f64::INFINITY);
    assert!(average_hourly_cost(&plan, &vec![reading("2020-11-29T08:00:00Z", 0.0)]).is_nan());
}
