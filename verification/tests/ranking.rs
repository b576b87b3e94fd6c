use joyofenergy::comparison::cheapest_plans;
use joyofenergy::comparison::rank_plans;
use joyofenergy::plan::PricePlan;
use joyofenergy::quantity::Quantity;
use joyofenergy::ranking::rank;
use std::cmp::Ordering;
use std::collections::HashMap;

fn plan(supplier_id: &str, unit_rate: f64) -> PricePlan {
    PricePlan::new(
        supplier_id,
        supplier_id,
        Quantity::from_bits(unit_rate.to_bits()),
        HashMap::new(),
    )
}

fn identifiers(plans: &Vec<PricePlan>) -> Vec<String> {
    plans.iter().map(|plan| plan.supplier_id.clone()).collect()
}

#[test]
fn ranking_no_key_gives_no_position() {
    assert_eq!(rank(&Vec::new()), Vec::<usize>::new());
}

#[test]
fn ranking_lists_positions_by_ascending_key() {
    assert_eq!(rank(&vec![10, 2, 1]), vec![2, 1, 0]);
    assert_eq!(rank(&vec![1, 2, 10]), vec![0, 1, 2]);
    assert_eq!(rank(&vec![7]), vec![0]);
    assert_eq!(rank(&vec![0, -5, i64::MAX, i64::MIN, 3]), vec![3, 1, 0, 4, 2]);
}

#[test]
fn ranking_keeps_equal_keys_in_their_order() {
    assert_eq!(rank(&vec![5, 1, 5, 1]), vec![1, 3, 0, 2]);
    assert_eq!(rank(&vec![4, 4, 4, 4]), vec![0, 1, 2, 3]);
    assert_eq!(rank(&vec![2, 1, 2, 1, 2, 0]), vec![5, 1, 3, 0, 2, 4]);
}

#[test]
fn ranking_agrees_with_a_stable_sort() {
    let mut state: u64 = 0x2545_f491_4f6c_dd1d;
    for length in 0..40usize {
        let keys: Vec<i64> = (0..length)
            .map(|_| {
                state ^= state << 13;
                state ^= state >> 7;
                state ^= state << 17;
                (state % 7) as i64 - 3
            })
            .collect();
        let mut expected: Vec<usize> = (0..length).collect();
        expected.sort_by_key(|position| keys[*position]);
        assert_eq!(rank(&keys), expected, "{keys:?}");
    }
}

#[test]
fn plans_are_ranked_by_unit_rate() {
    let catalog = vec![plan("rate10", 10.0), plan("rate2", 2.0), plan("rate1", 1.0)];
    let ranked = rank_plans(&catalog);
    assert_eq!(identifiers(&ranked), vec!["rate1", "rate2", "rate10"]);
    assert_eq!(identifiers(&catalog), vec!["rate10", "rate2", "rate1"]);
    for pair in ranked.windows(2) {
        assert_ne!(pair[0].partial_cmp(&pair[1]), Some(Ordering::Greater));
    }
}

#[test]
fn plans_with_equal_unit_rates_stay_in_catalog_order() {
    let catalog = vec![
        plan("d", 3.0),
        plan("a", 1.5),
        plan("c", 3.0),
        plan("b", 1.5),
        plan("e", 0.0),
        plan("f", -0.0),
        plan("g", 1.5),
    ];
    let ranked = rank_plans(&catalog);
    assert_eq!(
        identifiers(&ranked),
        vec!["e", "f", "a", "b", "g", "d", "c"]
    );
}

#[test]
fn a_ranked_plan_holds_what_the_catalog_holds() {
    let mut multipliers = HashMap::new();
    multipliers.insert(
        joyofenergy::plan::Weekday::Sat,
        Quantity::from_bits(1.5f64.to_bits()),
    );
    let catalog = vec![
        plan("dear", 9.0),
        PricePlan::new(
            "cheap",
            "Cheap on Saturdays",
            Quantity::from_bits(0.25f64.to_bits()),
            multipliers.clone(),
        ),
    ];
    let ranked = rank_plans(&catalog);
    assert_eq!(ranked[0].supplier_id, "cheap");
    assert_eq!(ranked[0].plan_name, "Cheap on Saturdays");
    assert_eq!(ranked[0].unit_rate.to_bits(), 0.25f64.to_bits());
    assert_eq!(ranked[0].rate_multipliers.len(), 1);
    assert_eq!(
        ranked[0].rate_multipliers[&joyofenergy::plan::Weekday::Sat].to_bits(),
        1.5f64.to_bits()
    );
    assert_eq!(ranked[1].supplier_id, "dear");
    assert!(ranked[1].rate_multipliers.is_empty());
}

#[test]
fn the_cheapest_plans_are_the_head_of_the_ranking() {
    let catalog = vec![
        plan("rate10", 10.0),
        plan("rate2", 2.0),
        plan("rate1", 1.0),
        plan("rate2 again", 2.0),
    ];
    let ranked = identifiers(&rank_plans(&catalog));
    assert_eq!(ranked, vec!["rate1", "rate2", "rate2 again", "rate10"]);
    for limit in 0..=6u64 {
        let cheapest = identifiers(&cheapest_plans(&catalog, limit));
        let expected = std::cmp::min(limit as usize, catalog.len());
        assert_eq!(cheapest.len(), expected);
        assert_eq!(cheapest[..], ranked[..expected]);
    }
    assert_eq!(identifiers(&cheapest_plans(&catalog, u64::MAX)), ranked);
}

#[test]
fn no_plan_is_cheapest_of_an_empty_catalog() {
    assert!(cheapest_plans(&Vec::new(), 3).is_empty());
    assert!(rank_plans(&Vec::new()).is_empty());
}

#[test]
fn plans_are_equal_when_their_unit_rates_are() {
    let a = plan("a", 2.0);
    let b = plan("b", 2.0);
    let c = plan("c", 10.0);
    assert!(a == b);
    assert!(a != c);
    assert!(a < c);
    assert!(c > b);
    assert!(a <= b);
    assert_eq!(a.partial_cmp(&b), Some(Ordering::Equal));
    assert_eq!(a.partial_cmp(&c), Some(Ordering::Less));
    assert_eq!(c.partial_cmp(&a), Some(Ordering::Greater));
    assert_eq!(plan("n", f64::NAN).partial_cmp(&a), None);
    assert!(plan("zero", 0.0) == plan("minus zero", -0.0));
}

#[test]
fn a_copy_of_a_plan_holds_what_the_plan_holds() {
    let first = plan("a", 2.0);
    let copy = first.clone();
    assert_eq!(copy.supplier_id, "a");
    assert_eq!(copy.plan_name, "a");
    assert_eq!(copy.unit_rate.to_bits(), 2.0f64.to_bits());
    assert!(copy.rate_multipliers.is_empty());
}
