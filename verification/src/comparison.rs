//! Price plans in the order of their unit rates.
//!
//! Plans are compared by ranking the catalog: cheapest unit rate first, plans
//! with equal rates in the order in which the catalog lists them. A
//! recommendation is the head of that ranking.

use crate::plan::plan_views;
use crate::plan::PricePlan;
use crate::plan::PricePlanView;
use crate::quantity::lemma_keys_order_as_values;
use crate::ranking::is_ranking;
use crate::ranking::key_values;
use crate::ranking::lemma_ranking_exists;
use crate::ranking::lemma_ranking_is_rearrangement;
use crate::ranking::positions;
use crate::ranking::rank;
use crate::ranking::ranking;
use core::cmp::Ordering;
use vstd::prelude::*;

verus! {

/// The key of each plan's unit rate, in the order of the catalog.
pub open spec fn rate_keys(catalog: Seq<PricePlanView>) -> Seq<int> {
    catalog.map_values(|plan: PricePlanView| plan.unit_rate.order_key())
}

/// The catalog in ascending order of unit rate, plans with equal rates in the
/// order of the catalog.
pub open spec fn ranked_plans(catalog: Seq<PricePlanView>) -> Seq<PricePlanView> {
    Seq::new(catalog.len(), |i: int| catalog[ranking(rate_keys(catalog))[i]])
}

/// How many plans a recommendation of at most `limit` plans holds, out of a
/// catalog of `available`: the smaller of the two.
pub open spec fn recommended_count(limit: u64, available: nat) -> int {
    if limit <= available {
        limit as int
    } else {
        available as int
    }
}

/// The `limit` cheapest plans of the catalog, cheapest first; the whole
/// ranked catalog when it has no more than `limit` plans.
pub open spec fn recommended_plans(catalog: Seq<PricePlanView>, limit: u64) -> Seq<PricePlanView> {
    ranked_plans(catalog).take(recommended_count(limit, catalog.len()))
}

/// The ranked catalog holds the plans of the catalog, each once, with
/// ascending unit rates; of two plans with equal rates, the one that the
/// catalog lists first comes first.
pub proof fn lemma_ranked_plans_ascend(catalog: Seq<PricePlanView>)
    ensures
        ranked_plans(catalog).len() == catalog.len(),
        is_ranking(rate_keys(catalog), ranking(rate_keys(catalog))),
        ranking(rate_keys(catalog)).no_duplicates(),
        forall|position: int|
            0 <= position < catalog.len() ==> ranking(rate_keys(catalog)).contains(position),
        forall|i: int|
            0 <= i < catalog.len() ==> #[trigger] ranked_plans(catalog)[i] == catalog[ranking(
                rate_keys(catalog),
            )[i]],
        forall|i: int, j: int|
            0 <= i < j < catalog.len() ==> (#[trigger] ranked_plans(
                catalog,
            )[i]).unit_rate.order_key() <= (#[trigger] ranked_plans(
                catalog,
            )[j]).unit_rate.order_key(),
        forall|i: int, j: int|
            0 <= i < j < catalog.len() && ranked_plans(catalog)[i].unit_rate.order_key()
                == ranked_plans(catalog)[j].unit_rate.order_key() ==> (#[trigger] ranking(
                rate_keys(catalog),
            )[i]) < (#[trigger] ranking(rate_keys(catalog))[j]),
{
    let keys = rate_keys(catalog);
    let order = ranking(keys);
    lemma_ranking_exists(keys);
    lemma_ranking_is_rearrangement(keys, order);
    assert forall|i: int, j: int| 0 <= i < j < catalog.len() implies (#[trigger] ranked_plans(
        catalog,
    )[i]).unit_rate.order_key() <= (#[trigger] ranked_plans(catalog)[j]).unit_rate.order_key() by {
        assert(crate::ranking::ranks_before(keys, order[i], order[j]));
    }
    assert forall|i: int, j: int|
        0 <= i < j < catalog.len() && ranked_plans(catalog)[i].unit_rate.order_key()
            == ranked_plans(catalog)[j].unit_rate.order_key() implies (#[trigger] order[i]) < (
    #[trigger] order[j]) by {
        assert(crate::ranking::ranks_before(keys, order[i], order[j]));
    }
}

/// Along the ranked catalog no plan is dearer than a later one: where the
/// unit rates of two ranked plans are numbers, the rate of the earlier plan
/// compares as less than or equal to that of the later.
pub proof fn lemma_ranked_plans_follow_the_order_of_rates(
    catalog: Seq<PricePlanView>,
    i: int,
    j: int,
)
    requires
        0 <= i < j < catalog.len(),
        ranked_plans(catalog)[i].unit_rate.is_number(),
        ranked_plans(catalog)[j].unit_rate.is_number(),
    ensures
        ranked_plans(catalog)[i].unit_rate.compare(ranked_plans(catalog)[j].unit_rate) == Some(
            Ordering::Less,
        ) || ranked_plans(catalog)[i].unit_rate.compare(ranked_plans(catalog)[j].unit_rate)
            == Some(Ordering::Equal),
{
    lemma_ranked_plans_ascend(catalog);
}

/// Along the ranked catalog the unit rates ascend as numbers: of two ranked
/// plans with finite unit rates, the earlier does not charge more per unit
/// than the later.
pub proof fn lemma_ranked_plans_ascend_in_value(catalog: Seq<PricePlanView>, i: int, j: int)
    requires
        0 <= i < j < catalog.len(),
        ranked_plans(catalog)[i].unit_rate.is_finite(),
        ranked_plans(catalog)[j].unit_rate.is_finite(),
    ensures
        ranked_plans(catalog)[i].unit_rate.scaled_value() <= ranked_plans(
            catalog,
        )[j].unit_rate.scaled_value(),
{
    lemma_ranked_plans_ascend(catalog);
    lemma_keys_order_as_values(
        ranked_plans(catalog)[i].unit_rate,
        ranked_plans(catalog)[j].unit_rate,
    );
    lemma_keys_order_as_values(
        ranked_plans(catalog)[j].unit_rate,
        ranked_plans(catalog)[i].unit_rate,
    );
}

/// A recommendation holds as many plans as the limit allows and the catalog
/// has, and is the head of the ranked catalog.
pub proof fn lemma_recommendation_is_head_of_ranking(catalog: Seq<PricePlanView>, limit: u64)
    ensures
        recommended_plans(catalog, limit).len() == recommended_count(limit, catalog.len()),
        recommended_plans(catalog, limit).is_prefix_of(ranked_plans(catalog)),
        limit == 0 ==> recommended_plans(catalog, limit).len() == 0,
        limit >= catalog.len() ==> recommended_plans(catalog, limit) == ranked_plans(catalog),
{
    let ranked = ranked_plans(catalog);
    let count = recommended_count(limit, catalog.len());
    assert(ranked.take(count).len() == count);
    if limit >= catalog.len() {
        assert(ranked.take(count) =~= ranked);
    }
}

/// The order key of each plan's unit rate.
fn unit_rate_keys(plans: &Vec<PricePlan>) -> (keys: Vec<i64>)
    ensures
        key_values(keys@) == rate_keys(plan_views(plans@)),
{
    let mut keys: Vec<i64> = Vec::new();
    let mut i: usize = 0;
    while i < plans.len()
        invariant
            0 <= i <= plans.len(),
            keys@.len() == i,
            forall|k: int| 0 <= k < i ==> keys@[k] == (#[trigger] plans@[k]).unit_rate.order_key(),
        decreases plans.len() - i,
    {
        keys.push(plans[i].unit_rate.key());
        i = i + 1;
    }
    assert(key_values(keys@) =~= rate_keys(plan_views(plans@)));
    keys
}

/// The `limit` cheapest of the plans, cheapest first, plans with equal unit
/// rates in the order in which `plans` lists them; all of them, ranked, when
/// there are no more than `limit`.
pub fn cheapest_plans(plans: &Vec<PricePlan>, limit: u64) -> (cheapest: Vec<PricePlan>)
    ensures
        plan_views(cheapest@) == recommended_plans(plan_views(plans@), limit),
{
    let keys = unit_rate_keys(plans);
    let order = rank(&keys);
    let ghost catalog = plan_views(plans@);
    proof {
        lemma_ranking_exists(rate_keys(catalog));
    }
    let count: usize = if limit < plans.len() as u64 {
        limit as usize
    } else {
        plans.len()
    };
    let mut cheapest: Vec<PricePlan> = Vec::new();
    let mut i: usize = 0;
    while i < count
        invariant
            0 <= i <= count <= plans.len(),
            catalog == plan_views(plans@),
            positions(order@) == ranking(rate_keys(catalog)),
            is_ranking(rate_keys(catalog), ranking(rate_keys(catalog))),
            cheapest@.len() == i,
            forall|k: int| 0 <= k < i ==> (#[trigger] cheapest@[k])@ == ranked_plans(catalog)[k],
        decreases count - i,
    {
        proof {
            let at = positions(order@)[i as int];
            assert(at == order@[i as int]);
            assert(0 <= at < plans.len());
            assert(catalog[at] == plans@[at]@);
        }
        cheapest.push(plans[order[i]].clone());
        i = i + 1;
    }
    assert(plan_views(cheapest@) =~= recommended_plans(catalog, limit));
    cheapest
}

/// The plans in ascending order of unit rate, plans with equal rates in the
/// order in which `plans` lists them.
pub fn rank_plans(plans: &Vec<PricePlan>) -> (ranked: Vec<PricePlan>)
    ensures
        plan_views(ranked@) == ranked_plans(plan_views(plans@)),
{
    let limit: u64 = u64::MAX;
    proof {
        assert(plan_views(plans@).len() == plans.len());
        lemma_recommendation_is_head_of_ranking(plan_views(plans@), limit);
    }
    cheapest_plans(plans, limit)
}

} // verus!
