//! Price plans and their order.
//!
//! Plans are ordered by their unit rate alone: two plans with the same rate
//! are equal in that order, whatever their identifiers and names.

use crate::quantity::Quantity;
use core::cmp::Ordering;
use std::collections::HashMap;
use vstd::prelude::*;
use vstd::std_specs::cmp::PartialEqSpecImpl;
use vstd::std_specs::cmp::PartialOrdSpecImpl;

verus! {

/// A day of the week.
#[derive(Clone, Copy, Debug, PartialEq, Eq, Hash)]
pub enum Weekday {
    Mon,
    Tue,
    Wed,
    Thu,
    Fri,
    Sat,
    Sun,
}

/// A tariff: what a supplier charges per unit of electricity.
#[derive(Debug)]
pub struct PricePlan {
    /// The identifier of the plan, unique in a catalog.
    pub supplier_id: String,
    /// The name under which the plan is sold.
    pub plan_name: String,
    /// The price of one unit.
    pub unit_rate: Quantity,
    /// Factors on the unit rate by day of the week. They are kept with the
    /// plan; no cost is computed from them.
    pub rate_multipliers: HashMap<Weekday, Quantity>,
}

/// What a price plan holds, text as text and the multipliers as a map.
pub struct PricePlanView {
    pub supplier_id: Seq<char>,
    pub plan_name: Seq<char>,
    pub unit_rate: Quantity,
    pub rate_multipliers: Map<Weekday, Quantity>,
}

impl View for PricePlan {
    type V = PricePlanView;

    open spec fn view(&self) -> PricePlanView {
        PricePlanView {
            supplier_id: self.supplier_id@,
            plan_name: self.plan_name@,
            unit_rate: self.unit_rate,
            rate_multipliers: self.rate_multipliers@,
        }
    }
}

/// What each plan of a sequence holds.
pub open spec fn plan_views(plans: Seq<PricePlan>) -> Seq<PricePlanView> {
    plans.map_values(|plan: PricePlan| plan@)
}

impl PricePlan {
    /// The plan with the given identifier, name, unit rate and multipliers.
    pub fn new(
        supplier_id: &str,
        plan_name: &str,
        unit_rate: Quantity,
        rate_multipliers: HashMap<Weekday, Quantity>,
    ) -> (plan: PricePlan)
        ensures
            plan@.supplier_id == supplier_id@,
            plan@.plan_name == plan_name@,
            plan@.unit_rate == unit_rate,
            plan@.rate_multipliers == rate_multipliers@,
    {
        PricePlan {
            supplier_id: supplier_id.to_owned(),
            plan_name: plan_name.to_owned(),
            unit_rate,
            rate_multipliers,
        }
    }
}

impl Clone for PricePlan {
    fn clone(&self) -> (copy: PricePlan)
        ensures
            copy@ == self@,
    {
        PricePlan {
            supplier_id: self.supplier_id.clone(),
            plan_name: self.plan_name.clone(),
            unit_rate: self.unit_rate,
            rate_multipliers: self.rate_multipliers.clone(),
        }
    }
}

impl PartialEq for PricePlan {
    /// Whether the two plans have equal unit rates.
    fn eq(&self, other: &PricePlan) -> (equal: bool) {
        self.unit_rate == other.unit_rate
    }
}

impl PartialEqSpecImpl for PricePlan {
    open spec fn obeys_eq_spec() -> bool {
        true
    }

    open spec fn eq_spec(&self, other: &PricePlan) -> bool {
        self.unit_rate.equals(other.unit_rate)
    }
}

impl PartialOrd for PricePlan {
    /// How the unit rates of the two plans compare.
    fn partial_cmp(&self, other: &PricePlan) -> (order: Option<Ordering>) {
        self.unit_rate.partial_cmp(&other.unit_rate)
    }
}

impl PartialOrdSpecImpl for PricePlan {
    open spec fn obeys_partial_cmp_spec() -> bool {
        true
    }

    open spec fn partial_cmp_spec(&self, other: &PricePlan) -> Option<Ordering> {
        self.unit_rate.compare(other.unit_rate)
    }
}

} // verus!
