//! The accounts and price plans that a store starts with when it is given
//! none.

use crate::account::Account;
use crate::account::AccountView;
use crate::plan::plan_views;
use crate::plan::PricePlan;
use crate::plan::PricePlanView;
use crate::plan::Weekday;
use crate::quantity::Quantity;
use crate::reading::ElectricityReading;
use crate::store::collected;
use crate::store::directory;
use crate::store::DataStore;
use std::collections::HashMap;
use vstd::prelude::*;

verus! {

/// The bit pattern of the number 10.
pub const TEN_BITS: u64 = 0x4024_0000_0000_0000;

/// The bit pattern of the number 2.
pub const TWO_BITS: u64 = 0x4000_0000_0000_0000;

/// The bit pattern of the number 1.
pub const ONE_BITS: u64 = 0x3ff0_0000_0000_0000;

/// The accounts of a default store: five meters, subscribed to three plans.
pub open spec fn default_accounts() -> Map<Seq<char>, AccountView> {
    map![
        "smart-meter-0"@ => AccountView { price_plan_id: "price-plan-0"@, user: "Sarah"@ },
        "smart-meter-1"@ => AccountView { price_plan_id: "price-plan-1"@, user: "Peter"@ },
        "smart-meter-2"@ => AccountView { price_plan_id: "price-plan-0"@, user: "Charlie"@ },
        "smart-meter-3"@ => AccountView { price_plan_id: "price-plan-2"@, user: "Andrea"@ },
        "smart-meter-4"@ => AccountView { price_plan_id: "price-plan-1"@, user: "Alex"@ },
    ]
}

/// The catalog of a default store: three plans, with the unit rates 10, 2
/// and 1 and no multipliers.
pub open spec fn default_catalog() -> Seq<PricePlanView> {
    seq![
        PricePlanView {
            supplier_id: "price-plan-0"@,
            plan_name: "Dr Evil's Dark Energy"@,
            unit_rate: Quantity { bits: TEN_BITS },
            rate_multipliers: Map::empty(),
        },
        PricePlanView {
            supplier_id: "price-plan-1"@,
            plan_name: "The Green Eco"@,
            unit_rate: Quantity { bits: TWO_BITS },
            rate_multipliers: Map::empty(),
        },
        PricePlanView {
            supplier_id: "price-plan-2"@,
            plan_name: "Power for Everyone"@,
            unit_rate: Quantity { bits: ONE_BITS },
            rate_multipliers: Map::empty(),
        },
    ]
}

proof fn lemma_directory_grows(entries: Seq<(String, Account)>, entry: (String, Account))
    ensures
        directory(entries.push(entry)) == directory(entries).insert(entry.0@, entry.1@),
{
    assert(entries.push(entry).drop_last() == entries);
}

fn account_entry(meter: &str, price_plan_id: &str, user: &str) -> (entry: (String, Account))
    ensures
        entry.0@ == meter@,
        entry.1@ == (AccountView { price_plan_id: price_plan_id@, user: user@ }),
{
    (meter.to_owned(), Account::new(price_plan_id, user))
}

fn plain_plan(supplier_id: &str, plan_name: &str, unit_rate_bits: u64) -> (plan: PricePlan)
    ensures
        plan@ == (PricePlanView {
            supplier_id: supplier_id@,
            plan_name: plan_name@,
            unit_rate: Quantity { bits: unit_rate_bits },
            rate_multipliers: Map::empty(),
        }),
{
    let rate_multipliers: HashMap<Weekday, Quantity> = HashMap::new();
    PricePlan::new(supplier_id, plan_name, Quantity::from_bits(unit_rate_bits), rate_multipliers)
}

impl Default for DataStore {
    /// The store with the default accounts and catalog, and no readings.
    fn default() -> (store: DataStore)
        ensures
            store@.accounts == default_accounts(),
            store@.catalog == default_catalog(),
            store@.readings == Map::<Seq<char>, Seq<ElectricityReading>>::empty(),
    {
        let mut accounts: Vec<(String, Account)> = Vec::new();
        let ghost none = accounts@;
        assert(directory(none) == Map::<Seq<char>, AccountView>::empty());
        let sarah = account_entry("smart-meter-0", "price-plan-0", "Sarah");
        accounts.push(sarah);
        let ghost one = accounts@;
        let peter = account_entry("smart-meter-1", "price-plan-1", "Peter");
        accounts.push(peter);
        let ghost two = accounts@;
        let charlie = account_entry("smart-meter-2", "price-plan-0", "Charlie");
        accounts.push(charlie);
        let ghost three = accounts@;
        let andrea = account_entry("smart-meter-3", "price-plan-2", "Andrea");
        accounts.push(andrea);
        let ghost four = accounts@;
        let alex = account_entry("smart-meter-4", "price-plan-1", "Alex");
        accounts.push(alex);
        proof {
            lemma_directory_grows(none, one.last());
            lemma_directory_grows(one, two.last());
            lemma_directory_grows(two, three.last());
            lemma_directory_grows(three, four.last());
            lemma_directory_grows(four, accounts@.last());
            assert(directory(accounts@) == default_accounts());
        }
        let mut price_plans: Vec<PricePlan> = Vec::new();
        price_plans.push(plain_plan("price-plan-0", "Dr Evil's Dark Energy", TEN_BITS));
        price_plans.push(plain_plan("price-plan-1", "The Green Eco", TWO_BITS));
        price_plans.push(plain_plan("price-plan-2", "Power for Everyone", ONE_BITS));
        assert(plan_views(price_plans@) =~= default_catalog());
        let readings: Vec<(String, Vec<ElectricityReading>)> = Vec::new();
        assert(collected(readings@) == Map::<Seq<char>, Seq<ElectricityReading>>::empty());
        DataStore::new(accounts, readings, price_plans)
    }
}

} // verus!
