//! The store: accounts and price plans, fixed when the store is made, and the
//! readings of each meter, which only ever grow.
//!
//! A store is the one thing in this library that changes. It owns every
//! sequence of readings: what it hands out is a copy, and what it is given it
//! keeps. It is not shared by itself; whoever shares one guards it with a
//! lock and calls it while holding the lock. `compare_plans` and
//! `recommend_plans` copy out in one call all that a cost computation needs,
//! so that the lock can be let go before the computing starts.

use crate::account::Account;
use crate::account::AccountView;
use crate::comparison::cheapest_plans;
use crate::comparison::rank_plans;
use crate::comparison::ranked_plans;
use crate::comparison::recommended_plans;
use crate::plan::plan_views;
use crate::plan::PricePlan;
use crate::plan::PricePlanView;
use crate::reading::ElectricityReading;
use vstd::hash_map::StringHashMap;
use vstd::prelude::*;

verus! {

/// What a store holds.
pub struct StoreContents {
    /// The account of each meter that has one.
    pub accounts: Map<Seq<char>, AccountView>,
    /// The price plans on offer, in the order of the catalog.
    pub catalog: Seq<PricePlanView>,
    /// The readings of each meter that readings were stored for, in the order
    /// in which they were stored.
    pub readings: Map<Seq<char>, Seq<ElectricityReading>>,
}

impl StoreContents {
    /// The readings stored for the meter; none for a meter that the store
    /// has not heard of.
    pub open spec fn history(self, meter: Seq<char>) -> Seq<ElectricityReading> {
        if self.readings.contains_key(meter) {
            self.readings[meter]
        } else {
            Seq::empty()
        }
    }

    /// The identifier of the plan that the meter is subscribed to, if the
    /// meter has an account.
    pub open spec fn subscribed_plan(self, meter: Seq<char>) -> Option<Seq<char>> {
        if self.accounts.contains_key(meter) {
            Some(self.accounts[meter].price_plan_id)
        } else {
            None
        }
    }

    /// The store after the batch has been appended to the readings of the
    /// meter.
    pub open spec fn with_readings(
        self,
        meter: Seq<char>,
        batch: Seq<ElectricityReading>,
    ) -> StoreContents {
        StoreContents {
            accounts: self.accounts,
            catalog: self.catalog,
            readings: self.readings.insert(meter, self.history(meter) + batch),
        }
    }
}

/// The accounts that a list of entries makes: each meter with the account of
/// the last entry that names it.
pub open spec fn directory(entries: Seq<(String, Account)>) -> Map<Seq<char>, AccountView>
    decreases entries.len(),
{
    if entries.len() == 0 {
        Map::empty()
    } else {
        directory(entries.drop_last()).insert(entries.last().0@, entries.last().1@)
    }
}

/// The readings that a list of batches makes: for each meter the batches
/// that name it, one behind the other in the order of the list.
pub open spec fn collected(batches: Seq<(String, Vec<ElectricityReading>)>) -> Map<
    Seq<char>,
    Seq<ElectricityReading>,
>
    decreases batches.len(),
{
    if batches.len() == 0 {
        Map::empty()
    } else {
        let before = collected(batches.drop_last());
        let meter = batches.last().0@;
        let stored = if before.contains_key(meter) {
            before[meter]
        } else {
            Seq::empty()
        };
        before.insert(meter, stored + batches.last().1@)
    }
}

/// Why a request to the store failed.
#[derive(Clone, Copy, Debug, PartialEq, Eq, Structural)]
pub enum StoreError {
    /// The meter has no account.
    NotFound,
    /// What was submitted cannot be read.
    MalformedInput,
}

/// What a comparison of all plans for one meter needs: the meter's plan, the
/// plans by unit rate, and the readings to price them with.
#[derive(Debug)]
pub struct PlanComparison {
    /// The identifier of the plan that the meter is subscribed to.
    pub supplier_id: String,
    /// The catalog, cheapest unit rate first.
    pub price_plans: Vec<PricePlan>,
    /// The readings of the meter.
    pub readings: Vec<ElectricityReading>,
}

/// What a recommendation for one meter needs: the cheapest plans, and the
/// readings to price them with.
#[derive(Debug)]
pub struct PlanRecommendation {
    /// The recommended plans, cheapest unit rate first.
    pub price_plans: Vec<PricePlan>,
    /// The readings of the meter.
    pub readings: Vec<ElectricityReading>,
}

/// The readings of every meter, each history in a slot of its own.
struct Histories {
    /// The slot of each meter that readings were stored for.
    slots: StringHashMap<usize>,
    /// The readings, by slot, in the order in which they were stored.
    series: Vec<Vec<ElectricityReading>>,
}

impl Histories {
    /// Every meter has a slot that exists, and no two meters share one.
    spec fn well_formed(self) -> bool {
        &&& forall|meter: Seq<char>| #[trigger]
            self.slots@.contains_key(meter) ==> self.slots@[meter] < self.series@.len()
        &&& forall|one: Seq<char>, other: Seq<char>|
            self.slots@.contains_key(one) && self.slots@.contains_key(other)
                && #[trigger] self.slots@[one] == #[trigger] self.slots@[other] ==> one == other
    }

    /// The readings of each meter.
    spec fn by_meter(self) -> Map<Seq<char>, Seq<ElectricityReading>> {
        Map::new(
            |meter: Seq<char>| self.slots@.contains_key(meter),
            |meter: Seq<char>| self.series@[self.slots@[meter] as int]@,
        )
    }

    fn new() -> (empty: Histories)
        ensures
            empty.well_formed(),
            empty.by_meter() == Map::<Seq<char>, Seq<ElectricityReading>>::empty(),
    {
        let empty = Histories { slots: StringHashMap::new(), series: Vec::new() };
        assert(empty.by_meter() =~= Map::<Seq<char>, Seq<ElectricityReading>>::empty());
        empty
    }

    fn append(&mut self, meter: String, readings: Vec<ElectricityReading>)
        requires
            old(self).well_formed(),
        ensures
            final(self).well_formed(),
            final(self).by_meter() == old(self).by_meter().insert(
                meter@,
                (if old(self).by_meter().contains_key(meter@) {
                    old(self).by_meter()[meter@]
                } else {
                    Seq::empty()
                }) + readings@,
            ),
    {
        let mut batch = readings;
        let found: Option<usize> = match self.slots.get(meter.as_str()) {
            Some(slot) => Some(*slot),
            None => None,
        };
        match found {
            Some(slot) => {
                self.series[slot].append(&mut batch);
            },
            None => {
                let slot: usize = self.series.len();
                self.series.push(batch);
                self.slots.insert(meter, slot);
            },
        }
        assert(self.by_meter() =~= old(self).by_meter().insert(
            meter@,
            (if old(self).by_meter().contains_key(meter@) {
                old(self).by_meter()[meter@]
            } else {
                Seq::empty()
            }) + readings@,
        ));
    }

    fn get(&self, meter: &str) -> (readings: Vec<ElectricityReading>)
        requires
            self.well_formed(),
        ensures
            readings@ == (if self.by_meter().contains_key(meter@) {
                self.by_meter()[meter@]
            } else {
                Seq::empty()
            }),
    {
        match self.slots.get(meter) {
            Some(slot) => self.series[*slot].clone(),
            None => Vec::new(),
        }
    }
}

/// Accounts, price plans and readings, by meter.
pub struct DataStore {
    accounts: StringHashMap<Account>,
    price_plans: Vec<PricePlan>,
    histories: Histories,
}

impl View for DataStore {
    type V = StoreContents;

    closed spec fn view(&self) -> StoreContents {
        StoreContents {
            accounts: self.accounts@.map_values(|account: Account| account@),
            catalog: self.price_plans@.map_values(|plan: PricePlan| plan@),
            readings: self.histories.by_meter(),
        }
    }
}

impl DataStore {
    #[verifier::type_invariant]
    spec fn well_formed(self) -> bool {
        self.histories.well_formed()
    }

    /// The store with the given accounts, readings and catalog of plans.
    ///
    /// Where two entries of `accounts` name one meter, the later one counts.
    /// The batches of `readings` are stored one after the other, so that two
    /// batches for one meter make one history.
    pub fn new(
        accounts: Vec<(String, Account)>,
        readings: Vec<(String, Vec<ElectricityReading>)>,
        price_plans: Vec<PricePlan>,
    ) -> (store: DataStore)
        ensures
            store@.accounts == directory(accounts@),
            store@.catalog == plan_views(price_plans@),
            store@.readings == collected(readings@),
    {
        let mut by_meter: StringHashMap<Account> = StringHashMap::new();
        let mut i: usize = 0;
        assert(accounts@.take(0) == Seq::<(String, Account)>::empty());
        assert(by_meter@.map_values(|account: Account| account@) =~= directory(accounts@.take(0)));
        while i < accounts.len()
            invariant
                0 <= i <= accounts.len(),
                by_meter@.map_values(|account: Account| account@) == directory(
                    accounts@.take(i as int),
                ),
            decreases accounts.len() - i,
        {
            let ghost before = by_meter@;
            let meter: String = accounts[i].0.clone();
            let account: Account = accounts[i].1.clone();
            by_meter.insert(meter, account);
            proof {
                let upto = accounts@.take(i as int + 1);
                assert(upto.drop_last() == accounts@.take(i as int));
                assert(upto.last() == accounts@[i as int]);
                assert(by_meter@.map_values(|account: Account| account@) =~= before.map_values(
                    |account: Account| account@,
                ).insert(meter@, account@));
            }
            i = i + 1;
        }
        assert(accounts@.take(accounts.len() as int) == accounts@);
        let mut histories = Histories::new();
        let mut j: usize = 0;
        assert(readings@.take(0) == Seq::<(String, Vec<ElectricityReading>)>::empty());
        while j < readings.len()
            invariant
                0 <= j <= readings.len(),
                histories.well_formed(),
                histories.by_meter() == collected(readings@.take(j as int)),
            decreases readings.len() - j,
        {
            let meter: String = readings[j].0.clone();
            let batch: Vec<ElectricityReading> = readings[j].1.clone();
            histories.append(meter, batch);
            proof {
                let upto = readings@.take(j as int + 1);
                assert(upto.drop_last() == readings@.take(j as int));
                assert(upto.last() == readings@[j as int]);
            }
            j = j + 1;
        }
        assert(readings@.take(readings.len() as int) == readings@);
        DataStore { accounts: by_meter, price_plans, histories }
    }

    /// Appends the batch to the readings of the meter, behind those that are
    /// stored and in the order of the batch. A meter that the store has not
    /// heard of starts with no readings.
    pub fn insert_readings(&mut self, smart_meter_id: String, readings: Vec<ElectricityReading>)
        ensures
            final(self)@ == old(self)@.with_readings(smart_meter_id@, readings@),
    {
        proof {
            use_type_invariant(&*self);
        }
        // The histories leave the store while they grow and come back whole:
        // the store holds well-formed histories at every step.
        let mut histories = Histories::new();
        core::mem::swap(&mut self.histories, &mut histories);
        histories.append(smart_meter_id, readings);
        core::mem::swap(&mut self.histories, &mut histories);
    }

    /// Appends the batch to the readings of the meter: `insert_readings`
    /// under its other name.
    pub fn add_readings(&mut self, smart_meter_id: String, readings: Vec<ElectricityReading>)
        ensures
            final(self)@ == old(self)@.with_readings(smart_meter_id@, readings@),
    {
        self.insert_readings(smart_meter_id, readings)
    }

    /// A copy of the readings stored for the meter; empty for a meter that
    /// the store has not heard of.
    pub fn get_readings(&self, smart_meter_id: &String) -> (readings: Vec<ElectricityReading>)
        ensures
            readings@ == self@.history(smart_meter_id@),
    {
        proof {
            use_type_invariant(self);
        }
        self.histories.get(smart_meter_id.as_str())
    }

    /// A copy of the catalog of price plans, in the order of the catalog.
    pub fn get_price_plans(&self) -> (price_plans: Vec<PricePlan>)
        ensures
            plan_views(price_plans@) == self@.catalog,
    {
        let mut price_plans: Vec<PricePlan> = Vec::new();
        let mut i: usize = 0;
        while i < self.price_plans.len()
            invariant
                0 <= i <= self.price_plans.len(),
                price_plans@.len() == i,
                forall|k: int| 0 <= k < i ==> (#[trigger] price_plans@[k])@ == self.price_plans@[k]@,
            decreases self.price_plans.len() - i,
        {
            price_plans.push(self.price_plans[i].clone());
            i = i + 1;
        }
        assert(plan_views(price_plans@) =~= self@.catalog);
        price_plans
    }

    /// The identifier of the plan that the meter is subscribed to;
    /// `NotFound` for a meter without an account.
    pub fn get_account_supplier_id(&self, smart_meter_id: &String) -> (supplier_id: Result<
        String,
        StoreError,
    >)
        ensures
            match supplier_id {
                Ok(plan) => self@.subscribed_plan(smart_meter_id@) == Some(plan@),
                Err(error) => error == StoreError::NotFound && self@.subscribed_plan(
                    smart_meter_id@,
                ) is None,
            },
    {
        match self.accounts.get(smart_meter_id.as_str()) {
            Some(account) => Ok(account.price_plan_id.clone()),
            None => Err(StoreError::NotFound),
        }
    }

    /// All that a comparison of the plans for the meter needs: the plan that
    /// the meter is subscribed to, the catalog ranked by unit rate, and a
    /// copy of the meter's readings. `NotFound` for a meter without an
    /// account, whether or not readings are stored for it.
    pub fn compare_plans(&self, smart_meter_id: &String) -> (comparison: Result<
        PlanComparison,
        StoreError,
    >)
        ensures
            match comparison {
                Ok(found) => {
                    &&& self@.subscribed_plan(smart_meter_id@) == Some(found.supplier_id@)
                    &&& plan_views(found.price_plans@) == ranked_plans(self@.catalog)
                    &&& found.readings@ == self@.history(smart_meter_id@)
                },
                Err(error) => error == StoreError::NotFound && self@.subscribed_plan(
                    smart_meter_id@,
                ) is None,
            },
    {
        match self.get_account_supplier_id(smart_meter_id) {
            Ok(supplier_id) => {
                let price_plans = rank_plans(&self.price_plans);
                let readings = self.get_readings(smart_meter_id);
                Ok(PlanComparison { supplier_id, price_plans, readings })
            },
            Err(error) => Err(error),
        }
    }

    /// All that a recommendation for the meter needs: the `limit` plans with
    /// the lowest unit rates, cheapest first, and a copy of the meter's
    /// readings. A meter needs no account for it, and one that the store has
    /// not heard of has no readings.
    pub fn recommend_plans(&self, smart_meter_id: &String, limit: u64) -> (recommendation:
        PlanRecommendation)
        ensures
            plan_views(recommendation.price_plans@) == recommended_plans(self@.catalog, limit),
            recommendation.readings@ == self@.history(smart_meter_id@),
    {
        let price_plans = cheapest_plans(&self.price_plans, limit);
        let readings = self.get_readings(smart_meter_id);
        PlanRecommendation { price_plans, readings }
    }
}

/// Appending two batches to a meter, one after the other, leaves the store
/// as appending both at once does, the first batch in front.
pub proof fn lemma_appends_accumulate(
    store: StoreContents,
    meter: Seq<char>,
    first: Seq<ElectricityReading>,
    second: Seq<ElectricityReading>,
)
    ensures
        store.with_readings(meter, first).with_readings(meter, second) == store.with_readings(
            meter,
            first + second,
        ),
        store.with_readings(meter, first).with_readings(meter, second).history(meter)
            == store.history(meter) + first + second,
{
    let stepwise = store.with_readings(meter, first).with_readings(meter, second);
    let at_once = store.with_readings(meter, first + second);
    assert((store.history(meter) + first) + second =~= store.history(meter) + (first + second));
    assert(stepwise.readings =~= at_once.readings);
}

/// Appending to one meter leaves the readings of every other meter, the
/// accounts and the catalog as they were.
pub proof fn lemma_append_touches_one_meter(
    store: StoreContents,
    meter: Seq<char>,
    batch: Seq<ElectricityReading>,
    other: Seq<char>,
)
    requires
        other != meter,
    ensures
        store.with_readings(meter, batch).history(other) == store.history(other),
        store.with_readings(meter, batch).history(meter) == store.history(meter) + batch,
        store.with_readings(meter, batch).accounts == store.accounts,
        store.with_readings(meter, batch).catalog == store.catalog,
{
}

} // verus!
