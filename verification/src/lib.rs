//! Electricity readings by meter, and price plans ranked by what they charge.
//!
//! The library keeps, for every smart meter, the readings that were
//! submitted for it, and a fixed catalog of price plans with a directory of
//! which meter is subscribed to which plan. It answers three questions: what
//! was read on a meter, how the plans of the catalog rank by unit rate, and
//! which few of them are the cheapest.
//!
//! * [`quantity`]: readings and rates, binary64 numbers held by bit pattern,
//!   and their order.
//! * [`timestamp`]: instants with a UTC offset.
//! * [`reading`]: a reading, and the times of a generated history.
//! * [`usage`]: the time that a set of readings spans.
//! * [`account`], [`plan`]: accounts and price plans.
//! * [`ranking`]: stable ranking by key.
//! * [`comparison`]: the catalog ranked by unit rate, and its cheapest plans.
//! * [`store`]: the store itself.
//! * [`intake`]: readings as they are submitted, their times as timestamps or
//!   as text.
//! * [`seed`]: the accounts and plans of a default store.
//!
//! Everything here is integer arithmetic and is proved against its contract,
//! with one exception: dates written as text are read by the `chrono` crate,
//! and what it reads is taken on trust. Arithmetic on the quantities
//! themselves, the cost of a plan among it, is the caller's: the library
//! hands out the ranked plans, the readings and the seconds they span.

pub mod account;
pub mod comparison;
pub mod intake;
pub mod plan;
pub mod quantity;
pub mod ranking;
pub mod reading;
pub mod seed;
pub mod store;
pub mod timestamp;
pub mod usage;
