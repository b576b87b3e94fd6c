//! Accounts: which price plan a meter is subscribed to.

use vstd::prelude::*;

verus! {

/// The account behind a meter.
#[derive(Debug)]
pub struct Account {
    /// The identifier of the price plan that the meter is subscribed to.
    pub price_plan_id: String,
    /// The name of the account's owner.
    pub user: String,
}

/// What an account holds, as text.
pub struct AccountView {
    pub price_plan_id: Seq<char>,
    pub user: Seq<char>,
}

impl View for Account {
    type V = AccountView;

    open spec fn view(&self) -> AccountView {
        AccountView { price_plan_id: self.price_plan_id@, user: self.user@ }
    }
}

impl Account {
    /// The account of `user`, subscribed to the plan `price_plan_id`.
    pub fn new(price_plan_id: &str, user: &str) -> (account: Account)
        ensures
            account@.price_plan_id == price_plan_id@,
            account@.user == user@,
    {
        Account { price_plan_id: price_plan_id.to_owned(), user: user.to_owned() }
    }
}

impl Clone for Account {
    fn clone(&self) -> (copy: Account)
        ensures
            copy@ == self@,
    {
        Account { price_plan_id: self.price_plan_id.clone(), user: self.user.clone() }
    }
}

} // verus!
