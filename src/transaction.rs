use vstd::prelude::*;

use crate::crypto::new_random_id;

verus! {

/// An address or a transaction id: the 128 bits of a UUID.
pub type Address = u128;

/// A transfer of `amount` units from one address to another.
#[derive(Clone, Copy, Debug, PartialEq, Eq, Structural)]
pub struct Transaction {
    pub id: u128,
    pub from: Address,
    pub to: Address,
    pub amount: i64,
    pub timestamp: u64,
}

impl Transaction {
    /// The validity predicate: two distinct parties and a positive amount.
    pub open spec fn spec_is_valid(&self) -> bool {
        self.from != self.to && self.amount > 0
    }

    /// A fresh transaction with a newly drawn random id.
    pub fn new(from: Address, to: Address, amount: i64, timestamp: u64) -> (r: Transaction)
        ensures
            r.from == from,
            r.to == to,
            r.amount == amount,
            r.timestamp == timestamp,
    {
        let id = new_random_id();
        Transaction { id, from, to, amount, timestamp }
    }

    pub fn is_valid(&self) -> (r: bool)
        ensures
            r == self.spec_is_valid(),
    {
        self.from != self.to && self.amount > 0
    }
}

} // verus!
