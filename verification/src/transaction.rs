//! Transaction records as they arrive at the engine.

use vstd::prelude::*;

use crate::error::Error;

verus! {

/// What a record asks the engine to do.
#[derive(Debug, Clone, Copy, PartialEq, Eq, Structural)]
pub enum Kind {
    Deposit,
    Withdrawal,
    Dispute,
    Resolve,
    Chargeback,
}

/// One input record. The engine reads it and never changes it.
///
/// `amount` counts ten-thousandths of a currency unit. Deposits and
/// withdrawals carry one; disputes, resolves and chargebacks name an earlier
/// deposit by `id` instead.
#[derive(Debug, Clone, Copy, PartialEq, Eq)]
pub struct Transaction {
    pub kind: Kind,
    pub client: u16,
    pub id: u32,
    pub amount: Option<u64>,
}

impl Transaction {
    /// The error that a record without an amount gives rise to.
    pub open spec fn missing_amount(&self) -> Error {
        Error::MissingAmount { id: self.id, client: self.client, kind: self.kind }
    }

    /// The amount of the record, or `MissingAmount` where it has none.
    pub fn get_amount(&self) -> (r: Result<u64, Error>)
        ensures
            r == match self.amount {
                Some(amount) => Ok::<u64, Error>(amount),
                None => Err::<u64, Error>(self.missing_amount()),
            },
    {
        match self.amount {
            Some(amount) => Ok(amount),
            None => Err(Error::MissingAmount { id: self.id, client: self.client, kind: self.kind }),
        }
    }
}

} // verus!
