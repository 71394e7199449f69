//! Why the engine refuses a record.

use vstd::prelude::*;

use crate::transaction::Kind;

verus! {

/// Every reason for which a record or a balance operation is refused.
///
/// Two of them are fatal and end the run: a deposit or withdrawal without an
/// amount, and a transaction identifier that is used twice. All others are
/// recoverable: the record is skipped and the run goes on.
#[derive(Debug, Clone, Copy, PartialEq, Eq, Structural)]
pub enum Error {
    /// The account was charged back earlier and takes no further operation.
    AccountLocked { client: u16 },
    /// The account has less available than the operation would take.
    InsufficientAvailableFunds { client: u16 },
    /// The account holds less than the operation would release.
    InsufficientHeldFunds { client: u16 },
    /// A deposit or withdrawal came without an amount.
    MissingAmount { id: u32, client: u16, kind: Kind },
    /// A deposit or withdrawal reuses the identifier of an accepted transaction.
    DuplicateTransactionId { id: u32, client: u16, kind: Kind },
    /// A dispute, resolve or chargeback names a transaction that was never accepted.
    UnknownTransaction { id: u32 },
    /// The named transaction belongs to another client than the record's.
    ClientMismatch { id: u32 },
    /// Only deposits can be disputed.
    NotADeposit { id: u32 },
    /// The named transaction is under dispute already.
    AlreadyDisputed { id: u32 },
    /// The named transaction is not under dispute.
    NotDisputed { id: u32 },
}

impl Error {
    /// Whether this error ends the run.
    pub open spec fn spec_is_fatal(&self) -> bool {
        *self is MissingAmount || *self is DuplicateTransactionId
    }

    /// Whether this error ends the run.
    #[verifier::when_used_as_spec(spec_is_fatal)]
    pub fn is_fatal(&self) -> (fatal: bool)
        ensures
            fatal == self.spec_is_fatal(),
    {
        match self {
            Error::MissingAmount { .. } => true,
            Error::DuplicateTransactionId { .. } => true,
            _ => false,
        }
    }
}

} // verus!
