//! The index of accepted transactions, by identifier, with the dispute
//! status of each.

use std::collections::HashMap;
use vstd::prelude::*;

use crate::error::Error;
use crate::transaction::Kind;

verus! {

/// Where an accepted transaction stands in the dispute lifecycle.
#[derive(Debug, Clone, Copy, PartialEq, Eq, Structural)]
pub enum DisputeStatus {
    /// Accepted, and never disputed so far.
    NeverDisputed,
    /// Under dispute: its amount is held.
    Open,
    /// Disputed earlier, and settled by a resolve or a chargeback.
    Closed,
}

/// What the index remembers of an accepted deposit or withdrawal.
#[derive(Debug, Clone, Copy, PartialEq, Eq, Structural)]
pub struct IndexEntry {
    pub client: u16,
    pub kind: Kind,
    pub amount: u64,
    pub status: DisputeStatus,
}

impl IndexEntry {
    /// The entry of a transaction that has just been accepted.
    pub open spec fn accepted(client: u16, kind: Kind, amount: u64) -> IndexEntry {
        IndexEntry { client, kind, amount, status: DisputeStatus::NeverDisputed }
    }

    /// The entry stands for a deposit or a withdrawal, and only a deposit
    /// has ever been under dispute.
    pub open spec fn wf(self) -> bool {
        &&& self.kind is Deposit || self.kind is Withdrawal
        &&& self.status is NeverDisputed || self.kind is Deposit
    }

    /// The same record with another dispute status.
    pub open spec fn with_status(self, status: DisputeStatus) -> IndexEntry {
        IndexEntry { status, ..self }
    }
}

/// What the transaction `id` holds of the funds of `client`: its amount
/// while it is under dispute, and nothing otherwise.
pub open spec fn held_by(index: Map<u32, IndexEntry>, client: u16, id: u32) -> int {
    if index.contains_key(id) && index[id].client == client && index[id].status is Open {
        index[id].amount as int
    } else {
        0
    }
}

/// What the transactions with an identifier below `bound` hold of the funds
/// of `client`.
pub open spec fn held_below(index: Map<u32, IndexEntry>, client: u16, bound: nat) -> int
    decreases bound,
{
    if bound == 0 {
        0
    } else {
        held_below(index, client, (bound - 1) as nat) + held_by(index, client, (bound - 1) as u32)
    }
}

/// What all open disputes together hold of the funds of `client`.
pub open spec fn held_in_dispute(index: Map<u32, IndexEntry>, client: u16) -> int {
    held_below(index, client, 0x1_0000_0000)
}

/// Where two indexes differ in the entry of `id` at most, what they hold of
/// a client's funds differs by what that entry holds.
pub proof fn lemma_held_differs_by_entry(
    before: Map<u32, IndexEntry>,
    after: Map<u32, IndexEntry>,
    client: u16,
    id: u32,
    bound: nat,
)
    requires
        bound <= 0x1_0000_0000,
        forall|other: u32|
            other != id ==> #[trigger] held_by(after, client, other) == held_by(
                before,
                client,
                other,
            ),
    ensures
        held_below(after, client, bound) == held_below(before, client, bound) + if id < bound {
            held_by(after, client, id) - held_by(before, client, id)
        } else {
            0
        },
    decreases bound,
{
    if bound > 0 {
        lemma_held_differs_by_entry(before, after, client, id, (bound - 1) as nat);
    }
}

/// Nothing is held of the funds of a client who has no transaction under
/// dispute, and what is held in all is never less than what one transaction
/// holds.
pub proof fn lemma_held_covers_entry(index: Map<u32, IndexEntry>, client: u16, id: u32, bound: nat)
    requires
        bound <= 0x1_0000_0000,
    ensures
        0 <= held_below(index, client, bound),
        id < bound ==> held_by(index, client, id) <= held_below(index, client, bound),
        (forall|other: u32| #[trigger] held_by(index, client, other) == 0) ==> held_below(
            index,
            client,
            bound,
        ) == 0,
    decreases bound,
{
    if bound > 0 {
        lemma_held_covers_entry(index, client, id, (bound - 1) as nat);
    }
}

/// The accepted transactions of a run. An entry is added once, when its
/// transaction is accepted, and stays for the whole run; only its status
/// changes.
pub struct TransactionIndex {
    entries: HashMap<u32, IndexEntry>,
}

impl View for TransactionIndex {
    type V = Map<u32, IndexEntry>;

    closed spec fn view(&self) -> Map<u32, IndexEntry> {
        self.entries@
    }
}

impl TransactionIndex {
    /// An index without entries.
    pub fn new() -> (index: Self)
        ensures
            index@ == Map::<u32, IndexEntry>::empty(),
    {
        Self { entries: HashMap::new() }
    }

    /// An index holds finitely many entries, and no more than a machine can
    /// count.
    pub proof fn lemma_bounded(&self)
        ensures
            self@.dom().finite(),
            self@.len() <= usize::MAX,
    {
        assert(self.entries.len() == self.entries@.len());
    }

    /// The number of accepted transactions.
    pub fn len(&self) -> (n: usize)
        ensures
            n == self@.len(),
    {
        self.entries.len()
    }

    /// Registers an accepted transaction under `id`. An identifier that is
    /// in use already is refused, and the index stays as it was.
    pub fn add_transaction(&mut self, id: u32, client: u16, kind: Kind, amount: u64) -> (r: Result<
        (),
        Error,
    >)
        ensures
            match r {
                Ok(()) => {
                    &&& !old(self)@.contains_key(id)
                    &&& final(self)@ == old(self)@.insert(
                        id,
                        IndexEntry::accepted(client, kind, amount),
                    )
                },
                Err(e) => {
                    &&& old(self)@.contains_key(id)
                    &&& e == Error::DuplicateTransactionId { id, client, kind }
                    &&& final(self)@ == old(self)@
                },
            },
    {
        if self.entries.contains_key(&id) {
            Err(Error::DuplicateTransactionId { id, client, kind })
        } else {
            self.entries.insert(
                id,
                IndexEntry { client, kind, amount, status: DisputeStatus::NeverDisputed },
            );
            Ok(())
        }
    }

    /// The entry of the transaction accepted under `id`. Looking an
    /// identifier up changes nothing, so it gives the same entry each time.
    pub fn load_transaction(&self, id: u32) -> (r: Result<IndexEntry, Error>)
        ensures
            r == if self@.contains_key(id) {
                Ok::<IndexEntry, Error>(self@[id])
            } else {
                Err::<IndexEntry, Error>(Error::UnknownTransaction { id })
            },
    {
        match self.entries.get(&id) {
            Some(entry) => Ok(*entry),
            None => Err(Error::UnknownTransaction { id }),
        }
    }

    /// Puts the transaction under dispute, unless it is unknown or under
    /// dispute already.
    pub fn open_dispute(&mut self, id: u32) -> (r: Result<(), Error>)
        ensures
            r == if !old(self)@.contains_key(id) {
                Err::<(), Error>(Error::UnknownTransaction { id })
            } else if old(self)@[id].status is Open {
                Err::<(), Error>(Error::AlreadyDisputed { id })
            } else {
                Ok::<(), Error>(())
            },
            final(self)@ == if r is Ok {
                old(self)@.insert(id, old(self)@[id].with_status(DisputeStatus::Open))
            } else {
                old(self)@
            },
    {
        let entry = self.load_transaction(id)?;
        match entry.status {
            DisputeStatus::Open => Err(Error::AlreadyDisputed { id }),
            _ => {
                self.entries.insert(id, IndexEntry { status: DisputeStatus::Open, ..entry });
                Ok(())
            },
        }
    }

    /// Settles the dispute of the transaction, unless it is unknown or not
    /// under dispute.
    pub fn close_dispute(&mut self, id: u32) -> (r: Result<(), Error>)
        ensures
            r == if !old(self)@.contains_key(id) {
                Err::<(), Error>(Error::UnknownTransaction { id })
            } else if !(old(self)@[id].status is Open) {
                Err::<(), Error>(Error::NotDisputed { id })
            } else {
                Ok::<(), Error>(())
            },
            final(self)@ == if r is Ok {
                old(self)@.insert(id, old(self)@[id].with_status(DisputeStatus::Closed))
            } else {
                old(self)@
            },
    {
        let entry = self.load_transaction(id)?;
        match entry.status {
            DisputeStatus::Open => {
                self.entries.insert(id, IndexEntry { status: DisputeStatus::Closed, ..entry });
                Ok(())
            },
            _ => Err(Error::NotDisputed { id }),
        }
    }
}

} // verus!
