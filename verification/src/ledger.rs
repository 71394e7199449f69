//! The mathematical model of the engine: the accounts, the index of accepted
//! transactions, and what one record does to them.

use vstd::prelude::*;

use crate::client::Account;
use crate::error::Error;
use crate::index::{
    held_in_dispute, lemma_held_covers_entry, lemma_held_differs_by_entry, DisputeStatus,
    IndexEntry,
};
use crate::transaction::{Kind, Transaction};

verus! {

/// The state of a run: every account seen so far, and every transaction
/// accepted so far.
pub struct Ledger {
    pub clients: Map<u16, Account>,
    pub index: Map<u32, IndexEntry>,
}

impl Ledger {
    /// The state before the first record.
    pub open spec fn empty() -> Ledger {
        Ledger { clients: Map::empty(), index: Map::empty() }
    }

    /// Every account is filed under its own identifier and keeps its
    /// invariant; it holds what its client's open disputes hold, and has no
    /// more than the accepted transactions could have paid in. Every
    /// accepted transaction is a deposit or a withdrawal of a client with an
    /// account, and only deposits have been under dispute.
    pub open spec fn wf(self) -> bool {
        &&& self.index.dom().finite()
        &&& forall|client: u16| #[trigger]
            self.clients.contains_key(client) ==> {
                &&& self.clients[client].id == client
                &&& self.clients[client].wf()
                &&& self.clients[client].held == held_in_dispute(self.index, client)
                &&& self.clients[client].total <= self.index.len() * u64::MAX
            }
        &&& forall|id: u32| #[trigger]
            self.index.contains_key(id) ==> {
                &&& self.index[id].wf()
                &&& self.clients.contains_key(self.index[id].client)
            }
    }

    /// The account of `client`: the one on file, or a new one without funds.
    pub open spec fn account(self, client: u16) -> Account {
        if self.clients.contains_key(client) {
            self.clients[client]
        } else {
            Account::opened(client)
        }
    }

    /// The same state, with an account on file for `client`.
    pub open spec fn with_account(self, client: u16) -> Ledger {
        Ledger { clients: self.clients.insert(client, self.account(client)), ..self }
    }

    /// What a deposit record does: it needs an amount, an account that takes
    /// it, and an identifier that is not in use.
    pub open spec fn deposit(self, transaction: Transaction) -> Result<Ledger, Error> {
        match transaction.amount {
            None => Err(transaction.missing_amount()),
            Some(amount) => match self.account(transaction.client).deposit(amount as int) {
                Err(e) => Err(e),
                Ok(account) => self.accept(transaction, amount, account),
            },
        }
    }

    /// What a withdrawal record does: it needs an amount, an account that
    /// can pay it, and an identifier that is not in use.
    pub open spec fn withdrawal(self, transaction: Transaction) -> Result<Ledger, Error> {
        match transaction.amount {
            None => Err(transaction.missing_amount()),
            Some(amount) => match self.account(transaction.client).withdrawal(amount as int) {
                Err(e) => Err(e),
                Ok(account) => self.accept(transaction, amount, account),
            },
        }
    }

    /// Registers a deposit or withdrawal that its account has taken, and
    /// files the account as the operation left it.
    pub open spec fn accept(self, transaction: Transaction, amount: u64, account: Account) -> Result<
        Ledger,
        Error,
    > {
        if self.index.contains_key(transaction.id) {
            Err(
                Error::DuplicateTransactionId {
                    id: transaction.id,
                    client: transaction.client,
                    kind: transaction.kind,
                },
            )
        } else {
            Ok(
                Ledger {
                    clients: self.clients.insert(transaction.client, account),
                    index: self.index.insert(
                        transaction.id,
                        IndexEntry::accepted(transaction.client, transaction.kind, amount),
                    ),
                },
            )
        }
    }

    /// Files `account` for `client` and gives the transaction `id` the
    /// dispute status `status`.
    pub open spec fn settle(self, client: u16, account: Account, id: u32, status: DisputeStatus) -> Ledger {
        Ledger {
            clients: self.clients.insert(client, account),
            index: self.index.insert(id, self.index[id].with_status(status)),
        }
    }

    /// What a dispute record does: the transaction it names must be known,
    /// belong to the same client, not be under dispute, and be a deposit;
    /// then the deposit's amount is held.
    pub open spec fn dispute(self, transaction: Transaction) -> Result<Ledger, Error> {
        let id: u32 = transaction.id;
        let entry = self.index[id];
        if !self.index.contains_key(id) {
            Err(Error::UnknownTransaction { id })
        } else if entry.client != transaction.client {
            Err(Error::ClientMismatch { id })
        } else if entry.status is Open {
            Err(Error::AlreadyDisputed { id })
        } else if !(entry.kind is Deposit) {
            Err(Error::NotADeposit { id })
        } else {
            match self.account(transaction.client).dispute_deposit(entry.amount as int) {
                Err(e) => Err(e),
                Ok(account) => Ok(
                    self.settle(transaction.client, account, id, DisputeStatus::Open),
                ),
            }
        }
    }

    /// What a resolve record does: the transaction it names must be known,
    /// under dispute, and belong to the same client; then its amount is
    /// released.
    pub open spec fn resolve(self, transaction: Transaction) -> Result<Ledger, Error> {
        let id: u32 = transaction.id;
        let entry = self.index[id];
        if !self.index.contains_key(id) {
            Err(Error::UnknownTransaction { id })
        } else if !(entry.status is Open) {
            Err(Error::NotDisputed { id })
        } else if entry.client != transaction.client {
            Err(Error::ClientMismatch { id })
        } else {
            match self.account(transaction.client).resolve_deposit(entry.amount as int) {
                Err(e) => Err(e),
                Ok(account) => Ok(
                    self.settle(transaction.client, account, id, DisputeStatus::Closed),
                ),
            }
        }
    }

    /// What a chargeback record does: the transaction it names must be
    /// known, under dispute, and belong to the same client; then its amount
    /// leaves the account, which is locked.
    pub open spec fn chargeback(self, transaction: Transaction) -> Result<Ledger, Error> {
        let id: u32 = transaction.id;
        let entry = self.index[id];
        if !self.index.contains_key(id) {
            Err(Error::UnknownTransaction { id })
        } else if !(entry.status is Open) {
            Err(Error::NotDisputed { id })
        } else if entry.client != transaction.client {
            Err(Error::ClientMismatch { id })
        } else {
            match self.account(transaction.client).chargeback(entry.amount as int) {
                Err(e) => Err(e),
                Ok(account) => Ok(
                    self.settle(transaction.client, account, id, DisputeStatus::Closed),
                ),
            }
        }
    }

    /// What a record does once its client has an account: the state after
    /// it, or the reason for which it is refused.
    pub open spec fn dispatch(self, transaction: Transaction) -> Result<Ledger, Error> {
        match transaction.kind {
            Kind::Deposit => self.deposit(transaction),
            Kind::Withdrawal => self.withdrawal(transaction),
            Kind::Dispute => self.dispute(transaction),
            Kind::Resolve => self.resolve(transaction),
            Kind::Chargeback => self.chargeback(transaction),
        }
    }

    /// What a record does: the state after it, or the reason for which it is
    /// refused.
    pub open spec fn outcome(self, transaction: Transaction) -> Result<Ledger, Error> {
        self.with_account(transaction.client).dispatch(transaction)
    }

    /// The state after a record. A record that is refused changes nothing,
    /// except that its client has an account from then on.
    pub open spec fn step(self, transaction: Transaction) -> Ledger {
        match self.outcome(transaction) {
            Ok(ledger) => ledger,
            Err(_) => self.with_account(transaction.client),
        }
    }

    /// Whether the record ends the run.
    pub open spec fn aborts(self, transaction: Transaction) -> bool {
        self.outcome(transaction) matches Err(e) && e.is_fatal()
    }

    /// The state after all of `records`, taken in order, or the first fatal
    /// error. Records refused for a recoverable reason are skipped.
    pub open spec fn replay(self, records: Seq<Transaction>) -> Result<Ledger, Error>
        decreases records.len(),
    {
        if records.len() == 0 {
            Ok(self)
        } else if self.aborts(records.first()) {
            self.outcome(records.first())
        } else {
            self.step(records.first()).replay(records.drop_first())
        }
    }

    /// Opening an account keeps the state well formed.
    pub proof fn lemma_with_account_wf(self, client: u16)
        requires
            self.wf(),
        ensures
            self.with_account(client).wf(),
            self.with_account(client).clients.contains_key(client),
            self.with_account(client).account(client) == self.account(client),
            self.clients.contains_key(client) ==> self.with_account(client) == self,
    {
        if self.clients.contains_key(client) {
            assert(self.with_account(client).clients =~= self.clients);
        } else {
            lemma_held_covers_entry(self.index, client, 0, 0x1_0000_0000);
        }
    }

    /// At every point of a run, every account has `total == available +
    /// held` and no negative balance: a record, accepted or refused, takes a
    /// well-formed state to a well-formed state.
    pub proof fn lemma_step_wf(self, transaction: Transaction)
        requires
            self.wf(),
        ensures
            self.step(transaction).wf(),
    {
        self.lemma_with_account_wf(transaction.client);
        let opened = self.with_account(transaction.client);
        let next = self.step(transaction);
        if self.outcome(transaction) is Ok {
            assert forall|client: u16| #[trigger] next.clients.contains_key(client) implies {
                &&& next.clients[client].id == client
                &&& next.clients[client].wf()
                &&& next.clients[client].held == held_in_dispute(next.index, client)
                &&& next.clients[client].total <= next.index.len() * u64::MAX
            } by {
                assert(opened.clients.contains_key(client));
                lemma_held_differs_by_entry(
                    opened.index,
                    next.index,
                    client,
                    transaction.id,
                    0x1_0000_0000,
                );
            }
            assert forall|id: u32| #[trigger] next.index.contains_key(id) implies {
                &&& next.index[id].wf()
                &&& next.clients.contains_key(next.index[id].client)
            } by {
                if id != transaction.id {
                    assert(opened.index.contains_key(id));
                }
            }
        }
    }

    /// The invariant of [`Ledger::lemma_step_wf`] holds after any number of
    /// records: where a run from a well-formed state comes to its end, the
    /// state it ends in is well formed.
    pub proof fn lemma_replay_wf(self, records: Seq<Transaction>)
        requires
            self.wf(),
        ensures
            self.replay(records) matches Ok(ledger) ==> ledger.wf(),
        decreases records.len(),
    {
        if records.len() > 0 && !self.aborts(records.first()) {
            self.lemma_step_wf(records.first());
            self.step(records.first()).lemma_replay_wf(records.drop_first());
        }
    }
}

} // verus!
