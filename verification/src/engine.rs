//! The engine: it takes records in arrival order, keeps the accounts and the
//! index of accepted transactions, and tells fatal errors from recoverable
//! ones.

use std::collections::HashMap;
use vstd::prelude::*;

use crate::client::{Account, Client};
use crate::error::Error;
use crate::index::{DisputeStatus, TransactionIndex};
use crate::ledger::Ledger;
use crate::transaction::{Kind, Transaction};

verus! {

/// The accounts that a map of clients stands for.
pub open spec fn accounts(clients: Map<u16, Client>) -> Map<u16, Account> {
    clients.map_values(|client: Client| client@)
}

/// The state of one run.
pub struct Engine {
    clients: HashMap<u16, Client>,
    index: TransactionIndex,
}

impl View for Engine {
    type V = Ledger;

    closed spec fn view(&self) -> Ledger {
        Ledger { clients: accounts(self.clients@), index: self.index@ }
    }
}

impl Engine {
    /// The engine's invariant: see [`Ledger::wf`].
    pub open spec fn wf(&self) -> bool {
        self@.wf()
    }

    /// An engine that has seen no record.
    pub fn new() -> (engine: Self)
        ensures
            engine@ == Ledger::empty(),
            engine.wf(),
    {
        let engine = Self { clients: HashMap::new(), index: TransactionIndex::new() };
        proof {
            engine.index.lemma_bounded();
            assert(engine@.clients =~= Map::<u16, Account>::empty());
        }
        engine
    }

    /// Replays `records` in order and hands out the accounts. A record
    /// refused for a recoverable reason is skipped; the first fatal error
    /// ends the run, and no account is handed out.
    pub fn process(self, records: Vec<Transaction>) -> (r: Result<HashMap<u16, Client>, Error>)
        requires
            self.wf(),
        ensures
            match self@.replay(records@) {
                Ok(ledger) => r matches Ok(clients) && accounts(clients@) == ledger.clients,
                Err(e) => r matches Err(fatal) && fatal == e,
            },
            r matches Ok(clients) ==> forall|id: u16| #[trigger]
                clients@.contains_key(id) ==> clients@[id].wf() && clients@[id]@.id == id,
    {
        let mut engine = self;
        let mut i: usize = 0;
        proof {
            assert(records@.skip(0) =~= records@);
        }
        while i < records.len()
            invariant
                i <= records.len(),
                engine.wf(),
                self@.replay(records@) == engine@.replay(records@.skip(i as int)),
            decreases records.len() - i,
        {
            proof {
                assert(records@.skip(i as int).first() == records@[i as int]);
                assert(records@.skip(i as int).drop_first() =~= records@.skip(i + 1));
            }
            if let Err(e) = engine.process_transaction(&records[i]) {
                if e.is_fatal() {
                    return Err(e);
                }
            }
            i += 1;
        }
        proof {
            assert forall|id: u16| #[trigger] engine.clients@.contains_key(id) implies {
                engine.clients@[id].wf() && engine.clients@[id]@.id == id
            } by {
                assert(engine@.clients.contains_key(id));
            }
        }
        Ok(engine.clients)
    }

    /// The accounts as they stand, for a caller that feeds the records one
    /// by one.
    pub fn into_clients(self) -> (clients: HashMap<u16, Client>)
        ensures
            accounts(clients@) == self@.clients,
            self.wf() ==> forall|id: u16| #[trigger]
                clients@.contains_key(id) ==> clients@[id].wf() && clients@[id]@.id == id,
    {
        proof {
            if self.wf() {
                assert forall|id: u16| #[trigger] self.clients@.contains_key(id) implies {
                    self.clients@[id].wf() && self.clients@[id]@.id == id
                } by {
                    assert(self@.clients.contains_key(id));
                }
            }
        }
        self.clients
    }

    /// Takes one record: opens an account for its client where there is
    /// none, then does what the record's kind asks for. A record that is
    /// refused leaves every balance and the index as they were.
    pub fn process_transaction(&mut self, transaction: &Transaction) -> (r: Result<(), Error>)
        requires
            old(self).wf(),
        ensures
            final(self).wf(),
            final(self)@ == old(self)@.step(*transaction),
            match old(self)@.outcome(*transaction) {
                Ok(_) => r is Ok,
                Err(e) => r == Err::<(), Error>(e),
            },
    {
        proof {
            old(self)@.lemma_step_wf(*transaction);
        }
        self.client(transaction.client);
        match transaction.kind {
            Kind::Deposit => self.deposit(transaction),
            Kind::Withdrawal => self.withdrawal(transaction),
            Kind::Dispute => self.dispute(transaction),
            Kind::Resolve => self.resolve(transaction),
            Kind::Chargeback => self.chargeback(transaction),
        }
    }

    /// A deposit: the account takes the amount, then the transaction is
    /// registered.
    fn deposit(&mut self, transaction: &Transaction) -> (r: Result<(), Error>)
        requires
            old(self).wf(),
            old(self)@.clients.contains_key(transaction.client),
            transaction.kind is Deposit,
        ensures
            match old(self)@.deposit(*transaction) {
                Ok(ledger) => r is Ok && final(self)@ == ledger,
                Err(e) => r == Err::<(), Error>(e) && final(self)@ == old(self)@,
            },
    {
        let amount: u64 = transaction.get_amount()?;
        let mut account = self.client(transaction.client);
        proof {
            self.index.lemma_bounded();
        }
        account.deposit(amount)?;
        self.index.add_transaction(transaction.id, transaction.client, transaction.kind, amount)?;
        self.put(transaction.client, account);
        Ok(())
    }

    /// A withdrawal: the account pays the amount, then the transaction is
    /// registered.
    fn withdrawal(&mut self, transaction: &Transaction) -> (r: Result<(), Error>)
        requires
            old(self).wf(),
            old(self)@.clients.contains_key(transaction.client),
            transaction.kind is Withdrawal,
        ensures
            match old(self)@.withdrawal(*transaction) {
                Ok(ledger) => r is Ok && final(self)@ == ledger,
                Err(e) => r == Err::<(), Error>(e) && final(self)@ == old(self)@,
            },
    {
        let amount: u64 = transaction.get_amount()?;
        let mut account = self.client(transaction.client);
        account.withdrawal(amount)?;
        self.index.add_transaction(transaction.id, transaction.client, transaction.kind, amount)?;
        self.put(transaction.client, account);
        Ok(())
    }

    /// A dispute: the deposit it names is looked up, its amount is held, and
    /// the dispute is open.
    fn dispute(&mut self, transaction: &Transaction) -> (r: Result<(), Error>)
        requires
            old(self).wf(),
            old(self)@.clients.contains_key(transaction.client),
        ensures
            match old(self)@.dispute(*transaction) {
                Ok(ledger) => r is Ok && final(self)@ == ledger,
                Err(e) => r == Err::<(), Error>(e) && final(self)@ == old(self)@,
            },
    {
        let tx = self.index.load_transaction(transaction.id)?;
        if tx.client != transaction.client {
            return Err(Error::ClientMismatch { id: transaction.id });
        }
        if let DisputeStatus::Open = tx.status {
            return Err(Error::AlreadyDisputed { id: transaction.id });
        }
        match tx.kind {
            Kind::Deposit => {},
            _ => {
                return Err(Error::NotADeposit { id: transaction.id });
            },
        }
        let mut account = self.client(transaction.client);
        account.dispute_deposit(tx.amount)?;
        self.put(transaction.client, account);
        self.index.open_dispute(transaction.id)
    }

    /// A resolve: the amount of the open dispute it names is released, and
    /// the dispute is closed.
    fn resolve(&mut self, transaction: &Transaction) -> (r: Result<(), Error>)
        requires
            old(self).wf(),
            old(self)@.clients.contains_key(transaction.client),
        ensures
            match old(self)@.resolve(*transaction) {
                Ok(ledger) => r is Ok && final(self)@ == ledger,
                Err(e) => r == Err::<(), Error>(e) && final(self)@ == old(self)@,
            },
    {
        let tx = self.index.load_transaction(transaction.id)?;
        match tx.status {
            DisputeStatus::Open => {},
            _ => {
                return Err(Error::NotDisputed { id: transaction.id });
            },
        }
        if tx.client != transaction.client {
            return Err(Error::ClientMismatch { id: transaction.id });
        }
        let mut account = self.client(transaction.client);
        account.resolve_deposit(tx.amount)?;
        self.put(transaction.client, account);
        self.index.close_dispute(transaction.id)
    }

    /// A chargeback: the amount of the open dispute it names leaves the
    /// account, the account is locked, and the dispute is closed.
    fn chargeback(&mut self, transaction: &Transaction) -> (r: Result<(), Error>)
        requires
            old(self).wf(),
            old(self)@.clients.contains_key(transaction.client),
        ensures
            match old(self)@.chargeback(*transaction) {
                Ok(ledger) => r is Ok && final(self)@ == ledger,
                Err(e) => r == Err::<(), Error>(e) && final(self)@ == old(self)@,
            },
    {
        let tx = self.index.load_transaction(transaction.id)?;
        match tx.status {
            DisputeStatus::Open => {},
            _ => {
                return Err(Error::NotDisputed { id: transaction.id });
            },
        }
        if tx.client != transaction.client {
            return Err(Error::ClientMismatch { id: transaction.id });
        }
        let mut account = self.client(transaction.client);
        account.chargeback(tx.amount)?;
        self.put(transaction.client, account);
        self.index.close_dispute(transaction.id)
    }

    /// The account of the client, opened on the spot where there is none.
    fn client(&mut self, client_id: u16) -> (client: Client)
        requires
            old(self).wf(),
        ensures
            final(self).wf(),
            final(self)@ == old(self)@.with_account(client_id),
            old(self)@.clients.contains_key(client_id) ==> final(self)@ == old(self)@,
            client@ == old(self)@.account(client_id),
            client.wf(),
    {
        let client = *self.clients.entry(client_id).or_insert(Client::new(client_id));
        proof {
            old(self)@.lemma_with_account_wf(client_id);
            assert(self@.clients =~= old(self)@.with_account(client_id).clients);
        }
        client
    }

    /// Files the account as an operation has left it.
    fn put(&mut self, client_id: u16, client: Client)
        ensures
            final(self)@.clients == old(self)@.clients.insert(client_id, client@),
            final(self)@.index == old(self)@.index,
    {
        self.clients.insert(client_id, client);
    }
}

} // verus!
