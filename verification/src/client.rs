//! One client's account: its balances, its lock, and the five balance
//! operations.

use vstd::prelude::*;

use crate::error::Error;

verus! {

/// The mathematical model of an account.
///
/// Balances are integers counted in ten-thousandths of a currency unit.
pub struct Account {
    pub id: u16,
    pub available: int,
    pub held: int,
    pub total: int,
    pub locked: bool,
}

impl Account {
    /// The account of a client that has just been seen for the first time.
    pub open spec fn opened(id: u16) -> Account {
        Account { id, available: 0, held: 0, total: 0, locked: false }
    }

    /// No balance is negative, and the total is what is available plus what
    /// is held.
    pub open spec fn wf(self) -> bool {
        &&& 0 <= self.available
        &&& 0 <= self.held
        &&& 0 <= self.total
        &&& self.total == self.available + self.held
    }

    /// Credits `amount` to the account.
    pub open spec fn deposit(self, amount: int) -> Result<Account, Error> {
        if self.locked {
            Err(Error::AccountLocked { client: self.id })
        } else {
            Ok(
                Account {
                    available: self.available + amount,
                    total: self.total + amount,
                    ..self
                },
            )
        }
    }

    /// Takes `amount` out of the account.
    pub open spec fn withdrawal(self, amount: int) -> Result<Account, Error> {
        if self.locked {
            Err(Error::AccountLocked { client: self.id })
        } else if self.available < amount || self.total < amount {
            Err(Error::InsufficientAvailableFunds { client: self.id })
        } else {
            Ok(
                Account {
                    available: self.available - amount,
                    total: self.total - amount,
                    ..self
                },
            )
        }
    }

    /// Freezes `amount` of what is available until the dispute is settled.
    pub open spec fn dispute_deposit(self, amount: int) -> Result<Account, Error> {
        if self.locked {
            Err(Error::AccountLocked { client: self.id })
        } else if self.available < amount || self.total < amount {
            Err(Error::InsufficientAvailableFunds { client: self.id })
        } else {
            Ok(
                Account {
                    available: self.available - amount,
                    held: self.held + amount,
                    ..self
                },
            )
        }
    }

    /// Releases `amount` of what is held back to the client.
    pub open spec fn resolve_deposit(self, amount: int) -> Result<Account, Error> {
        if self.locked {
            Err(Error::AccountLocked { client: self.id })
        } else if self.held < amount {
            Err(Error::InsufficientHeldFunds { client: self.id })
        } else {
            Ok(
                Account {
                    available: self.available + amount,
                    held: self.held - amount,
                    ..self
                },
            )
        }
    }

    /// Withdraws `amount` of what is held and locks the account for good.
    pub open spec fn chargeback(self, amount: int) -> Result<Account, Error> {
        if self.locked {
            Err(Error::AccountLocked { client: self.id })
        } else if self.held < amount {
            Err(Error::InsufficientHeldFunds { client: self.id })
        } else {
            Ok(
                Account {
                    held: self.held - amount,
                    total: self.total - amount,
                    locked: true,
                    ..self
                },
            )
        }
    }
}

/// A client's account as the engine keeps it.
#[derive(Debug, Clone, Copy)]
pub struct Client {
    id: u16,
    available: u128,
    held: u128,
    total: u128,
    locked: bool,
}

impl View for Client {
    type V = Account;

    closed spec fn view(&self) -> Account {
        Account {
            id: self.id,
            available: self.available as int,
            held: self.held as int,
            total: self.total as int,
            locked: self.locked,
        }
    }
}

impl Default for Client {
    /// The account without funds of client 0.
    fn default() -> (client: Self)
        ensures
            client@ == Account::opened(0),
    {
        Self { id: 0, available: 0, held: 0, total: 0, locked: false }
    }
}

impl Client {
    /// The account's invariant: see [`Account::wf`].
    pub open spec fn wf(&self) -> bool {
        self@.wf()
    }

    /// A new account without funds.
    pub fn new(id: u16) -> (client: Self)
        ensures
            client@ == Account::opened(id),
            client.wf(),
    {
        Self { id, available: 0, held: 0, total: 0, locked: false }
    }

    /// The client that the account belongs to.
    pub fn id(&self) -> (id: u16)
        ensures
            id == self@.id,
    {
        self.id
    }

    /// The funds that the client may withdraw, or have disputed.
    pub fn available(&self) -> (available: u128)
        ensures
            available == self@.available,
    {
        self.available
    }

    /// The funds frozen under open disputes.
    pub fn held(&self) -> (held: u128)
        ensures
            held == self@.held,
    {
        self.held
    }

    /// The account's full balance.
    pub fn total(&self) -> (total: u128)
        ensures
            total == self@.total,
    {
        self.total
    }

    /// Whether a chargeback has locked the account.
    pub fn locked(&self) -> (locked: bool)
        ensures
            locked == self@.locked,
    {
        self.locked
    }

    fn check_lock(&self) -> (r: Result<(), Error>)
        ensures
            r == if self@.locked {
                Err::<(), Error>(Error::AccountLocked { client: self@.id })
            } else {
                Ok::<(), Error>(())
            },
    {
        if self.locked {
            Err(Error::AccountLocked { client: self.id })
        } else {
            Ok(())
        }
    }

    fn can_reduce_balance(&self, amount: u64) -> (r: Result<(), Error>)
        ensures
            r == if self@.available < amount || self@.total < amount {
                Err::<(), Error>(Error::InsufficientAvailableFunds { client: self@.id })
            } else {
                Ok::<(), Error>(())
            },
    {
        if self.available < amount as u128 || self.total < amount as u128 {
            Err(Error::InsufficientAvailableFunds { client: self.id })
        } else {
            Ok(())
        }
    }

    fn can_reduce_held(&self, amount: u64) -> (r: Result<(), Error>)
        ensures
            r == if self@.held < amount {
                Err::<(), Error>(Error::InsufficientHeldFunds { client: self@.id })
            } else {
                Ok::<(), Error>(())
            },
    {
        if self.held < amount as u128 {
            Err(Error::InsufficientHeldFunds { client: self.id })
        } else {
            Ok(())
        }
    }

    /// Credits `amount`, unless the account is locked. The total must have
    /// room for it: a balance counts up to 2^128 - 1 ten-thousandths.
    pub fn deposit(&mut self, amount: u64) -> (r: Result<(), Error>)
        requires
            old(self).wf(),
            old(self)@.total + amount <= u128::MAX,
        ensures
            final(self).wf(),
            match old(self)@.deposit(amount as int) {
                Ok(account) => r is Ok && final(self)@ == account,
                Err(e) => r == Err::<(), Error>(e) && final(self)@ == old(self)@,
            },
    {
        self.check_lock()?;
        self.available += amount as u128;
        self.total += amount as u128;
        Ok(())
    }

    /// Takes `amount` out, unless the account is locked or has less
    /// available.
    pub fn withdrawal(&mut self, amount: u64) -> (r: Result<(), Error>)
        requires
            old(self).wf(),
        ensures
            final(self).wf(),
            match old(self)@.withdrawal(amount as int) {
                Ok(account) => r is Ok && final(self)@ == account,
                Err(e) => r == Err::<(), Error>(e) && final(self)@ == old(self)@,
            },
    {
        self.check_lock()?;
        self.can_reduce_balance(amount)?;
        self.available -= amount as u128;
        self.total -= amount as u128;
        Ok(())
    }

    /// Moves `amount` from available to held, unless the account is locked or
    /// has less available.
    pub fn dispute_deposit(&mut self, amount: u64) -> (r: Result<(), Error>)
        requires
            old(self).wf(),
        ensures
            final(self).wf(),
            match old(self)@.dispute_deposit(amount as int) {
                Ok(account) => r is Ok && final(self)@ == account,
                Err(e) => r == Err::<(), Error>(e) && final(self)@ == old(self)@,
            },
    {
        self.check_lock()?;
        self.can_reduce_balance(amount)?;
        self.available -= amount as u128;
        self.held += amount as u128;
        Ok(())
    }

    /// Moves `amount` from held back to available, unless the account is
    /// locked or holds less.
    pub fn resolve_deposit(&mut self, amount: u64) -> (r: Result<(), Error>)
        requires
            old(self).wf(),
        ensures
            final(self).wf(),
            match old(self)@.resolve_deposit(amount as int) {
                Ok(account) => r is Ok && final(self)@ == account,
                Err(e) => r == Err::<(), Error>(e) && final(self)@ == old(self)@,
            },
    {
        self.check_lock()?;
        self.can_reduce_held(amount)?;
        self.available += amount as u128;
        self.held -= amount as u128;
        Ok(())
    }

    /// Takes `amount` out of what is held and locks the account, unless it is
    /// locked already or holds less.
    pub fn chargeback(&mut self, amount: u64) -> (r: Result<(), Error>)
        requires
            old(self).wf(),
        ensures
            final(self).wf(),
            match old(self)@.chargeback(amount as int) {
                Ok(account) => r is Ok && final(self)@ == account,
                Err(e) => r == Err::<(), Error>(e) && final(self)@ == old(self)@,
            },
    {
        self.check_lock()?;
        self.can_reduce_held(amount)?;
        self.held -= amount as u128;
        self.total -= amount as u128;
        self.locked = true;
        Ok(())
    }
}

} // verus!
