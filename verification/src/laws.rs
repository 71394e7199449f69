//! What holds of every run: laws of the model in [`crate::ledger`], each
//! proved for all states and all records.

use vstd::prelude::*;

use crate::client::Account;
use crate::error::Error;
use crate::index::lemma_held_covers_entry;
use crate::ledger::Ledger;
use crate::transaction::Transaction;

verus! {

/// Every balance operation keeps the account's invariant: starting from
/// `total == available + held` with no negative balance, an operation on an
/// amount that is not negative ends there too.
pub proof fn lemma_operations_keep_invariant(account: Account, amount: int)
    requires
        account.wf(),
        0 <= amount,
    ensures
        account.deposit(amount) matches Ok(after) ==> after.wf(),
        account.withdrawal(amount) matches Ok(after) ==> after.wf(),
        account.dispute_deposit(amount) matches Ok(after) ==> after.wf(),
        account.resolve_deposit(amount) matches Ok(after) ==> after.wf(),
        account.chargeback(amount) matches Ok(after) ==> after.wf(),
{
}

/// The state before the first record is well formed.
pub proof fn lemma_empty_wf()
    ensures
        Ledger::empty().wf(),
{
}

/// For every account at every point of a run, `total == available + held`,
/// and no balance is negative: it holds of the state that any number of
/// records leads to.
pub proof fn lemma_balances_add_up(ledger: Ledger, records: Seq<Transaction>, client: u16)
    requires
        ledger.wf(),
    ensures
        ledger.replay(records) matches Ok(end) ==> (end.clients.contains_key(client) ==> {
            let account = end.clients[client];
            &&& account.total == account.available + account.held
            &&& 0 <= account.available
            &&& 0 <= account.held
            &&& 0 <= account.total
        }),
{
    ledger.lemma_replay_wf(records);
}

/// A locked account refuses every operation with `AccountLocked`, whatever
/// the amount.
pub proof fn lemma_locked_refuses_all(account: Account, amount: int)
    requires
        account.locked,
    ensures
        account.deposit(amount) == Err::<Account, Error>(
            Error::AccountLocked { client: account.id },
        ),
        account.withdrawal(amount) == Err::<Account, Error>(
            Error::AccountLocked { client: account.id },
        ),
        account.dispute_deposit(amount) == Err::<Account, Error>(
            Error::AccountLocked { client: account.id },
        ),
        account.resolve_deposit(amount) == Err::<Account, Error>(
            Error::AccountLocked { client: account.id },
        ),
        account.chargeback(amount) == Err::<Account, Error>(
            Error::AccountLocked { client: account.id },
        ),
{
}

/// A record that is refused changes no balance and no index entry: all it
/// may leave behind is an empty account for its client.
pub proof fn lemma_refused_changes_nothing(ledger: Ledger, transaction: Transaction)
    requires
        ledger.outcome(transaction) is Err,
    ensures
        ledger.step(transaction).index == ledger.index,
        forall|client: u16| #[trigger]
            ledger.step(transaction).account(client) == ledger.account(client),
        ledger.clients.contains_key(transaction.client) ==> ledger.step(transaction) == ledger,
{
    if ledger.clients.contains_key(transaction.client) {
        assert(ledger.step(transaction).clients =~= ledger.clients);
    }
}

/// Disputing a transaction twice holds its amount once: the second dispute
/// is refused for a recoverable reason and changes nothing. Where the first
/// one was accepted, the reason is `AlreadyDisputed`.
pub proof fn lemma_second_dispute_is_refused(ledger: Ledger, dispute: Transaction)
    requires
        dispute.kind is Dispute,
    ensures
        ({
            let after = ledger.step(dispute);
            &&& after.outcome(dispute) matches Err(e) && !e.is_fatal()
            &&& after.step(dispute) == after
            &&& ledger.outcome(dispute) is Ok ==> after.outcome(dispute) == Err::<Ledger, Error>(
                Error::AlreadyDisputed { id: dispute.id },
            )
        }),
{
    let after = ledger.step(dispute);
    assert(after.with_account(dispute.client).clients =~= after.clients);
    assert(after.with_account(dispute.client) == after);
    if ledger.outcome(dispute) is Err {
        let opened = ledger.with_account(dispute.client);
        assert(opened.with_account(dispute.client) == opened);
    }
}

/// A resolve that follows a deposit of the same identifier, with no dispute
/// in between, is refused as `NotDisputed` and changes no balance and no
/// index entry.
pub proof fn lemma_resolve_without_dispute(ledger: Ledger, deposit: Transaction, resolve: Transaction)
    requires
        deposit.kind is Deposit,
        resolve.kind is Resolve,
        resolve.id == deposit.id,
        ledger.outcome(deposit) is Ok,
    ensures
        ({
            let after = ledger.step(deposit);
            &&& after.outcome(resolve) == Err::<Ledger, Error>(
                Error::NotDisputed { id: resolve.id },
            )
            &&& after.step(resolve).index == after.index
            &&& forall|client: u16| #[trigger]
                after.step(resolve).account(client) == after.account(client)
            &&& resolve.client == deposit.client ==> after.step(resolve) == after
        }),
{
    let after = ledger.step(deposit);
    lemma_refused_changes_nothing(after, resolve);
}

/// A chargeback that follows an accepted dispute of the same transaction by
/// the same client is accepted: the disputed amount leaves the account, and
/// the account is locked.
pub proof fn lemma_chargeback_locks(ledger: Ledger, dispute: Transaction, chargeback: Transaction)
    requires
        ledger.wf(),
        dispute.kind is Dispute,
        chargeback.kind is Chargeback,
        chargeback.id == dispute.id,
        chargeback.client == dispute.client,
        ledger.outcome(dispute) is Ok,
    ensures
        ({
            let disputed = ledger.step(dispute);
            let amount: u64 = ledger.index[dispute.id].amount;
            let before = ledger.account(dispute.client);
            let after = disputed.step(chargeback).clients[dispute.client];
            &&& disputed.outcome(chargeback) is Ok
            &&& after.locked
            &&& after.available == before.available - amount
            &&& after.held == before.held
            &&& after.total == before.total - amount
        }),
{
    ledger.lemma_with_account_wf(dispute.client);
    let disputed = ledger.step(dispute);
    assert(disputed.with_account(dispute.client).clients =~= disputed.clients);
}

/// A dispute that is open can be settled: unless the account is locked, a
/// resolve or a chargeback of the disputed transaction by its client is
/// accepted, for the account holds at least the disputed amount.
pub proof fn lemma_open_dispute_settles(ledger: Ledger, settlement: Transaction)
    requires
        ledger.wf(),
        settlement.kind is Resolve || settlement.kind is Chargeback,
        ledger.index.contains_key(settlement.id),
        ledger.index[settlement.id].status is Open,
        ledger.index[settlement.id].client == settlement.client,
        !ledger.account(settlement.client).locked,
    ensures
        ledger.account(settlement.client).held >= ledger.index[settlement.id].amount,
        ledger.outcome(settlement) is Ok,
{
    ledger.lemma_with_account_wf(settlement.client);
    lemma_held_covers_entry(ledger.index, settlement.client, settlement.id, 0x1_0000_0000);
}

/// In a run, no record is ever refused for want of held funds: what a
/// dispute has put on hold is there when the dispute is settled.
pub proof fn lemma_held_funds_suffice(ledger: Ledger, transaction: Transaction)
    requires
        ledger.wf(),
    ensures
        !(ledger.outcome(transaction) matches Err(e) && e is InsufficientHeldFunds),
{
    ledger.lemma_with_account_wf(transaction.client);
    lemma_held_covers_entry(ledger.index, transaction.client, transaction.id, 0x1_0000_0000);
}

/// Once an account is locked, no record changes it, and every record of its
/// client is refused; a deposit or withdrawal that carries an amount is
/// refused as `AccountLocked`.
pub proof fn lemma_locked_account_is_frozen(ledger: Ledger, client: u16, transaction: Transaction)
    requires
        ledger.wf(),
        ledger.clients.contains_key(client),
        ledger.clients[client].locked,
    ensures
        ledger.step(transaction).clients.contains_key(client),
        ledger.step(transaction).clients[client] == ledger.clients[client],
        transaction.client == client ==> ledger.outcome(transaction) is Err,
        transaction.client == client && (transaction.kind is Deposit || transaction.kind
            is Withdrawal) && transaction.amount is Some ==> ledger.outcome(transaction) == Err::<
            Ledger,
            Error,
        >(Error::AccountLocked { client }),
{
    ledger.lemma_with_account_wf(transaction.client);
}

/// A locked account stays as it is to the end of the run, whatever records
/// follow.
pub proof fn lemma_locked_account_stays(ledger: Ledger, client: u16, records: Seq<Transaction>)
    requires
        ledger.wf(),
        ledger.clients.contains_key(client),
        ledger.clients[client].locked,
    ensures
        ledger.replay(records) matches Ok(end) ==> end.clients.contains_key(client)
            && end.clients[client] == ledger.clients[client],
    decreases records.len(),
{
    if records.len() > 0 && !ledger.aborts(records.first()) {
        lemma_locked_account_is_frozen(ledger, client, records.first());
        ledger.lemma_step_wf(records.first());
        lemma_locked_account_stays(ledger.step(records.first()), client, records.drop_first());
    }
}

/// A run may be taken in parts: replaying two batches of records one after
/// the other ends as replaying them in one go.
pub proof fn lemma_replay_in_parts(ledger: Ledger, first: Seq<Transaction>, rest: Seq<Transaction>)
    ensures
        ledger.replay(first + rest) == match ledger.replay(first) {
            Ok(between) => between.replay(rest),
            Err(e) => Err(e),
        },
    decreases first.len(),
{
    if first.len() == 0 {
        assert(first + rest =~= rest);
    } else {
        assert((first + rest).first() == first.first());
        assert((first + rest).drop_first() =~= first.drop_first() + rest);
        if !ledger.aborts(first.first()) {
            lemma_replay_in_parts(ledger.step(first.first()), first.drop_first(), rest);
        }
    }
}

/// The index only grows: a record removes no entry and changes no entry's
/// client, kind or amount, and a deposit or withdrawal is accepted only
/// under an identifier that was not in use.
pub proof fn lemma_index_keeps_entries(ledger: Ledger, transaction: Transaction, id: u32)
    requires
        ledger.index.contains_key(id),
    ensures
        ledger.step(transaction).index.contains_key(id),
        ledger.step(transaction).index[id].client == ledger.index[id].client,
        ledger.step(transaction).index[id].kind == ledger.index[id].kind,
        ledger.step(transaction).index[id].amount == ledger.index[id].amount,
        (transaction.kind is Deposit || transaction.kind is Withdrawal) && transaction.id == id
            ==> ledger.outcome(transaction) is Err,
{
}

/// The dispute status of a transaction moves in one cycle only: a dispute
/// of that transaction opens it, from any status but open, and a resolve or
/// chargeback of that transaction closes it, from open. Nothing else
/// changes it.
pub proof fn lemma_status_moves_in_cycle(ledger: Ledger, transaction: Transaction, id: u32)
    requires
        ledger.index.contains_key(id),
        ledger.step(transaction).index[id].status != ledger.index[id].status,
    ensures
        transaction.id == id,
        ledger.outcome(transaction) is Ok,
        ledger.index[id].status is Open ==> {
            &&& transaction.kind is Resolve || transaction.kind is Chargeback
            &&& ledger.step(transaction).index[id].status is Closed
        },
        !(ledger.index[id].status is Open) ==> {
            &&& transaction.kind is Dispute
            &&& ledger.step(transaction).index[id].status is Open
        },
{
}

} // verus!
