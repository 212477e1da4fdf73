//! Admitting new transfers and accounts, and applying pending transfers.
use vstd::prelude::*;

use crate::ledger::{balance_of, UserStateRepository};
use crate::mempool::{after_submit, has_id, Mempool, MempoolRepository};
use crate::transaction::{Address, Transaction};

verus! {

/// Why a new transfer was turned away.
#[derive(Clone, Copy, Debug, PartialEq, Eq, Structural)]
pub enum TransferError {
    /// Sender and receiver are the same address.
    SameAddress,
    /// The amount is not positive.
    NonPositiveAmount,
    /// The ledger has no entry for the sender.
    UnknownSender,
    /// The ledger has no entry for the receiver.
    UnknownReceiver,
    /// The sender's balance is below the amount.
    InsufficientBalance,
    /// A pending transaction already carries this id.
    Duplicate,
}

/// The first check a transfer fails, in the order they are made, if any.
pub open spec fn transfer_check(
    ledger: Map<Address, i64>,
    pending: Seq<Transaction>,
    t: Transaction,
) -> Option<TransferError> {
    if t.from == t.to {
        Some(TransferError::SameAddress)
    } else if t.amount <= 0 {
        Some(TransferError::NonPositiveAmount)
    } else if !ledger.contains_key(t.from) {
        Some(TransferError::UnknownSender)
    } else if !ledger.contains_key(t.to) {
        Some(TransferError::UnknownReceiver)
    } else if balance_of(ledger, t.from) < t.amount {
        Some(TransferError::InsufficientBalance)
    } else if has_id(pending, t.id) {
        Some(TransferError::Duplicate)
    } else {
        None
    }
}

/// Admits a transfer into the mempool after checking it against the ledger:
/// it is appended exactly when every check passes.
pub fn submit_transaction<U: UserStateRepository, M: MempoolRepository>(
    ledger: &U,
    mempool: &mut Mempool<M>,
    transaction: Transaction,
) -> (r: Result<(), TransferError>)
    requires
        old(mempool).wf(),
    ensures
        final(mempool).wf(),
        r is Ok <==> transfer_check(ledger@, old(mempool)@, transaction) is None,
        r is Err ==> r->Err_0 == transfer_check(ledger@, old(mempool)@, transaction)->0
            && final(mempool)@ == old(mempool)@,
        r is Ok ==> final(mempool)@ == old(mempool)@.push(transaction),
{
    if transaction.from == transaction.to {
        return Err(TransferError::SameAddress);
    }
    if transaction.amount <= 0 {
        return Err(TransferError::NonPositiveAmount);
    }
    if !ledger.contains(transaction.from) {
        return Err(TransferError::UnknownSender);
    }
    if !ledger.contains(transaction.to) {
        return Err(TransferError::UnknownReceiver);
    }
    if ledger.get_balance(transaction.from) < transaction.amount {
        return Err(TransferError::InsufficientBalance);
    }
    if mempool.add_transaction(transaction) {
        Ok(())
    } else {
        Err(TransferError::Duplicate)
    }
}

/// Creates a transfer with a fresh random id and admits it as
/// `submit_transaction` does; returns the transaction when admitted.
pub fn create_transaction<U: UserStateRepository, M: MempoolRepository>(
    ledger: &U,
    mempool: &mut Mempool<M>,
    from: Address,
    to: Address,
    amount: i64,
    timestamp: u64,
) -> (r: Result<Transaction, TransferError>)
    requires
        old(mempool).wf(),
    ensures
        final(mempool).wf(),
        ({
            let probe = Transaction { id: 0, from, to, amount, timestamp };
            let early = transfer_check(ledger@, Seq::empty(), probe);
            &&& early is Some ==> r == Err::<Transaction, TransferError>(early->0)
            &&& early is None ==> (r is Ok || r == Err::<Transaction, TransferError>(
                TransferError::Duplicate,
            ))
        }),
        r is Err ==> final(mempool)@ == old(mempool)@,
        r == Err::<Transaction, TransferError>(TransferError::Duplicate) ==> old(mempool)@.len() > 0,
        r is Ok ==> {
            let t = r->Ok_0;
            &&& t.from == from && t.to == to && t.amount == amount && t.timestamp == timestamp
            &&& final(mempool)@ == old(mempool)@.push(t)
        },
{
    let transaction = Transaction::new(from, to, amount, timestamp);
    match submit_transaction(ledger, mempool, transaction) {
        Ok(()) => Ok(transaction),
        Err(e) => Err(e),
    }
}

/// Opens an empty account for `user`, and submits to the mempool a funding
/// transfer of `balance` from the faucet to it, under the id `funding_id`;
/// the mempool keeps it when it is valid and its id new. The funds arrive
/// only through that transfer, once a block carrying it is applied.
pub fn open_account<U: UserStateRepository, M: MempoolRepository>(
    ledger: &mut U,
    mempool: &mut Mempool<M>,
    user: Address,
    funding_id: u128,
    balance: i64,
    faucet: Address,
    timestamp: u64,
) -> (r: Transaction)
    requires
        old(mempool).wf(),
    ensures
        r == (Transaction { id: funding_id, from: faucet, to: user, amount: balance, timestamp }),
        final(ledger)@ == old(ledger)@.insert(user, 0),
        final(mempool)@ == after_submit(old(mempool)@, r),
        final(mempool).wf(),
{
    ledger.set_balance(user, 0);
    let funding = Transaction { id: funding_id, from: faucet, to: user, amount: balance, timestamp };
    let _ = mempool.add_transaction(funding);
    funding
}

/// Opens an empty account under a fresh random address, funded by a
/// transfer of `balance` under a fresh random id, as `open_account` does.
/// Returns the new address.
pub fn create_user<U: UserStateRepository, M: MempoolRepository>(
    ledger: &mut U,
    mempool: &mut Mempool<M>,
    balance: i64,
    faucet: Address,
    timestamp: u64,
) -> (r: Address)
    requires
        old(mempool).wf(),
    ensures
        final(mempool).wf(),
        final(ledger)@ == old(ledger)@.insert(r, 0),
        exists|id: u128|
            final(mempool)@ == #[trigger] after_submit(
                old(mempool)@,
                (Transaction { id, from: faucet, to: r, amount: balance, timestamp }),
            ),
{
    let user = crate::crypto::new_random_id();
    let funding_id = crate::crypto::new_random_id();
    let funding = open_account(ledger, mempool, user, funding_id, balance, faucet, timestamp);
    assert(mempool@ == after_submit(
        old(mempool)@,
        (Transaction { id: funding.id, from: faucet, to: user, amount: balance, timestamp }),
    ));
    user
}

/// Drains the mempool and applies each transfer to the ledger, keeping
/// those that succeed; returns them, in order.
pub fn process_mempool<U: UserStateRepository, M: MempoolRepository>(
    mempool: &mut Mempool<M>,
    ledger: &mut U,
) -> (r: Vec<Transaction>)
    requires
        old(mempool).wf(),
    ensures
        final(mempool)@.len() == 0,
        final(mempool).wf(),
        (final(ledger)@, r@) == crate::ledger::apply_each(old(ledger)@, old(mempool)@),
{
    let transactions = mempool.drain_transactions();
    ledger.apply_each(transactions)
}

} // verus!
