use pos_chain::ledger::{InMemoryUserStateRepository, UserStateRepository};
use pos_chain::mempool::{InMemoryMempoolRepository, Mempool, MempoolRepository};
use pos_chain::accounts::{create_transaction, process_mempool, submit_transaction, TransferError};
use pos_chain::slot::filter_valid;
use pos_chain::transaction::Transaction;

const A: u128 = 0xa;
const B: u128 = 0xb;

fn tx(id: u128, from: u128, to: u128, amount: i64) -> Transaction {
    Transaction { id, from, to, amount, timestamp: 1 }
}

#[test]
fn transaction_validity() {
    assert!(tx(1, A, B, 10).is_valid());
    assert!(!tx(1, A, A, 10).is_valid());
    assert!(!tx(1, A, B, 0).is_valid());
    assert!(!tx(1, A, B, -5).is_valid());
}

#[test]
fn transaction_new_keeps_fields_and_draws_ids() {
    let t1 = Transaction::new(A, B, 7, 99);
    let t2 = Transaction::new(A, B, 7, 99);
    assert_eq!((t1.from, t1.to, t1.amount, t1.timestamp), (A, B, 7, 99));
    assert_ne!(t1.id, t2.id);
}

#[test]
fn resubmission_is_rejected() {
    let mut pool = Mempool::new(InMemoryMempoolRepository::new());
    let t = tx(1, A, B, 10);
    assert!(pool.add_transaction(t));
    assert_eq!(pool.get_all_transactions().len(), 1);
    assert!(!pool.add_transaction(t));
    assert_eq!(pool.get_all_transactions().len(), 1);
}

#[test]
fn invalid_transaction_is_not_queued() {
    let mut pool = Mempool::new(InMemoryMempoolRepository::new());
    assert!(!pool.add_transaction(tx(1, A, B, -5)));
    assert!(!pool.add_transaction(tx(2, A, A, 5)));
    assert!(pool.get_all_transactions().is_empty());
    assert!(pool.get_last_transaction().is_none());
}

#[test]
fn drain_empties_in_order() {
    let mut pool = Mempool::new(InMemoryMempoolRepository::new());
    assert!(pool.add_transaction(tx(1, A, B, 10)));
    assert!(pool.add_transaction(tx(2, B, A, 3)));
    assert_eq!(pool.get_last_transaction().unwrap().id, 2);
    let drained = pool.drain_transactions();
    assert_eq!(drained.iter().map(|t| t.id).collect::<Vec<_>>(), vec![1, 2]);
    assert!(pool.get_all_transactions().is_empty());
}

#[test]
fn repository_lookup_by_id() {
    let mut repo = InMemoryMempoolRepository::new();
    repo.add_transaction(tx(5, A, B, 1));
    assert!(repo.check_exists_by_id(5));
    assert!(!repo.check_exists_by_id(6));
    assert_eq!(repo.get_last_transaction().unwrap().id, 5);
    assert_eq!(repo.drain_transactions().len(), 1);
    assert!(repo.get_all_transactions().is_empty());
}

#[test]
fn only_positive_amounts_are_block_eligible() {
    let valid = tx(1, A, B, 10);
    let invalid = tx(2, A, B, -5);
    let kept = filter_valid(vec![valid, invalid]);
    assert_eq!(kept, vec![valid]);
}

fn funded_ledger() -> InMemoryUserStateRepository {
    let mut l = InMemoryUserStateRepository::new();
    l.set_balance(A, 100);
    l.set_balance(B, 0);
    l
}

#[test]
fn submit_reports_each_error() {
    let ledger = funded_ledger();
    let mut pool = Mempool::new(InMemoryMempoolRepository::new());
    assert_eq!(submit_transaction(&ledger, &mut pool, tx(1, A, A, 5)), Err(TransferError::SameAddress));
    assert_eq!(submit_transaction(&ledger, &mut pool, tx(1, A, B, 0)), Err(TransferError::NonPositiveAmount));
    assert_eq!(submit_transaction(&ledger, &mut pool, tx(1, 0xc, B, 5)), Err(TransferError::UnknownSender));
    assert_eq!(submit_transaction(&ledger, &mut pool, tx(1, A, 0xc, 5)), Err(TransferError::UnknownReceiver));
    assert_eq!(submit_transaction(&ledger, &mut pool, tx(1, A, B, 101)), Err(TransferError::InsufficientBalance));
    assert!(pool.get_all_transactions().is_empty());
    assert_eq!(submit_transaction(&ledger, &mut pool, tx(1, A, B, 100)), Ok(()));
    assert_eq!(submit_transaction(&ledger, &mut pool, tx(1, A, B, 50)), Err(TransferError::Duplicate));
    assert_eq!(pool.get_all_transactions().len(), 1);
}

#[test]
fn create_transaction_queues_a_fresh_transfer() {
    let ledger = funded_ledger();
    let mut pool = Mempool::new(InMemoryMempoolRepository::new());
    let t = create_transaction(&ledger, &mut pool, A, B, 40, 12).unwrap();
    assert_eq!((t.from, t.to, t.amount, t.timestamp), (A, B, 40, 12));
    assert_eq!(pool.get_all_transactions(), vec![t]);
    assert_eq!(create_transaction(&ledger, &mut pool, A, B, 400, 12), Err(TransferError::InsufficientBalance));
}

#[test]
fn process_mempool_keeps_what_applies() {
    let mut ledger = InMemoryUserStateRepository::new();
    ledger.set_balance(1, 100);
    ledger.set_balance(2, 50);
    let mut pool = Mempool::new(InMemoryMempoolRepository::new());
    assert!(pool.add_transaction(tx(10, 1, 2, 25)));
    assert!(pool.add_transaction(tx(11, 2, 1, 80)));
    assert!(pool.add_transaction(tx(12, 1, 3, 15)));
    let done = process_mempool(&mut pool, &mut ledger);
    assert_eq!(done.iter().map(|t| t.id).collect::<Vec<_>>(), vec![10, 12]);
    assert_eq!(ledger.get_balance(1), 60);
    assert_eq!(ledger.get_balance(2), 75);
    assert_eq!(ledger.get_balance(3), 15);
    assert!(pool.get_all_transactions().is_empty());
}

#[test]
fn create_transaction_on_empty_mempool_is_never_a_duplicate() {
    let ledger = funded_ledger();
    for _ in 0..20 {
        let mut pool = Mempool::new(InMemoryMempoolRepository::new());
        assert!(create_transaction(&ledger, &mut pool, A, B, 1, 0).is_ok());
    }
}
