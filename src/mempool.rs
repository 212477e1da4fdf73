//! Pending transactions: an ordered queue with no two entries sharing an id.
use vstd::prelude::*;

use crate::transaction::Transaction;

verus! {

/// Whether some entry of `s` carries the id.
pub open spec fn has_id(s: Seq<Transaction>, id: u128) -> bool {
    exists|i: int| 0 <= i < s.len() && (#[trigger] s[i]).id == id
}

/// No two entries share an id.
pub open spec fn ids_unique(s: Seq<Transaction>) -> bool {
    forall|i: int, j: int| 0 <= i < j < s.len() ==> (#[trigger] s[i]).id != (#[trigger] s[j]).id
}

/// Every entry is valid and no two share an id.
pub open spec fn pool_wf(s: Seq<Transaction>) -> bool {
    &&& ids_unique(s)
    &&& forall|i: int| 0 <= i < s.len() ==> (#[trigger] s[i]).spec_is_valid()
}

/// Whether a submission is taken: the transaction is valid and its id is new.
pub open spec fn accepts(s: Seq<Transaction>, t: Transaction) -> bool {
    t.spec_is_valid() && !has_id(s, t.id)
}

/// The queue after a submission: the transaction at the tail when taken,
/// the queue unchanged when not.
pub open spec fn after_submit(s: Seq<Transaction>, t: Transaction) -> Seq<Transaction> {
    if accepts(s, t) {
        s.push(t)
    } else {
        s
    }
}

/// Submitting the same valid transaction twice: the first call appends it,
/// so the queue grows by one, and the second call is turned away as a
/// duplicate, leaving the queue as the first call left it.
pub proof fn lemma_resubmission_rejected(s: Seq<Transaction>, t: Transaction)
    requires
        t.spec_is_valid(),
        !has_id(s, t.id),
    ensures
        after_submit(s, t).len() == s.len() + 1,
        !accepts(after_submit(s, t), t),
        after_submit(after_submit(s, t), t) == after_submit(s, t),
{
    let s1 = after_submit(s, t);
    assert(s1[s.len() as int].id == t.id);
}

/// A pending-transaction store. Its view is the queue, oldest first.
pub trait MempoolRepository: View<V = Seq<Transaction>> {
    /// Appends at the tail, unchecked.
    fn add_transaction(&mut self, transaction: Transaction)
        ensures
            final(self)@ == old(self)@.push(transaction),
    ;

    /// A snapshot of the queue.
    fn get_all_transactions(&self) -> (r: Vec<Transaction>)
        ensures
            r@ == self@,
    ;

    /// The newest entry, if any.
    fn get_last_transaction(&self) -> (r: Option<Transaction>)
        ensures
            self@.len() == 0 ==> r is None,
            self@.len() > 0 ==> r == Some(self@.last()),
    ;

    /// Whether an entry carries the id.
    fn check_exists_by_id(&self, transaction_id: u128) -> (r: bool)
        ensures
            r == has_id(self@, transaction_id),
    ;

    /// Removes and returns every entry, oldest first, leaving the queue empty.
    fn drain_transactions(&mut self) -> (r: Vec<Transaction>)
        ensures
            r@ == old(self)@,
            final(self)@ == Seq::<Transaction>::empty(),
    ;
}

/// Pending transactions held in memory, oldest first.
pub struct InMemoryMempoolRepository {
    transactions: Vec<Transaction>,
}

impl View for InMemoryMempoolRepository {
    type V = Seq<Transaction>;

    closed spec fn view(&self) -> Seq<Transaction> {
        self.transactions@
    }
}

impl InMemoryMempoolRepository {
    pub fn new() -> (r: Self)
        ensures
            r@ == Seq::<Transaction>::empty(),
    {
        InMemoryMempoolRepository { transactions: Vec::new() }
    }
}

impl MempoolRepository for InMemoryMempoolRepository {
    fn add_transaction(&mut self, transaction: Transaction) {
        self.transactions.push(transaction);
    }

    fn get_all_transactions(&self) -> Vec<Transaction> {
        crate::block::copy_transactions(&self.transactions)
    }

    fn get_last_transaction(&self) -> Option<Transaction> {
        if self.transactions.len() == 0 {
            None
        } else {
            Some(self.transactions[self.transactions.len() - 1])
        }
    }

    fn check_exists_by_id(&self, transaction_id: u128) -> bool {
        let mut i: usize = 0;
        while i < self.transactions.len()
            invariant
                0 <= i <= self@.len(),
                forall|k: int| 0 <= k < i ==> (#[trigger] self@[k]).id != transaction_id,
            decreases self@.len() - i,
        {
            if self.transactions[i].id == transaction_id {
                assert(self@[i as int].id == transaction_id);
                return true;
            }
            i = i + 1;
        }
        false
    }

    fn drain_transactions(&mut self) -> Vec<Transaction> {
        let mut out: Vec<Transaction> = Vec::new();
        std::mem::swap(&mut out, &mut self.transactions);
        out
    }
}

/// The checked front of the pending queue: only valid transactions with a
/// new id get in.
pub struct Mempool<T: MempoolRepository> {
    repository: T,
}

impl<T: MempoolRepository> View for Mempool<T> {
    type V = Seq<Transaction>;

    closed spec fn view(&self) -> Seq<Transaction> {
        self.repository@
    }
}

impl<T: MempoolRepository> Mempool<T> {
    /// Every entry is valid and no two share an id.
    pub open spec fn wf(&self) -> bool {
        pool_wf(self@)
    }

    /// A mempool over a store whose entries are valid and have distinct ids
    /// (an empty store, typically).
    pub fn new(repository: T) -> (r: Self)
        requires
            pool_wf(repository@),
        ensures
            r@ == repository@,
            r.wf(),
    {
        Mempool { repository }
    }

    /// Submits a transaction. True when it was appended; false, with the
    /// queue unchanged, when it is invalid or its id is already pending.
    pub fn add_transaction(&mut self, transaction: Transaction) -> (r: bool)
        requires
            old(self).wf(),
        ensures
            r == accepts(old(self)@, transaction),
            final(self)@ == after_submit(old(self)@, transaction),
            final(self).wf(),
    {
        if self.check_if_transaction_valid(&transaction) {
            self.repository.add_transaction(transaction);
            proof {
                let s = old(self)@;
                let n = self@;
                assert(n == s.push(transaction));
                assert forall|i: int, j: int| 0 <= i < j < n.len() implies n[i].id != n[j].id by {
                    if j == s.len() {
                        assert(s[i] == n[i]);
                    }
                }
            }
            true
        } else {
            false
        }
    }

    fn check_if_transaction_valid(&self, transaction: &Transaction) -> (r: bool)
        ensures
            r == accepts(self@, *transaction),
    {
        if !transaction.is_valid() {
            return false;
        }
        !self.repository.check_exists_by_id(transaction.id)
    }

    /// A snapshot of the queue.
    pub fn get_all_transactions(&self) -> (r: Vec<Transaction>)
        ensures
            r@ == self@,
    {
        self.repository.get_all_transactions()
    }

    /// The newest entry, if any.
    pub fn get_last_transaction(&self) -> (r: Option<Transaction>)
        ensures
            self@.len() == 0 ==> r is None,
            self@.len() > 0 ==> r == Some(self@.last()),
    {
        self.repository.get_last_transaction()
    }

    /// Removes and returns every entry, oldest first, leaving the queue empty.
    pub fn drain_transactions(&mut self) -> (r: Vec<Transaction>)
        ensures
            r@ == old(self)@,
            final(self)@ == Seq::<Transaction>::empty(),
            final(self).wf(),
    {
        self.repository.drain_transactions()
    }
}

} // verus!
