//! The account ledger: a balance per address, changed by applying
//! transactions and rebuilt by replaying a chain from its first block.
use vstd::prelude::*;

use std::collections::HashMap;

use crate::block::Block;
use crate::transaction::{Address, Transaction};

verus! {

broadcast use vstd::std_specs::hash::group_hash_axioms;

/// The balance of an address; an address never credited holds 0.
pub open spec fn balance_of(m: Map<Address, i64>, a: Address) -> int {
    if m.contains_key(a) {
        m[a] as int
    } else {
        0
    }
}

pub open spec fn fits_i64(x: int) -> bool {
    i64::MIN <= x <= i64::MAX
}

/// Credits `amount` to `to`, unless the balance would leave the 64-bit range.
pub open spec fn credit(m: Map<Address, i64>, to: Address, amount: i64) -> Option<Map<Address, i64>> {
    let nr = balance_of(m, to) + amount;
    if fits_i64(nr) {
        Some(m.insert(to, nr as i64))
    } else {
        None
    }
}

/// Applying a transfer: the sender must hold at least the amount; the
/// sender is debited first and the receiver then credited. `None` when the
/// sender's funds fall short, or a balance would leave the 64-bit range.
pub open spec fn apply_outcome(m: Map<Address, i64>, t: Transaction) -> Option<Map<Address, i64>> {
    let sb = balance_of(m, t.from);
    if sb < t.amount {
        None
    } else if !fits_i64(sb - t.amount) {
        None
    } else {
        credit(m.insert(t.from, (sb - t.amount) as i64), t.to, t.amount)
    }
}

/// One step of a replay: a transfer from the mint address only credits; any
/// other transfer is applied, and skipped when it cannot be.
pub open spec fn replay_step(m: Map<Address, i64>, t: Transaction, mint: Address) -> Map<Address, i64> {
    let r = if t.from == mint {
        credit(m, t.to, t.amount)
    } else {
        apply_outcome(m, t)
    };
    match r {
        Some(n) => n,
        None => m,
    }
}

/// Replays a list of transactions, in order, onto a ledger.
pub open spec fn replay_txs(m: Map<Address, i64>, txs: Seq<Transaction>, mint: Address) -> Map<
    Address,
    i64,
>
    decreases txs.len(),
{
    if txs.len() == 0 {
        m
    } else {
        replay_step(replay_txs(m, txs.drop_last(), mint), txs.last(), mint)
    }
}

/// The ledger a chain determines: every transaction of every block replayed
/// in order onto an empty ledger.
pub open spec fn replay_chain(blocks: Seq<Block>, mint: Address) -> Map<Address, i64>
    decreases blocks.len(),
{
    if blocks.len() == 0 {
        Map::empty()
    } else {
        replay_txs(replay_chain(blocks.drop_last(), mint), blocks.last().transactions@, mint)
    }
}

/// Applying a list of transfers as one batch: `None` as soon as one of
/// them cannot be applied.
pub open spec fn apply_all(m: Map<Address, i64>, txs: Seq<Transaction>) -> Option<Map<Address, i64>>
    decreases txs.len(),
{
    if txs.len() == 0 {
        Some(m)
    } else {
        match apply_all(m, txs.drop_last()) {
            Some(m1) => apply_outcome(m1, txs.last()),
            None => None,
        }
    }
}

/// Applying transfers one by one, keeping those that succeed: the ledger
/// afterwards and the transfers that were applied, in order.
pub open spec fn apply_each(m: Map<Address, i64>, txs: Seq<Transaction>) -> (Map<Address, i64>, Seq<
    Transaction,
>)
    decreases txs.len(),
{
    if txs.len() == 0 {
        (m, Seq::empty())
    } else {
        let (m1, done) = apply_each(m, txs.drop_last());
        match apply_outcome(m1, txs.last()) {
            Some(m2) => (m2, done.push(txs.last())),
            None => (m1, done),
        }
    }
}

/// Replay is a function of the chain's contents alone: two lists holding
/// the same blocks give the same balances, so rebuilding twice from one
/// chain yields identical ledgers.
pub proof fn lemma_replay_deterministic(a: Seq<Block>, b: Seq<Block>, mint: Address)
    requires
        crate::chain::same_blocks(a, b),
    ensures
        replay_chain(a, mint) == replay_chain(b, mint),
    decreases a.len(),
{
    if a.len() > 0 {
        assert(a.last().same_as(&b.last()));
        let a1 = a.drop_last();
        let b1 = b.drop_last();
        assert forall|i: int| 0 <= i < a1.len() implies (#[trigger] a1[i]).same_as(&b1[i]) by {
            assert(a[i].same_as(&b[i]));
        }
        lemma_replay_deterministic(a1, b1, mint);
    }
}

/// Once a batch prefix fails, every longer prefix fails too.
proof fn lemma_apply_all_stays_failed(m: Map<Address, i64>, txs: Seq<Transaction>, k: int)
    requires
        0 < k <= txs.len(),
        apply_all(m, txs.subrange(0, k)) is None,
    ensures
        apply_all(m, txs) is None,
    decreases txs.len() - k,
{
    if k < txs.len() {
        assert(txs.subrange(0, k + 1).drop_last() =~= txs.subrange(0, k));
        lemma_apply_all_stays_failed(m, txs, k + 1);
    } else {
        assert(txs.subrange(0, k) =~= txs);
    }
}

/// A ledger store: where the balances are kept. Its view maps each address
/// that has an entry to its balance.
pub trait UserStateRepository: View<V = Map<Address, i64>> {
    /// Every address with a balance.
    fn get_balances(&self) -> (r: &HashMap<Address, i64>)
        ensures
            r@ == self@,
    ;

    /// Whether the address has a balance entry.
    fn contains(&self, address: Address) -> (r: bool)
        ensures
            r == self@.contains_key(address),
    ;

    /// The balance of an address, 0 for an unknown one.
    fn get_balance(&self, address: Address) -> (r: i64)
        ensures
            r as int == balance_of(self@, address),
    ;

    fn set_balance(&mut self, address: Address, balance: i64)
        ensures
            final(self)@ == old(self)@.insert(address, balance),
    ;

    /// Applies one transfer. True when it was applied; false, with the
    /// ledger unchanged, when the sender's funds fall short (or a balance
    /// would leave the 64-bit range).
    fn apply_transaction(&mut self, transaction: &Transaction) -> (r: bool)
        ensures
            r == apply_outcome(old(self)@, *transaction) is Some,
            r ==> final(self)@ == apply_outcome(old(self)@, *transaction)->0,
            !r ==> final(self)@ == old(self)@,
    ;

    /// Applies a block's transfers all or nothing: true, with all of them
    /// applied in order, when each can be; false, with the ledger unchanged,
    /// when one cannot.
    fn apply_block_transactions(&mut self, txs: &Vec<Transaction>) -> (r: bool)
        ensures
            r == apply_all(old(self)@, txs@) is Some,
            r ==> final(self)@ == apply_all(old(self)@, txs@)->0,
            !r ==> final(self)@ == old(self)@,
    ;

    /// Applies transfers one by one, keeping the ones that succeed, and
    /// returns those, in order.
    fn apply_each(&mut self, txs: Vec<Transaction>) -> (r: Vec<Transaction>)
        ensures
            (final(self)@, r@) == apply_each(old(self)@, txs@),
    ;

    /// Throws the balances away and replays the whole chain: transfers from
    /// `mint` create funds, and a transfer that cannot be applied is skipped.
    fn rebuild_from_blocks(&mut self, blocks: &Vec<Block>, mint: Address)
        ensures
            final(self)@ == replay_chain(blocks@, mint),
    ;
}

/// The balances of all known addresses, held in memory.
pub struct InMemoryUserStateRepository {
    balances: HashMap<Address, i64>,
}

impl View for InMemoryUserStateRepository {
    type V = Map<Address, i64>;

    closed spec fn view(&self) -> Map<Address, i64> {
        self.balances@
    }
}

impl InMemoryUserStateRepository {
    /// An empty ledger.
    pub fn new() -> (r: Self)
        ensures
            r@ == Map::<Address, i64>::empty(),
    {
        InMemoryUserStateRepository { balances: HashMap::new() }
    }

    /// A separate copy with the same balances.
    pub fn snapshot(&self) -> (r: Self)
        ensures
            r@ == self@,
    {
        InMemoryUserStateRepository { balances: self.balances.clone() }
    }

    /// Credits the receiver; false, with nothing changed, when the balance
    /// would leave the 64-bit range.
    fn credit(&mut self, to: Address, amount: i64) -> (r: bool)
        ensures
            r == credit(old(self)@, to, amount) is Some,
            r ==> final(self)@ == credit(old(self)@, to, amount)->0,
            !r ==> final(self)@ == old(self)@,
    {
        let rb = self.get_balance(to);
        match rb.checked_add(amount) {
            Some(nr) => {
                self.balances.insert(to, nr);
                true
            },
            None => false,
        }
    }

    /// Replays one transaction as a rebuild does.
    fn replay_one(&mut self, t: &Transaction, mint: Address)
        ensures
            final(self)@ == replay_step(old(self)@, *t, mint),
    {
        if t.from == mint {
            let _ = self.credit(t.to, t.amount);
        } else {
            let _ = self.apply_transaction(t);
        }
    }
}

impl UserStateRepository for InMemoryUserStateRepository {
    fn get_balances(&self) -> &HashMap<Address, i64> {
        &self.balances
    }

    fn contains(&self, address: Address) -> bool {
        self.balances.contains_key(&address)
    }

    fn get_balance(&self, address: Address) -> i64 {
        match self.balances.get(&address) {
            Some(b) => *b,
            None => 0,
        }
    }

    fn set_balance(&mut self, address: Address, balance: i64) {
        self.balances.insert(address, balance);
    }

    fn apply_transaction(&mut self, transaction: &Transaction) -> bool {
        let sender_balance = self.get_balance(transaction.from);
        if sender_balance < transaction.amount {
            return false;
        }
        let new_sender = match sender_balance.checked_sub(transaction.amount) {
            Some(v) => v,
            None => return false,
        };
        let receiver_balance = if transaction.to == transaction.from {
            new_sender
        } else {
            self.get_balance(transaction.to)
        };
        let new_receiver = match receiver_balance.checked_add(transaction.amount) {
            Some(v) => v,
            None => return false,
        };
        self.balances.insert(transaction.from, new_sender);
        self.balances.insert(transaction.to, new_receiver);
        true
    }

    fn apply_block_transactions(&mut self, txs: &Vec<Transaction>) -> bool {
        let mut tentative = self.snapshot();
        let mut i: usize = 0;
        while i < txs.len()
            invariant
                0 <= i <= txs@.len(),
                apply_all(self@, txs@.subrange(0, i as int)) == Some(tentative@),
            decreases txs@.len() - i,
        {
            assert(txs@.subrange(0, i as int + 1).drop_last() =~= txs@.subrange(0, i as int));
            if !tentative.apply_transaction(&txs[i]) {
                proof {
                    lemma_apply_all_stays_failed(self@, txs@, i as int + 1);
                }
                return false;
            }
            i = i + 1;
        }
        assert(txs@.subrange(0, txs@.len() as int) =~= txs@);
        *self = tentative;
        true
    }

    fn apply_each(&mut self, txs: Vec<Transaction>) -> Vec<Transaction> {
        let mut done: Vec<Transaction> = Vec::new();
        let mut i: usize = 0;
        while i < txs.len()
            invariant
                0 <= i <= txs@.len(),
                (self@, done@) == apply_each(old(self)@, txs@.subrange(0, i as int)),
            decreases txs@.len() - i,
        {
            assert(txs@.subrange(0, i as int + 1).drop_last() =~= txs@.subrange(0, i as int));
            if self.apply_transaction(&txs[i]) {
                done.push(txs[i]);
            }
            i = i + 1;
        }
        assert(txs@.subrange(0, txs@.len() as int) =~= txs@);
        done
    }

    fn rebuild_from_blocks(&mut self, blocks: &Vec<Block>, mint: Address) {
        self.balances.clear();
        let mut i: usize = 0;
        while i < blocks.len()
            invariant
                0 <= i <= blocks@.len(),
                self@ == replay_chain(blocks@.subrange(0, i as int), mint),
            decreases blocks@.len() - i,
        {
            let txs = &blocks[i].transactions;
            let ghost start = self@;
            let mut j: usize = 0;
            while j < txs.len()
                invariant
                    0 <= j <= txs@.len(),
                    txs@ == blocks@[i as int].transactions@,
                    self@ == replay_txs(start, txs@.subrange(0, j as int), mint),
                decreases txs@.len() - j,
            {
                self.replay_one(&txs[j], mint);
                j = j + 1;
                assert(txs@.subrange(0, j as int).drop_last() =~= txs@.subrange(0, (j - 1) as int));
            }
            assert(txs@.subrange(0, txs@.len() as int) =~= txs@);
            i = i + 1;
            assert(blocks@.subrange(0, i as int).drop_last() =~= blocks@.subrange(0, (i - 1) as int));
        }
        assert(blocks@.subrange(0, blocks@.len() as int) =~= blocks@);
    }
}

} // verus!
