//! A slot of the consensus loop: what its leader proposes.
use vstd::prelude::*;

use crate::block::{signature_of, Block};
use crate::chain::{extends, BlockchainRepository};
use crate::leader::{leader_for_slot, leader_position};
use crate::mempool::{Mempool, MempoolRepository};
use crate::quorum::QuorumTracker;
use crate::transaction::Transaction;

verus! {

/// The transactions that may go into a block: the valid ones, in order.
pub open spec fn block_eligible(txs: Seq<Transaction>) -> Seq<Transaction>
    decreases txs.len(),
{
    if txs.len() == 0 {
        Seq::empty()
    } else if txs.last().spec_is_valid() {
        block_eligible(txs.drop_last()).push(txs.last())
    } else {
        block_eligible(txs.drop_last())
    }
}

/// The block-eligible transactions are exactly the valid ones, in their
/// order: an invalid one (a non-positive amount, say) is dropped and every
/// valid one kept.
pub proof fn lemma_block_eligible_keeps_valid(txs: Seq<Transaction>)
    ensures
        block_eligible(txs) == txs.filter(|t: Transaction| t.spec_is_valid()),
    decreases txs.len(),
{
    reveal_with_fuel(Seq::filter, 1);
    if txs.len() > 0 {
        lemma_block_eligible_keeps_valid(txs.drop_last());
        let pred = |t: Transaction| t.spec_is_valid();
        assert(txs.filter(pred) == (if pred(txs.last()) {
            txs.drop_last().filter(pred).push(txs.last())
        } else {
            txs.drop_last().filter(pred)
        }));
    }
}

/// Keeps the valid transactions, in order.
pub fn filter_valid(txs: Vec<Transaction>) -> (r: Vec<Transaction>)
    ensures
        r@ == block_eligible(txs@),
{
    let mut r: Vec<Transaction> = Vec::new();
    let mut i: usize = 0;
    while i < txs.len()
        invariant
            0 <= i <= txs@.len(),
            r@ == block_eligible(txs@.subrange(0, i as int)),
        decreases txs@.len() - i,
    {
        let t = txs[i];
        assert(txs@.subrange(0, i as int + 1).drop_last() =~= txs@.subrange(0, i as int));
        if t.is_valid() {
            r.push(t);
        }
        i = i + 1;
    }
    assert(txs@.subrange(0, txs@.len() as int) =~= txs@);
    r
}

/// Builds and signs, without appending, the block that would follow the
/// head. `None` when there is no head or its index or height is at its
/// largest value.
pub fn create_new_block<B: BlockchainRepository>(
    chain: &B,
    transactions: Vec<Transaction>,
    proposer_id: String,
    shared_key: String,
    timestamp: u64,
) -> (r: Option<Block>)
    ensures
        chain@.len() == 0 ==> r is None,
        chain@.len() > 0 ==> (r is Some <==> (chain@.last().index < u32::MAX
            && chain@.last().header.height < u64::MAX)),
        r is Some ==> {
            let b = r->0;
            &&& b.index == chain@.last().index + 1
            &&& extends(chain@.last(), b)
            &&& b.timestamp == timestamp
            &&& b.transactions@ == transactions@
            &&& b.header.tx_count == transactions@.len()
            &&& b.header.proposer_id@ == proposer_id@
            &&& b.hash_is_intact()
            &&& b.signature@ == signature_of(b.hash@, shared_key@)
        },
{
    let last = match chain.get_last_block() {
        Some(b) => b,
        None => return None,
    };
    if last.index == u32::MAX || last.header.height == u64::MAX {
        return None;
    }
    Some(
        Block::new(
            last.index + 1,
            timestamp,
            proposer_id,
            last.header.height + 1,
            transactions,
            last.hash,
            shared_key,
        ),
    )
}

/// What the slot leader, or any other node, does in a slot.
#[derive(Clone, Debug)]
pub enum SlotAction {
    /// Another validator leads this slot.
    NotLeader,
    /// This node leads, but there is no head it can extend.
    CannotExtend,
    /// This node leads, but no valid transaction was pending.
    NothingToPropose,
    /// This node leads: the block was staged for its quorum and is to be
    /// sent to every peer.
    Propose(Block),
}

/// One tick of the slot loop. The leader of `slot` under the sorted roster
/// drains the mempool, keeps the valid transactions and, when any remain,
/// builds and signs the next block against the head and stages it.
pub fn run_slot<B: BlockchainRepository, M: MempoolRepository>(
    my_id: &String,
    sorted_validators: &Vec<String>,
    slot: u64,
    mempool: &mut Mempool<M>,
    chain: &B,
    tracker: &mut QuorumTracker,
    shared_key: &String,
    timestamp: u64,
) -> (r: SlotAction)
    requires
        slot >= 1,
        sorted_validators@.len() > 0,
        old(mempool).wf(),
        old(tracker).wf(),
    ensures
        final(mempool).wf(),
        final(tracker).wf(),
        ({
            let leads = my_id@ == sorted_validators@[leader_position(
                slot,
                sorted_validators@.len(),
            )]@;
            let blocked = chain@.len() == 0 || chain@.last().index == u32::MAX
                || chain@.last().header.height == u64::MAX;
            &&& (r is NotLeader) == !leads
            &&& (r is CannotExtend) == (leads && blocked)
            &&& (r is NotLeader || r is CannotExtend) ==> (final(mempool)@ == old(mempool)@ && final(tracker)@ == old(tracker)@)
            &&& (r is NothingToPropose) ==> (final(mempool)@.len() == 0 && block_eligible(
                old(mempool)@,
            ).len() == 0 && final(tracker)@ == old(tracker)@)
            &&& (r is NothingToPropose) == (leads && !blocked && block_eligible(old(mempool)@).len()
                == 0)
        }),
        r is Propose ==> {
            let b = r->Propose_0;
            &&& my_id@ == sorted_validators@[leader_position(slot, sorted_validators@.len())]@
            &&& final(mempool)@.len() == 0
            &&& b.transactions@ == block_eligible(old(mempool)@)
            &&& b.transactions@.len() > 0
            &&& b.header.tx_count == b.transactions@.len()
            &&& b.index == chain@.last().index + 1
            &&& extends(chain@.last(), b)
            &&& b.timestamp == timestamp
            &&& b.header.proposer_id@ == my_id@
            &&& b.hash_is_intact()
            &&& b.signature@ == signature_of(b.hash@, shared_key@)
            &&& final(tracker)@.pending.contains_key(b.hash@)
            &&& final(tracker)@.pending[b.hash@].same_as(&b)
            &&& final(tracker)@.pending == old(tracker)@.pending.insert(
                b.hash@,
                final(tracker)@.pending[b.hash@],
            )
            &&& final(tracker)@.votes == old(tracker)@.votes
        },
{
    let leader = leader_for_slot(sorted_validators, slot);
    if *my_id != *leader {
        return SlotAction::NotLeader;
    }
    match chain.get_last_block() {
        None => return SlotAction::CannotExtend,
        Some(last) => {
            if last.index == u32::MAX || last.header.height == u64::MAX {
                return SlotAction::CannotExtend;
            }
        },
    }
    let drained = mempool.drain_transactions();
    let valid = filter_valid(drained);
    if valid.len() == 0 {
        return SlotAction::NothingToPropose;
    }
    match create_new_block(chain, valid, my_id.clone(), shared_key.clone(), timestamp) {
        Some(block) => {
            let copy = block.duplicate();
            tracker.stage_block(block);
            SlotAction::Propose(copy)
        },
        None => SlotAction::CannotExtend,
    }
}

} // verus!
