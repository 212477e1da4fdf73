//! Receiving a block: the gates it must pass before the local chain and
//! ledger take it.
use vstd::prelude::*;

use crate::block::Block;
use crate::chain::{extends, BlockchainRepository};
use crate::ledger::{apply_all, UserStateRepository};
use crate::transaction::Address;

verus! {

/// The result of offering a received block to the local node.
#[derive(Clone, Copy, Debug, PartialEq, Eq, Structural)]
pub enum AcceptOutcome {
    /// Checked, applied to the ledger and appended: acknowledge it.
    Accepted,
    /// The stored hash is not the hash of the contents.
    InvalidHash,
    /// The signature is not the shared key's tag over the hash.
    InvalidSignature,
    /// Higher than the local head but not its successor (or there is no
    /// local chain yet): the local chain should be synchronised.
    ForkDetected,
    /// From a chain no longer than the local one.
    Stale,
    /// Its successor, but one of its transfers cannot be applied.
    InvalidTransactions,
}

/// What the local node does with a received block, gate by gate: hash,
/// signature, linkage, then the transfers as one batch.
pub open spec fn acceptance(
    chain: Seq<Block>,
    ledger: Map<Address, i64>,
    block: Block,
    key: Seq<char>,
) -> AcceptOutcome {
    if !block.hash_is_intact() {
        AcceptOutcome::InvalidHash
    } else if !block.signature_is_valid(key) {
        AcceptOutcome::InvalidSignature
    } else if chain.len() == 0 {
        AcceptOutcome::ForkDetected
    } else if extends(chain.last(), block) {
        if apply_all(ledger, block.transactions@) is Some {
            AcceptOutcome::Accepted
        } else {
            AcceptOutcome::InvalidTransactions
        }
    } else if block.header.height > chain.last().header.height {
        AcceptOutcome::ForkDetected
    } else {
        AcceptOutcome::Stale
    }
}

/// Offers a received block to the local chain and ledger. Only an accepted
/// block changes anything: its transfers are applied all together and it is
/// appended.
pub fn accept_block<B: BlockchainRepository, U: UserStateRepository>(
    block: Block,
    shared_key: &str,
    chain: &mut B,
    ledger: &mut U,
) -> (r: AcceptOutcome)
    ensures
        r == acceptance(old(chain)@, old(ledger)@, block, shared_key@),
        r == AcceptOutcome::Accepted ==> final(chain)@ == old(chain)@.push(block) && final(ledger)@
            == apply_all(old(ledger)@, block.transactions@)->0,
        r != AcceptOutcome::Accepted ==> final(chain)@ == old(chain)@ && final(ledger)@ == old(ledger)@,
{
    let expected = block.calculate_hash();
    if block.hash != expected {
        return AcceptOutcome::InvalidHash;
    }
    if !block.verify_signature(shared_key) {
        return AcceptOutcome::InvalidSignature;
    }
    let last = match chain.get_last_block() {
        Some(b) => b,
        None => return AcceptOutcome::ForkDetected,
    };
    if block.header.parent_hash == last.hash && last.header.height < u64::MAX
        && block.header.height == last.header.height + 1 {
        if !ledger.apply_block_transactions(&block.transactions) {
            return AcceptOutcome::InvalidTransactions;
        }
        chain.add_block(block);
        AcceptOutcome::Accepted
    } else if block.header.height > last.header.height {
        AcceptOutcome::ForkDetected
    } else {
        AcceptOutcome::Stale
    }
}

} // verus!
