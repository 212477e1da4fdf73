//! Fork recovery: adopting the best chain the peers hold.
use vstd::prelude::*;

use crate::block::Block;
use crate::chain::{chain_verifies, BlockchainRepository};
use crate::ledger::{replay_chain, UserStateRepository};
use crate::transaction::Address;

verus! {

/// The peer chain a sync adopts: among those that verify under the key, the
/// first of the longest, provided it is longer than the local chain.
pub open spec fn best_chain(chains: Seq<Vec<Block>>, local_len: nat, key: Seq<char>) -> Option<int>
    decreases chains.len(),
{
    if chains.len() == 0 {
        None
    } else {
        let before = best_chain(chains.drop_last(), local_len, key);
        let c = chains.last()@;
        let bar = match before {
            Some(i) => chains[i]@.len(),
            None => local_len,
        };
        if chain_verifies(c, key) && c.len() > bar {
            Some(chains.len() - 1)
        } else {
            before
        }
    }
}

proof fn lemma_best_chain_in_range(chains: Seq<Vec<Block>>, local_len: nat, key: Seq<char>)
    ensures
        best_chain(chains, local_len, key) is Some ==> 0 <= best_chain(chains, local_len, key)->0
            < chains.len(),
    decreases chains.len(),
{
    if chains.len() > 0 {
        lemma_best_chain_in_range(chains.drop_last(), local_len, key);
    }
}

/// Fork recovery: adopts the best peer chain, if any, replacing the local
/// chain wholesale and rebuilding the ledger by replaying it (transfers from
/// `mint` create funds). Returns whether a chain was adopted; otherwise
/// nothing changes.
pub fn sync_chain<B: BlockchainRepository, U: UserStateRepository>(
    chain: &mut B,
    ledger: &mut U,
    peer_chains: Vec<Vec<Block>>,
    shared_key: &str,
    mint: Address,
) -> (r: bool)
    ensures
        ({
            let best = best_chain(peer_chains@, old(chain)@.len(), shared_key@);
            &&& r == best is Some
            &&& r ==> final(chain)@ == peer_chains@[best->0]@ && final(ledger)@ == replay_chain(
                peer_chains@[best->0]@,
                mint,
            )
            &&& !r ==> final(chain)@ == old(chain)@ && final(ledger)@ == old(ledger)@
        }),
{
    let local_len = chain.len();
    let mut best: Option<usize> = None;
    let mut bar: usize = local_len;
    let mut i: usize = 0;
    assert(peer_chains@.subrange(0, 0) =~= Seq::<Vec<Block>>::empty());
    while i < peer_chains.len()
        invariant
            0 <= i <= peer_chains@.len(),
            local_len == chain@.len(),
            best is Some ==> best->0 < i,
            ({
                let b = best_chain(peer_chains@.subrange(0, i as int), local_len as nat, shared_key@);
                &&& best is Some <==> b is Some
                &&& best is Some ==> best->0 == b->0 && bar == peer_chains@[b->0]@.len()
                &&& best is None ==> bar == local_len
            }),
        decreases peer_chains@.len() - i,
    {
        let ghost pre = peer_chains@.subrange(0, i as int);
        proof {
            lemma_best_chain_in_range(pre, local_len as nat, shared_key@);
            assert(peer_chains@.subrange(0, i as int + 1).drop_last() =~= pre);
            let b = best_chain(pre, local_len as nat, shared_key@);
            if b is Some {
                assert(pre[b->0] == peer_chains@[b->0]);
            }
        }
        let candidate = &peer_chains[i];
        if candidate.len() > bar && crate::chain::verify_blocks(candidate, shared_key) {
            best = Some(i);
            bar = candidate.len();
        }
        i = i + 1;
    }
    assert(peer_chains@.subrange(0, peer_chains@.len() as int) =~= peer_chains@);
    match best {
        None => false,
        Some(k) => {
            let mut peer_chains = peer_chains;
            let adopted = peer_chains.remove(k);
            ledger.rebuild_from_blocks(&adopted, mint);
            chain.replace_chain(adopted);
            true
        },
    }
}

} // verus!
