use pos_chain::block::Block;
use pos_chain::chain::{
    add_new_block, create_genesis_block, BlockchainRepository, InMemoryBlockchainRepository,
};
use pos_chain::ledger::{InMemoryUserStateRepository, UserStateRepository};
use pos_chain::leader::{bytes_less, leader_for_slot, leader_index, quorum_threshold, sort_validators};
use pos_chain::mempool::{InMemoryMempoolRepository, Mempool};
use pos_chain::node::Node;
use pos_chain::acceptance::{accept_block, AcceptOutcome};
use pos_chain::slot::{create_new_block, run_slot, SlotAction};
use pos_chain::sync::sync_chain;
use pos_chain::quorum::{QuorumTracker, VoteOutcome};
use pos_chain::transaction::Transaction;
use pos_chain::vote::Vote;

const KEY: &str = "validator-key";
const MINT: u128 = 0x6e6e;
const FAUCET: u128 = 0xfa;
const ALICE: u128 = 0xa11ce;

fn tx(id: u128, from: u128, to: u128, amount: i64) -> Transaction {
    Transaction { id, from, to, amount, timestamp: 0 }
}

fn ids(v: &[&str]) -> Vec<String> {
    v.iter().map(|s| s.to_string()).collect()
}

fn genesis_chain() -> (InMemoryBlockchainRepository, InMemoryUserStateRepository) {
    let mut chain = InMemoryBlockchainRepository::new();
    create_genesis_block(&mut chain, KEY.to_string(), MINT, FAUCET);
    let mut ledger = InMemoryUserStateRepository::new();
    ledger.rebuild_from_blocks(&chain.get_all_blocks(), MINT);
    (chain, ledger)
}

#[test]
fn node_new_keeps_fields() {
    let n = Node::new("v1".into(), 3000, ids(&["a:1"]), ids(&["v1", "v2"]));
    assert_eq!(n.id, "v1");
    assert_eq!(n.port, 3000);
    assert_eq!(n.peers, ids(&["a:1"]));
    assert_eq!(n.validator_ids, ids(&["v1", "v2"]));
}

#[test]
fn byte_order_comparison() {
    assert!(bytes_less(b"v1", b"v2"));
    assert!(bytes_less(b"v", b"v1"));
    assert!(!bytes_less(b"v1", b"v1"));
    assert!(!bytes_less(b"w", b"v9"));
    assert!(bytes_less(b"B", b"a"));
}

#[test]
fn roster_sorts_like_str() {
    let sorted = sort_validators(ids(&["v3", "v1", "b", "v2", "v10", "A"]));
    let mut expected = ids(&["v3", "v1", "b", "v2", "v10", "A"]);
    expected.sort();
    assert_eq!(sorted, expected);
}

#[test]
fn leader_rotation_over_three_validators() {
    let sorted = sort_validators(ids(&["v2", "v3", "v1"]));
    assert_eq!(sorted, ids(&["v1", "v2", "v3"]));
    assert_eq!(leader_for_slot(&sorted, 1), "v1");
    assert_eq!(leader_for_slot(&sorted, 2), "v2");
    assert_eq!(leader_for_slot(&sorted, 3), "v3");
    assert_eq!(leader_for_slot(&sorted, 4), "v1");
    assert_eq!(leader_index(4, 3), 0);
    assert_eq!(leader_index(u64::MAX, 7), ((u64::MAX - 1) % 7) as usize);
}

#[test]
fn quorum_of_five_is_three() {
    assert_eq!(quorum_threshold(5), 3);
    assert_eq!(quorum_threshold(4), 3);
    assert_eq!(quorum_threshold(1), 1);
    assert_eq!(quorum_threshold(0), 1);
}

#[test]
fn vote_decision_text() {
    assert!(Vote::ack("h".into(), "v1".into()).is_ack());
    let nack = Vote { block_hash: "h".into(), voter_id: "v1".into(), decision: "NACK".into() };
    assert!(!nack.is_ack());
    let lower = Vote { block_hash: "h".into(), voter_id: "v1".into(), decision: "ack".into() };
    assert!(!lower.is_ack());
}

fn staged_setup() -> (InMemoryBlockchainRepository, QuorumTracker, Block) {
    let (chain, _) = genesis_chain();
    let block = create_new_block(&chain, vec![tx(1, FAUCET, ALICE, 5)], "v1".into(), KEY.into(), 9)
        .unwrap();
    let mut tracker = QuorumTracker::new();
    tracker.stage_block(block.clone());
    (chain, tracker, block)
}

#[test]
fn quorum_commits_exactly_once() {
    let (mut chain, mut tracker, block) = staged_setup();
    let h = block.hash.clone();
    assert!(tracker.is_staged(&h));
    assert_eq!(tracker.register_vote(&Vote::ack(h.clone(), "v1".into()), 5, &mut chain), VoteOutcome::Counted(1));
    assert_eq!(tracker.register_vote(&Vote::ack(h.clone(), "v1".into()), 5, &mut chain), VoteOutcome::Counted(1));
    assert_eq!(tracker.register_vote(&Vote::ack(h.clone(), "v2".into()), 5, &mut chain), VoteOutcome::Counted(2));
    assert_eq!(tracker.vote_count(&h), 2);
    assert_eq!(chain.len(), 1);
    assert_eq!(tracker.register_vote(&Vote::ack(h.clone(), "v3".into()), 5, &mut chain), VoteOutcome::Committed);
    assert_eq!(chain.len(), 2);
    assert_eq!(chain.get_last_block().unwrap().hash, h);
    assert!(!tracker.is_staged(&h));
    assert_eq!(tracker.vote_count(&h), 0);
    assert_eq!(tracker.register_vote(&Vote::ack(h.clone(), "v4".into()), 5, &mut chain), VoteOutcome::Counted(1));
    assert_eq!(chain.len(), 2);
}

#[test]
fn repeated_quorum_trigger_does_not_duplicate() {
    let (mut chain, mut tracker, block) = staged_setup();
    let h = block.hash.clone();
    assert_eq!(tracker.register_vote(&Vote::ack(h.clone(), "v1".into()), 1, &mut chain), VoteOutcome::Committed);
    assert_eq!(tracker.register_vote(&Vote::ack(h.clone(), "v1".into()), 1, &mut chain), VoteOutcome::Counted(1));
    assert_eq!(tracker.register_vote(&Vote::ack(h.clone(), "v2".into()), 1, &mut chain), VoteOutcome::Counted(2));
    assert_eq!(chain.len(), 2);
}

#[test]
fn nack_is_ignored() {
    let (mut chain, mut tracker, block) = staged_setup();
    let nack = Vote { block_hash: block.hash.clone(), voter_id: "v1".into(), decision: "NACK".into() };
    assert_eq!(tracker.register_vote(&nack, 1, &mut chain), VoteOutcome::Ignored);
    assert_eq!(tracker.vote_count(&block.hash), 0);
    assert_eq!(chain.len(), 1);
}

#[test]
fn quorum_without_staged_block_commits_nothing() {
    let (mut chain, _) = genesis_chain();
    let mut tracker = QuorumTracker::new();
    assert_eq!(tracker.register_vote(&Vote::ack("x".into(), "v1".into()), 1, &mut chain), VoteOutcome::Counted(1));
    assert_eq!(chain.len(), 1);
}

#[test]
fn accept_contiguous_block() {
    let (mut chain, mut ledger) = genesis_chain();
    let b = create_new_block(&chain, vec![tx(1, FAUCET, ALICE, 40)], "v1".into(), KEY.into(), 5).unwrap();
    assert_eq!(accept_block(b.clone(), KEY, &mut chain, &mut ledger), AcceptOutcome::Accepted);
    assert_eq!(chain.len(), 2);
    assert_eq!(ledger.get_balance(ALICE), 40);
    assert_eq!(accept_block(b, KEY, &mut chain, &mut ledger), AcceptOutcome::Stale);
    assert_eq!(chain.len(), 2);
}

#[test]
fn accept_rejects_bad_hash_and_signature() {
    let (mut chain, mut ledger) = genesis_chain();
    let b = create_new_block(&chain, vec![tx(1, FAUCET, ALICE, 40)], "v1".into(), KEY.into(), 5).unwrap();
    let mut bad_hash = b.clone();
    bad_hash.timestamp += 1;
    assert_eq!(accept_block(bad_hash, KEY, &mut chain, &mut ledger), AcceptOutcome::InvalidHash);
    assert_eq!(accept_block(b, "wrong", &mut chain, &mut ledger), AcceptOutcome::InvalidSignature);
    assert_eq!(chain.len(), 1);
    assert_eq!(ledger.get_balance(ALICE), 0);
}

#[test]
fn accept_rejects_whole_block_on_bad_transfer() {
    let (mut chain, mut ledger) = genesis_chain();
    let txs = vec![tx(1, FAUCET, ALICE, 40), tx(2, ALICE, FAUCET, 41)];
    let b = create_new_block(&chain, txs, "v1".into(), KEY.into(), 5).unwrap();
    assert_eq!(accept_block(b, KEY, &mut chain, &mut ledger), AcceptOutcome::InvalidTransactions);
    assert_eq!(chain.len(), 1);
    assert_eq!(ledger.get_balance(ALICE), 0);
    assert_eq!(ledger.get_balance(FAUCET), 1000000);
}

#[test]
fn accept_detects_fork() {
    let (mut chain, mut ledger) = genesis_chain();
    let mut longer = InMemoryBlockchainRepository::new();
    create_genesis_block(&mut longer, KEY.into(), MINT, FAUCET);
    add_new_block(&mut longer, vec![], "v1".into(), KEY.into(), 1).unwrap();
    let ahead = add_new_block(&mut longer, vec![], "v2".into(), KEY.into(), 2).unwrap();
    assert_eq!(accept_block(ahead.clone(), KEY, &mut chain, &mut ledger), AcceptOutcome::ForkDetected);
    let mut empty = InMemoryBlockchainRepository::new();
    assert_eq!(accept_block(ahead, KEY, &mut empty, &mut ledger), AcceptOutcome::ForkDetected);
    assert_eq!(chain.len(), 1);
}

#[test]
fn slot_leader_proposes_valid_transactions() {
    let (chain, _) = genesis_chain();
    let sorted = sort_validators(ids(&["v2", "v1", "v3"]));
    let mut pool = Mempool::new(InMemoryMempoolRepository::new());
    assert!(pool.add_transaction(tx(1, FAUCET, ALICE, 10)));
    assert!(!pool.add_transaction(tx(2, FAUCET, ALICE, -10)));
    let mut tracker = QuorumTracker::new();
    let me = "v2".to_string();
    let key = KEY.to_string();
    assert!(matches!(run_slot(&me, &sorted, 1, &mut pool, &chain, &mut tracker, &key, 50), SlotAction::NotLeader));
    assert_eq!(pool.get_all_transactions().len(), 1);
    match run_slot(&me, &sorted, 2, &mut pool, &chain, &mut tracker, &key, 50) {
        SlotAction::Propose(b) => {
            assert_eq!(b.transactions.len(), 1);
            assert_eq!(b.header.tx_count, 1);
            assert_eq!(b.header.height, 1);
            assert_eq!(b.header.proposer_id, "v2");
            assert!(b.verify(KEY));
            assert!(tracker.is_staged(&b.hash));
        }
        _ => panic!("the leader should propose"),
    }
    assert!(pool.get_all_transactions().is_empty());
    assert!(matches!(run_slot(&me, &sorted, 5, &mut pool, &chain, &mut tracker, &key, 51), SlotAction::NothingToPropose));
    let empty = InMemoryBlockchainRepository::new();
    assert!(matches!(run_slot(&me, &sorted, 5, &mut pool, &empty, &mut tracker, &key, 51), SlotAction::CannotExtend));
}

#[test]
fn sync_adopts_longest_valid_chain() {
    let (mut chain, mut ledger) = genesis_chain();
    let mut peer = InMemoryBlockchainRepository::new();
    create_genesis_block(&mut peer, KEY.into(), MINT, FAUCET);
    add_new_block(&mut peer, vec![tx(5, FAUCET, ALICE, 70)], "v1".into(), KEY.into(), 1).unwrap();
    let good = peer.get_all_blocks();
    let mut forged = good.clone();
    forged.push(forged[1].clone());
    let mut other = InMemoryBlockchainRepository::new();
    create_genesis_block(&mut other, KEY.into(), MINT, FAUCET);
    add_new_block(&mut other, vec![], "v3".into(), KEY.into(), 2).unwrap();
    let tie = other.get_all_blocks();
    assert!(sync_chain(&mut chain, &mut ledger, vec![vec![], forged, good.clone(), tie], KEY, MINT));
    assert_eq!(chain.len(), 2);
    assert_eq!(chain.get_last_block().unwrap().hash, good[1].hash);
    assert_eq!(ledger.get_balance(ALICE), 70);
    assert!(!sync_chain(&mut chain, &mut ledger, vec![good], KEY, MINT));
    assert_eq!(chain.len(), 2);
}
