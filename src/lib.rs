//! A small proof-of-stake chain: transactions, a mempool, signed blocks,
//! an account ledger replayed from the chain, slot leaders and vote quorums.

pub mod transaction;
pub mod crypto;
pub mod codec;
pub mod block;
pub mod ledger;
pub mod mempool;
pub mod chain;
pub mod node;
pub mod leader;
pub mod vote;
pub mod quorum;
pub mod acceptance;
pub mod slot;
pub mod accounts;
pub mod sync;
