use hmac::Mac;
use pos_chain::block::{Block, BlockHeader};
use pos_chain::chain::{
    add_new_block, create_genesis_block, validate_blocks, validate_chain, verify_blocks, BlockchainRepository,
    InMemoryBlockchainRepository,
};
use pos_chain::codec::{push_decimal, push_header_json, push_signed_decimal, push_tx_text};
use pos_chain::transaction::Transaction;
use sha2::Digest;

const KEY: &str = "validator-key";

fn tx(id: u128, from: u128, to: u128, amount: i64) -> Transaction {
    Transaction { id, from, to, amount, timestamp: 0 }
}

fn sample_block() -> Block {
    Block::new(
        3,
        1700000000,
        "v2".to_string(),
        7,
        vec![tx(1, 0x11, 0x22, 10), tx(2, 0x22, 0x33, 4)],
        "abc123".to_string(),
        KEY.to_string(),
    )
}

fn expected_hash(b: &Block) -> String {
    let txs: String = b
        .transactions
        .iter()
        .map(|t| {
            format!(
                "{}{}{}",
                uuid::Uuid::from_u128(t.from),
                uuid::Uuid::from_u128(t.to),
                t.amount as f64
            )
        })
        .collect();
    let header = format!(
        "{{\"height\":{},\"parent_hash\":{},\"proposer_id\":{},\"tx_count\":{}}}",
        b.header.height,
        serde_json::to_string(&b.header.parent_hash).unwrap(),
        serde_json::to_string(&b.header.proposer_id).unwrap(),
        b.header.tx_count
    );
    let s = format!("{}{}{}{}", b.index, b.timestamp, txs, header);
    hex::encode(sha2::Sha256::digest(s.as_bytes()))
}

fn expected_signature(hash: &str, key: &str) -> String {
    let mut mac = hmac::Hmac::<sha2::Sha256>::new_from_slice(key.as_bytes()).unwrap();
    mac.update(hash.as_bytes());
    hex::encode(mac.finalize().into_bytes())
}

#[test]
fn new_block_fields() {
    let b = sample_block();
    assert_eq!(b.index, 3);
    assert_eq!(b.timestamp, 1700000000);
    assert_eq!(b.header.height, 7);
    assert_eq!(b.header.parent_hash, "abc123");
    assert_eq!(b.header.proposer_id, "v2");
    assert_eq!(b.header.tx_count, 2);
    assert_eq!(b.hash.len(), 64);
    assert_eq!(b.signature.len(), 64);
}

#[test]
fn hash_is_sha256_of_block_text() {
    let b = sample_block();
    assert_eq!(b.hash, expected_hash(&b));
    assert_eq!(b.calculate_hash(), b.hash);
}

#[test]
fn hash_escapes_header_strings() {
    let b = Block::new(0, 5, "a\"b\\c\n".to_string(), 1, vec![], "0".to_string(), KEY.to_string());
    assert_eq!(b.hash, expected_hash(&b));
}

#[test]
fn signature_is_hmac_of_hash() {
    let b = sample_block();
    assert_eq!(b.signature, expected_signature(&b.hash, KEY));
    assert!(b.verify_signature(KEY));
    assert!(b.verify(KEY));
}

#[test]
fn uppercase_signature_still_verifies() {
    let mut b = sample_block();
    b.signature = b.signature.to_uppercase();
    assert!(b.verify_signature(KEY));
}

#[test]
fn malformed_signature_fails() {
    let mut b = sample_block();
    b.signature = "zz".to_string();
    assert!(!b.verify_signature(KEY));
    let mut c = sample_block();
    c.signature.pop();
    assert!(!c.verify_signature(KEY));
}

#[test]
fn wrong_key_fails() {
    let b = sample_block();
    assert!(!b.verify("another-key"));
    assert!(!b.verify_signature("another-key"));
}

#[test]
fn tampered_header_fails() {
    let base = sample_block();
    let mut t = base.clone();
    t.header.height += 1;
    assert!(!t.verify(KEY));
    let mut t = base.clone();
    t.header.parent_hash = "abc124".to_string();
    assert!(!t.verify(KEY));
    let mut t = base.clone();
    t.header.proposer_id = "v3".to_string();
    assert!(!t.verify(KEY));
    let mut t = base.clone();
    t.header.tx_count = 3;
    assert!(!t.verify(KEY));
    let mut t = base.clone();
    t.transactions[0].amount = 11;
    assert!(!t.verify(KEY));
    assert!(base.verify(KEY));
}

#[test]
fn decimal_text() {
    let mut out = Vec::new();
    push_decimal(&mut out, 0);
    push_decimal(&mut out, 12345);
    assert_eq!(out, b"012345".to_vec());
    let mut max = Vec::new();
    push_decimal(&mut max, u64::MAX);
    assert_eq!(max, u64::MAX.to_string().into_bytes());
    let mut neg = Vec::new();
    push_signed_decimal(&mut neg, -5);
    assert_eq!(neg, b"-5".to_vec());
    let mut min = Vec::new();
    push_signed_decimal(&mut min, i64::MIN);
    assert_eq!(min, i64::MIN.to_string().into_bytes());
}

#[test]
fn transaction_text_uses_hyphenated_uuids() {
    let mut out = Vec::new();
    push_tx_text(&mut out, &tx(9, 0x0123456789abcdef0123456789abcdef, 1, 42));
    assert_eq!(
        String::from_utf8(out).unwrap(),
        "01234567-89ab-cdef-0123-456789abcdef00000000-0000-0000-0000-00000000000142"
    );
}

#[test]
fn header_json_text() {
    let mut out = Vec::new();
    push_header_json(&mut out, 4, "p\"h", "GENESIS", 2);
    assert_eq!(
        String::from_utf8(out).unwrap(),
        "{\"height\":4,\"parent_hash\":\"p\\\"h\",\"proposer_id\":\"GENESIS\",\"tx_count\":2}"
    );
}

#[test]
fn header_duplicate_is_equal() {
    let h = BlockHeader { height: 1, parent_hash: "x".into(), proposer_id: "y".into(), tx_count: 0 };
    let d = h.duplicate();
    assert_eq!((d.height, d.parent_hash, d.proposer_id, d.tx_count), (1, "x".to_string(), "y".to_string(), 0));
}

#[test]
fn chain_built_by_appending_is_valid() {
    let mut chain = InMemoryBlockchainRepository::new();
    let g = create_genesis_block(&mut chain, KEY.to_string(), 1, 2);
    assert_eq!(g.index, 0);
    assert_eq!(g.header.height, 0);
    assert_eq!(g.header.parent_hash, "0");
    assert_eq!(g.header.proposer_id, "GENESIS");
    assert_eq!(g.header.tx_count, 1);
    assert_eq!(g.transactions.len(), 1);
    assert_eq!(g.transactions[0].amount, 1000000);
    for i in 0..4u64 {
        let txs = vec![tx(i as u128 + 10, 2, 3, 1)];
        let b = add_new_block(&mut chain, txs, "v1".to_string(), KEY.to_string(), 100 + i).unwrap();
        assert_eq!(b.header.height, i + 1);
        assert_eq!(b.header.tx_count, 1);
    }
    let blocks = chain.get_all_blocks();
    assert_eq!(blocks.len(), 5);
    for i in 1..blocks.len() {
        assert_eq!(blocks[i].header.parent_hash, blocks[i - 1].hash);
        assert_eq!(blocks[i].calculate_hash(), blocks[i].hash);
    }
    assert!(validate_chain(&chain));
    assert!(validate_blocks(&blocks));
    assert!(verify_blocks(&blocks, KEY));
    assert!(!verify_blocks(&blocks, "other"));
    let mut broken = chain.get_all_blocks();
    broken[2].header.parent_hash = "f00".to_string();
    assert!(!validate_blocks(&broken));
}

#[test]
fn empty_chain_has_no_head() {
    let mut chain = InMemoryBlockchainRepository::new();
    assert!(chain.get_last_block().is_none());
    assert!(add_new_block(&mut chain, vec![], "v1".into(), KEY.into(), 1).is_none());
    assert!(validate_chain(&chain));
}
