//! Block headers and blocks: the hash over their contents and the keyed
//! signature over that hash.
use vstd::prelude::*;
use vstd::utf8::encode_utf8;

use crate::codec::{decimal, header_json, push_decimal, push_header_json, push_txs_text, txs_text};
use crate::crypto::{
    hex_decode, hex_decoded, hex_encode, hex_text, hmac_sha256, hmac_sha256_of, hmac_sha256_verify,
    is_hex_text, sha256_digest, sha256_of,
};
use crate::transaction::Transaction;

verus! {

#[derive(Clone, Debug)]
pub struct BlockHeader {
    pub height: u64,
    pub parent_hash: String,
    pub proposer_id: String,
    pub tx_count: usize,
}

#[derive(Clone, Debug)]
pub struct Block {
    pub index: u32,
    pub header: BlockHeader,
    pub timestamp: u64,
    pub transactions: Vec<Transaction>,
    pub hash: String,
    pub signature: String,
}

/// The bytes a block's hash is computed over: index, timestamp, the
/// transactions' texts and the header's JSON, with nothing between them.
pub open spec fn hash_input(
    index: u32,
    timestamp: u64,
    txs: Seq<Transaction>,
    header: BlockHeader,
) -> Seq<u8> {
    decimal(index as nat) + decimal(timestamp as nat) + txs_text(txs) + header_json(
        header.height,
        header.parent_hash@,
        header.proposer_id@,
        header.tx_count,
    )
}

/// The hex SHA-256 of a block's contents.
pub open spec fn content_hash(
    index: u32,
    timestamp: u64,
    txs: Seq<Transaction>,
    header: BlockHeader,
) -> Seq<char> {
    hex_text(sha256_of(hash_input(index, timestamp, txs, header)))
}

/// The hex HMAC-SHA256 of a hash text under a key.
pub open spec fn signature_of(hash: Seq<char>, key: Seq<char>) -> Seq<char> {
    hex_text(hmac_sha256_of(encode_utf8(key), encode_utf8(hash)))
}

/// A signature text is hex for exactly the key's HMAC of the hash text.
pub open spec fn signature_matches(signature: Seq<char>, hash: Seq<char>, key: Seq<char>) -> bool {
    &&& is_hex_text(encode_utf8(signature))
    &&& hex_decoded(encode_utf8(signature)) == hmac_sha256_of(encode_utf8(key), encode_utf8(hash))
}

/// A block signed under one key carries a signature that is valid under it.
pub proof fn lemma_signed_block_verifies(b: Block, key: Seq<char>)
    requires
        b.hash_is_intact(),
        b.signature@ == signature_of(b.hash@, key),
    ensures
        b.spec_verify(key),
{
    crate::crypto::lemma_hex_round_trip(hmac_sha256_of(encode_utf8(key), encode_utf8(b.hash@)));
}

/// Tampering is caught unless SHA-256 collides: if a block verifies and a
/// copy with altered contents (a header field, say) but the same stored hash
/// and signature also verifies, then SHA-256 gives the same digest for the
/// two hash inputs.
pub proof fn lemma_tampered_copy_needs_digest_collision(b: Block, t: Block, key: Seq<char>)
    requires
        b.spec_verify(key),
        t.spec_verify(key),
        t.hash == b.hash,
    ensures
        sha256_of(hash_input(t.index, t.timestamp, t.transactions@, t.header)) == sha256_of(
            hash_input(b.index, b.timestamp, b.transactions@, b.header),
        ),
{
    crate::crypto::lemma_hex_text_injective(
        sha256_of(hash_input(t.index, t.timestamp, t.transactions@, t.header)),
        sha256_of(hash_input(b.index, b.timestamp, b.transactions@, b.header)),
    );
}

/// A block's hash input fixes its header's height and transaction count:
/// blocks that differ in one of these, and in nothing else the input
/// covers, have different hash inputs.
pub proof fn lemma_header_numbers_change_hash_input(b: Block, t: Block)
    requires
        t.index == b.index,
        t.timestamp == b.timestamp,
        t.transactions@ == b.transactions@,
        t.header.parent_hash@ == b.header.parent_hash@,
        t.header.proposer_id@ == b.header.proposer_id@,
        t.header.height != b.header.height || t.header.tx_count != b.header.tx_count,
    ensures
        hash_input(t.index, t.timestamp, t.transactions@, t.header) != hash_input(
            b.index,
            b.timestamp,
            b.transactions@,
            b.header,
        ),
{
    let pre = decimal(b.index as nat) + decimal(b.timestamp as nat) + txs_text(b.transactions@);
    let ht = header_json(
        t.header.height,
        t.header.parent_hash@,
        t.header.proposer_id@,
        t.header.tx_count,
    );
    let hb = header_json(
        b.header.height,
        b.header.parent_hash@,
        b.header.proposer_id@,
        b.header.tx_count,
    );
    if pre + ht == pre + hb {
        crate::codec::lemma_cancel_prefix(pre, ht, hb);
        crate::codec::lemma_header_json_numbers(
            t.header.height,
            b.header.height,
            b.header.parent_hash@,
            b.header.proposer_id@,
            t.header.tx_count,
            b.header.tx_count,
        );
    }
}

/// Tampering with a header's height or transaction count is caught unless
/// SHA-256 collides: if such a copy (same stored hash and signature) still
/// verifies, SHA-256 maps two distinct inputs to one digest.
pub proof fn lemma_header_number_tamper_needs_collision(b: Block, t: Block, key: Seq<char>)
    requires
        b.spec_verify(key),
        t.spec_verify(key),
        t.hash == b.hash,
        t.index == b.index,
        t.timestamp == b.timestamp,
        t.transactions@ == b.transactions@,
        t.header.parent_hash@ == b.header.parent_hash@,
        t.header.proposer_id@ == b.header.proposer_id@,
        t.header.height != b.header.height || t.header.tx_count != b.header.tx_count,
    ensures
        hash_input(t.index, t.timestamp, t.transactions@, t.header) != hash_input(
            b.index,
            b.timestamp,
            b.transactions@,
            b.header,
        ),
        sha256_of(hash_input(t.index, t.timestamp, t.transactions@, t.header)) == sha256_of(
            hash_input(b.index, b.timestamp, b.transactions@, b.header),
        ),
{
    lemma_header_numbers_change_hash_input(b, t);
    lemma_tampered_copy_needs_digest_collision(b, t, key);
}

/// A signature is bound to its key unless HMAC collides: if one block's
/// signature is valid under two keys, HMAC-SHA256 gives both keys the same
/// tag over that block's hash.
pub proof fn lemma_other_key_needs_tag_collision(b: Block, key: Seq<char>, other: Seq<char>)
    requires
        b.signature_is_valid(key),
        b.signature_is_valid(other),
    ensures
        hmac_sha256_of(encode_utf8(key), encode_utf8(b.hash@)) == hmac_sha256_of(
            encode_utf8(other),
            encode_utf8(b.hash@),
        ),
{
}

/// A copy of a transaction list.
pub fn copy_transactions(v: &Vec<Transaction>) -> (r: Vec<Transaction>)
    ensures
        r@ == v@,
{
    let mut r: Vec<Transaction> = Vec::new();
    let mut i: usize = 0;
    while i < v.len()
        invariant
            0 <= i <= v@.len(),
            r@ == v@.subrange(0, i as int),
        decreases v@.len() - i,
    {
        r.push(v[i]);
        i = i + 1;
        assert(r@ =~= v@.subrange(0, i as int));
    }
    assert(v@.subrange(0, v@.len() as int) =~= v@);
    r
}

impl BlockHeader {
    /// A copy of the header, equal to it.
    pub fn duplicate(&self) -> (r: BlockHeader)
        ensures
            r == *self,
    {
        BlockHeader {
            height: self.height,
            parent_hash: self.parent_hash.clone(),
            proposer_id: self.proposer_id.clone(),
            tx_count: self.tx_count,
        }
    }
}

impl Block {
    /// The hash this block's contents call for.
    pub open spec fn spec_content_hash(&self) -> Seq<char> {
        content_hash(self.index, self.timestamp, self.transactions@, self.header)
    }

    /// The stored hash is the hash of the contents.
    pub open spec fn hash_is_intact(&self) -> bool {
        self.hash@ == self.spec_content_hash()
    }

    /// The stored signature is the key's tag over the stored hash.
    pub open spec fn signature_is_valid(&self, key: Seq<char>) -> bool {
        signature_matches(self.signature@, self.hash@, key)
    }

    /// Both integrity checks pass.
    pub open spec fn spec_verify(&self, key: Seq<char>) -> bool {
        self.hash_is_intact() && self.signature_is_valid(key)
    }

    /// The same block: equal fields, and the same transaction sequence.
    pub open spec fn same_as(&self, o: &Block) -> bool {
        &&& self.index == o.index
        &&& self.header == o.header
        &&& self.timestamp == o.timestamp
        &&& self.transactions@ == o.transactions@
        &&& self.hash == o.hash
        &&& self.signature == o.signature
    }

    /// A copy of the block.
    pub fn duplicate(&self) -> (r: Block)
        ensures
            r.same_as(self),
    {
        let transactions = copy_transactions(&self.transactions);
        Block {
            index: self.index,
            header: self.header.duplicate(),
            timestamp: self.timestamp,
            transactions,
            hash: self.hash.clone(),
            signature: self.signature.clone(),
        }
    }

    /// Builds and signs a block over the given transactions.
    pub fn new(
        index: u32,
        timestamp: u64,
        proposer_id: String,
        height: u64,
        transactions: Vec<Transaction>,
        previous_hash: String,
        shared_key: String,
    ) -> (r: Block)
        ensures
            r.index == index,
            r.timestamp == timestamp,
            r.transactions@ == transactions@,
            r.header.height == height,
            r.header.parent_hash@ == previous_hash@,
            r.header.proposer_id@ == proposer_id@,
            r.header.tx_count == transactions@.len(),
            r.hash_is_intact(),
            r.signature@ == signature_of(r.hash@, shared_key@),
            r.spec_verify(shared_key@),
    {
        let header = BlockHeader {
            height,
            parent_hash: previous_hash,
            proposer_id,
            tx_count: transactions.len(),
        };
        let mut block = Block {
            index,
            header,
            timestamp,
            transactions,
            hash: String::new(),
            signature: String::new(),
        };
        block.hash = block.calculate_hash();
        let tag = hmac_sha256(shared_key.as_str().as_bytes(), block.hash.as_str().as_bytes());
        block.signature = hex_encode(tag.as_slice());
        proof {
            crate::crypto::lemma_hex_round_trip(tag@);
        }
        block
    }

    /// Recomputes the hash of the block's contents.
    pub fn calculate_hash(&self) -> (r: String)
        ensures
            r@ == self.spec_content_hash(),
    {
        let mut input: Vec<u8> = Vec::new();
        push_decimal(&mut input, self.index as u64);
        push_decimal(&mut input, self.timestamp);
        push_txs_text(&mut input, &self.transactions);
        push_header_json(
            &mut input,
            self.header.height,
            self.header.parent_hash.as_str(),
            self.header.proposer_id.as_str(),
            self.header.tx_count,
        );
        assert(input@ =~= hash_input(self.index, self.timestamp, self.transactions@, self.header));
        let digest = sha256_digest(input.as_slice());
        hex_encode(digest.as_slice())
    }

    /// Checks the stored signature against the key's tag over the stored hash.
    pub fn verify_signature(&self, shared_key: &str) -> (r: bool)
        ensures
            r == self.signature_is_valid(shared_key@),
    {
        match hex_decode(self.signature.as_str()) {
            Ok(received) => hmac_sha256_verify(
                shared_key.as_bytes(),
                self.hash.as_str().as_bytes(),
                received.as_slice(),
            ),
            Err(_) => false,
        }
    }

    /// Both checks a block must pass before it is applied: intact hash, valid signature.
    pub fn verify(&self, shared_key: &str) -> (r: bool)
        ensures
            r == self.spec_verify(shared_key@),
    {
        let expected = self.calculate_hash();
        if self.hash != expected {
            return false;
        }
        self.verify_signature(shared_key)
    }
}

} // verus!
