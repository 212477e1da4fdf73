//! The chain store: an ordered list of blocks, genesis first, grown by
//! appending and replaced wholesale when a longer chain is adopted.
use vstd::prelude::*;

use crate::block::Block;
use crate::block::signature_of;
use crate::transaction::{Address, Transaction};

verus! {

broadcast use vstd::string::group_string_axioms;

/// Every block after the first names its predecessor's hash as its parent.
pub open spec fn is_linked(blocks: Seq<Block>) -> bool {
    forall|i: int|
        0 < i < blocks.len() ==> (#[trigger] blocks[i]).header.parent_hash@ == blocks[i - 1].hash@
}

/// Linked, and every stored hash is the hash of its block's contents.
pub open spec fn chain_valid(blocks: Seq<Block>) -> bool {
    &&& is_linked(blocks)
    &&& forall|i: int| 0 <= i < blocks.len() ==> (#[trigger] blocks[i]).hash_is_intact()
}

/// Valid, and every block carries a valid signature under the key.
pub open spec fn chain_verifies(blocks: Seq<Block>, key: Seq<char>) -> bool {
    &&& is_linked(blocks)
    &&& forall|i: int| 0 <= i < blocks.len() ==> (#[trigger] blocks[i]).spec_verify(key)
}

/// `b` may follow `last` directly: it names `last`'s hash and is one higher.
pub open spec fn extends(last: Block, b: Block) -> bool {
    b.header.parent_hash@ == last.hash@ && b.header.height == last.header.height + 1
}

/// Two block lists hold the same blocks, one for one.
pub open spec fn same_blocks(a: Seq<Block>, b: Seq<Block>) -> bool {
    a.len() == b.len() && forall|i: int| 0 <= i < a.len() ==> (#[trigger] a[i]).same_as(&b[i])
}

/// A chain grown by appending a block that names the head's hash and
/// whose stored hash is intact is still valid: every parent link holds and
/// every stored hash equals its recomputation.
pub proof fn lemma_append_keeps_chain_valid(blocks: Seq<Block>, b: Block)
    requires
        chain_valid(blocks),
        blocks.len() > 0,
        b.header.parent_hash@ == blocks.last().hash@,
        b.hash_is_intact(),
    ensures
        chain_valid(blocks.push(b)),
{
    let n = blocks.push(b);
    assert forall|i: int| 0 < i < n.len() implies (#[trigger] n[i]).header.parent_hash@ == n[i
        - 1].hash@ by {
        if i < blocks.len() {
            assert(n[i] == blocks[i]);
        }
    }
    assert forall|i: int| 0 <= i < n.len() implies (#[trigger] n[i]).hash_is_intact() by {
        if i < blocks.len() {
            assert(n[i] == blocks[i]);
        }
    }
}

/// Validity depends on the blocks' contents alone.
proof fn lemma_same_blocks_chain_valid(a: Seq<Block>, b: Seq<Block>)
    requires
        same_blocks(a, b),
    ensures
        chain_valid(a) == chain_valid(b),
{
    assert forall|i: int| 0 <= i < a.len() implies (#[trigger] a[i]).hash_is_intact() == b[i].hash_is_intact()
        && a[i].hash@ == b[i].hash@ && a[i].header == b[i].header by {
        assert(a[i].same_as(&b[i]));
    }
    if chain_valid(a) {
        assert forall|i: int| 0 < i < b.len() implies (#[trigger] b[i]).header.parent_hash@ == b[i
            - 1].hash@ by {
            assert(a[i].header.parent_hash@ == a[i - 1].hash@);
            assert(a[i - 1].hash@ == b[i - 1].hash@);
        }
        assert forall|i: int| 0 <= i < b.len() implies (#[trigger] b[i]).hash_is_intact() by {
            assert(a[i].hash_is_intact());
        }
    }
    if chain_valid(b) {
        assert forall|i: int| 0 < i < a.len() implies (#[trigger] a[i]).header.parent_hash@ == a[i
            - 1].hash@ by {
            assert(b[i].header.parent_hash@ == b[i - 1].hash@);
            assert(a[i - 1].hash@ == b[i - 1].hash@);
        }
        assert forall|i: int| 0 <= i < a.len() implies (#[trigger] a[i]).hash_is_intact() by {
            assert(b[i].hash_is_intact());
        }
    }
}

/// Copies of a list of blocks.
pub fn copy_blocks(v: &Vec<Block>) -> (r: Vec<Block>)
    ensures
        same_blocks(r@, v@),
{
    let mut r: Vec<Block> = Vec::new();
    let mut i: usize = 0;
    while i < v.len()
        invariant
            0 <= i <= v@.len(),
            r@.len() == i,
            forall|k: int| 0 <= k < i ==> (#[trigger] r@[k]).same_as(&v@[k]),
        decreases v@.len() - i,
    {
        r.push(v[i].duplicate());
        i = i + 1;
    }
    r
}

/// A chain store: where the blocks of the chain are kept. Its view is the
/// block sequence, genesis first.
pub trait BlockchainRepository: View<V = Seq<Block>> {
    /// Copies of all blocks, genesis first.
    fn get_all_blocks(&self) -> (r: Vec<Block>)
        ensures
            same_blocks(r@, self@),
    ;

    /// The number of blocks.
    fn len(&self) -> (r: usize)
        ensures
            r == self@.len(),
    ;

    /// Appends a block at the head.
    fn add_block(&mut self, block: Block)
        ensures
            final(self)@ == old(self)@.push(block),
    ;

    /// A copy of the head block, if there is one.
    fn get_last_block(&self) -> (r: Option<Block>)
        ensures
            self@.len() == 0 ==> r is None,
            self@.len() > 0 ==> r is Some && r->0.same_as(&self@.last()),
    ;

    /// Replaces every block with those of another chain.
    fn replace_chain(&mut self, new_chain: Vec<Block>)
        ensures
            final(self)@ == new_chain@,
    ;
}

/// The blocks of the chain, held in memory.
pub struct InMemoryBlockchainRepository {
    blocks: Vec<Block>,
}

impl View for InMemoryBlockchainRepository {
    type V = Seq<Block>;

    closed spec fn view(&self) -> Seq<Block> {
        self.blocks@
    }
}

impl InMemoryBlockchainRepository {
    /// An empty chain.
    pub fn new() -> (r: Self)
        ensures
            r@ == Seq::<Block>::empty(),
    {
        InMemoryBlockchainRepository { blocks: Vec::new() }
    }
}

impl BlockchainRepository for InMemoryBlockchainRepository {
    fn get_all_blocks(&self) -> Vec<Block> {
        copy_blocks(&self.blocks)
    }

    fn len(&self) -> usize {
        self.blocks.len()
    }

    fn add_block(&mut self, block: Block) {
        self.blocks.push(block);
    }

    fn get_last_block(&self) -> Option<Block> {
        if self.blocks.len() == 0 {
            None
        } else {
            Some(self.blocks[self.blocks.len() - 1].duplicate())
        }
    }

    fn replace_chain(&mut self, new_chain: Vec<Block>) {
        self.blocks = new_chain;
    }
}

/// Builds and signs the block that follows the head over the given
/// transactions, and appends it. `None`, with the chain unchanged, when
/// there is no head yet or its index or height is at its largest value.
pub fn add_new_block<B: BlockchainRepository>(
    chain: &mut B,
    transactions: Vec<Transaction>,
    proposer_id: String,
    shared_key: String,
    timestamp: u64,
) -> (r: Option<Block>)
    ensures
        old(chain)@.len() == 0 ==> r is None,
        old(chain)@.len() > 0 ==> (r is Some <==> (old(chain)@.last().index < u32::MAX
            && old(chain)@.last().header.height < u64::MAX)),
        r is None ==> final(chain)@ == old(chain)@,
        r is Some ==> {
            let b = r->0;
            let last = old(chain)@.last();
            &&& final(chain)@.len() == old(chain)@.len() + 1
            &&& final(chain)@.subrange(0, old(chain)@.len() as int) == old(chain)@
            &&& final(chain)@.last().same_as(&b)
            &&& b.index == last.index + 1
            &&& extends(last, b)
            &&& b.timestamp == timestamp
            &&& b.transactions@ == transactions@
            &&& b.header.tx_count == transactions@.len()
            &&& b.header.proposer_id@ == proposer_id@
            &&& b.hash_is_intact()
            &&& b.signature@ == crate::block::signature_of(b.hash@, shared_key@)
            &&& chain_valid(old(chain)@) ==> chain_valid(final(chain)@)
        },
{
    let last = match chain.get_last_block() {
        Some(b) => b,
        None => return None,
    };
    if last.index == u32::MAX || last.header.height == u64::MAX {
        return None;
    }
    let new_block = Block::new(
        last.index + 1,
        timestamp,
        proposer_id,
        last.header.height + 1,
        transactions,
        last.hash,
        shared_key,
    );
    let copy = new_block.duplicate();
    let ghost before = chain@;
    proof {
        if chain_valid(before) {
            lemma_append_keeps_chain_valid(before, new_block);
        }
    }
    chain.add_block(new_block);
    assert(chain@.subrange(0, before.len() as int) =~= before);
    Some(copy)
}

/// Checks that every block links to its predecessor and that every stored
/// hash equals its recomputation.
pub fn validate_chain<B: BlockchainRepository>(blockchain_repository: &B) -> (r: bool)
    ensures
        r == chain_valid(blockchain_repository@),
{
    let blocks = blockchain_repository.get_all_blocks();
    let r = validate_blocks(&blocks);
    proof {
        lemma_same_blocks_chain_valid(blocks@, blockchain_repository@);
    }
    r
}

/// The check of `validate_chain` on a list of blocks.
pub fn validate_blocks(blocks: &Vec<Block>) -> (r: bool)
    ensures
        r == chain_valid(blocks@),
{
    let mut i: usize = 0;
    while i < blocks.len()
        invariant
            0 <= i <= blocks@.len(),
            forall|k: int| 0 < k < i ==> (#[trigger] blocks@[k]).header.parent_hash@ == blocks@[k
                - 1].hash@,
            forall|k: int| 0 <= k < i ==> (#[trigger] blocks@[k]).hash_is_intact(),
        decreases blocks@.len() - i,
    {
        if i > 0 && blocks[i].header.parent_hash != blocks[i - 1].hash {
            return false;
        }
        let expected = blocks[i].calculate_hash();
        if blocks[i].hash != expected {
            return false;
        }
        i = i + 1;
    }
    true
}

/// Checks a whole chain as blocks are checked on receipt: every link, every
/// hash and every signature under the key.
pub fn verify_blocks(blocks: &Vec<Block>, shared_key: &str) -> (r: bool)
    ensures
        r == chain_verifies(blocks@, shared_key@),
{
    let mut i: usize = 0;
    while i < blocks.len()
        invariant
            0 <= i <= blocks@.len(),
            forall|k: int| 0 < k < i ==> (#[trigger] blocks@[k]).header.parent_hash@ == blocks@[k
                - 1].hash@,
            forall|k: int| 0 <= k < i ==> (#[trigger] blocks@[k]).spec_verify(shared_key@),
        decreases blocks@.len() - i,
    {
        if i > 0 && blocks[i].header.parent_hash != blocks[i - 1].hash {
            return false;
        }
        if !blocks[i].verify(shared_key) {
            return false;
        }
        i = i + 1;
    }
    true
}

/// Starts a chain: appends the genesis block, index and height 0, parent
/// hash "0", proposed by "GENESIS" at time 0, whose one transaction mints
/// the initial supply from `genesis_sender` to `faucet_wallet`.
pub fn create_genesis_block<B: BlockchainRepository>(
    chain: &mut B,
    shared_key: String,
    genesis_sender: Address,
    faucet_wallet: Address,
) -> (r: Block)
    ensures
        final(chain)@.len() == old(chain)@.len() + 1,
        final(chain)@.subrange(0, old(chain)@.len() as int) == old(chain)@,
        final(chain)@.last().same_as(&r),
        r.index == 0,
        r.timestamp == 0,
        r.header.height == 0,
        r.header.parent_hash@ == seq!['0'],
        r.header.proposer_id@ == seq!['G', 'E', 'N', 'E', 'S', 'I', 'S'],
        r.transactions@.len() == 1,
        r.header.tx_count == r.transactions@.len(),
        r.transactions@[0].from == genesis_sender,
        r.transactions@[0].to == faucet_wallet,
        r.transactions@[0].amount == GENESIS_SUPPLY,
        r.transactions@[0].timestamp == 0,
        r.hash_is_intact(),
        r.signature@ == signature_of(r.hash@, shared_key@),
        old(chain)@.len() == 0 ==> chain_valid(final(chain)@),
{
    let genesis_tx = Transaction::new(genesis_sender, faucet_wallet, GENESIS_SUPPLY, 0);
    let proposer = "GENESIS".to_string();
    let parent = "0".to_string();
    proof {
        reveal_strlit("GENESIS");
        reveal_strlit("0");
        assert(proposer@ =~= seq!['G', 'E', 'N', 'E', 'S', 'I', 'S']);
        assert(parent@ =~= seq!['0']);
    }
    let block = Block::new(0, 0, proposer, 0, vec![genesis_tx], parent, shared_key);
    let copy = block.duplicate();
    let ghost before = chain@;
    chain.add_block(block);
    assert(chain@.subrange(0, before.len() as int) =~= before);
    proof {
        if before.len() == 0 {
            assert(chain@[0].same_as(&copy));
        }
    }
    copy
}

/// The supply minted by the genesis block.
pub const GENESIS_SUPPLY: i64 = 1000000;

} // verus!
