//! The vote and quorum engine: distinct acknowledgements are counted per
//! block hash, and a staged block is committed once its count reaches
//! the quorum.
use vstd::prelude::*;

use crate::block::Block;
use crate::chain::BlockchainRepository;
use crate::vote::{ack_text, Vote};

verus! {

/// The voters that acknowledged one block hash, in arrival order.
pub struct Tally {
    pub block_hash: String,
    pub voters: Vec<String>,
}

/// The ids of a list of voters.
pub open spec fn voter_ids(v: Seq<String>) -> Seq<Seq<char>> {
    v.map_values(|s: String| s@)
}

/// Tallies by block hash; a later entry for a hash stands over an earlier one.
pub open spec fn tally_map(s: Seq<Tally>) -> Map<Seq<char>, Seq<Seq<char>>>
    decreases s.len(),
{
    if s.len() == 0 {
        Map::empty()
    } else {
        tally_map(s.drop_last()).insert(s.last().block_hash@, voter_ids(s.last().voters@))
    }
}

/// Staged blocks by hash; a later entry for a hash stands over an earlier one.
pub open spec fn staged_map(s: Seq<Block>) -> Map<Seq<char>, Block>
    decreases s.len(),
{
    if s.len() == 0 {
        Map::empty()
    } else {
        staged_map(s.drop_last()).insert(s.last().hash@, s.last())
    }
}

/// What the engine holds: the voters per block hash and the staged blocks.
pub struct TrackerState {
    pub votes: Map<Seq<char>, Seq<Seq<char>>>,
    pub pending: Map<Seq<char>, Block>,
}

/// The voters of `h` once `voter` has acknowledged it: a voter already
/// counted is not counted again.
pub open spec fn tally_after(
    votes: Map<Seq<char>, Seq<Seq<char>>>,
    h: Seq<char>,
    voter: Seq<char>,
) -> Seq<Seq<char>> {
    let cur = if votes.contains_key(h) {
        votes[h]
    } else {
        Seq::empty()
    };
    if cur.contains(voter) {
        cur
    } else {
        cur.push(voter)
    }
}

/// One vote: the state afterwards and the block it commits, if any. A
/// vote that is not an acknowledgement changes nothing. Otherwise the voter
/// joins the hash's tally; when the tally reaches `floor(total/2) + 1` and a
/// block with that hash is staged, that block is committed and both its
/// staged entry and its tally are dropped.
pub open spec fn vote_step(
    st: TrackerState,
    h: Seq<char>,
    voter: Seq<char>,
    is_ack: bool,
    total: nat,
) -> (TrackerState, Option<Block>) {
    if !is_ack {
        (st, None)
    } else {
        let t = tally_after(st.votes, h, voter);
        if t.len() >= total / 2 + 1 && st.pending.contains_key(h) {
            (
                TrackerState { votes: st.votes.remove(h), pending: st.pending.remove(h) },
                Some(st.pending[h]),
            )
        } else {
            (TrackerState { votes: st.votes.insert(h, t), pending: st.pending }, None)
        }
    }
}

/// Every tally holds distinct voters, so its length counts them.
pub open spec fn tallies_distinct(votes: Map<Seq<char>, Seq<Seq<char>>>) -> bool {
    forall|h: Seq<char>| #[trigger] votes.contains_key(h) ==> votes[h].no_duplicates()
}

/// Counting stays a count of distinct voters: from tallies of distinct
/// voters, the tally after a vote holds distinct voters too, its length is
/// the number of distinct voters, and they are those counted before plus
/// the new voter.
pub proof fn lemma_tally_counts_distinct_voters(
    votes: Map<Seq<char>, Seq<Seq<char>>>,
    h: Seq<char>,
    voter: Seq<char>,
)
    requires
        tallies_distinct(votes),
    ensures
        tally_after(votes, h, voter).no_duplicates(),
        tally_after(votes, h, voter).len() == tally_after(votes, h, voter).to_set().len(),
        tally_after(votes, h, voter).to_set() == (if votes.contains_key(h) {
            votes[h].to_set()
        } else {
            Set::empty()
        }).insert(voter),
        tallies_distinct(votes.insert(h, tally_after(votes, h, voter))),
        tallies_distinct(votes.remove(h)),
{
    let cur = if votes.contains_key(h) {
        votes[h]
    } else {
        Seq::<Seq<char>>::empty()
    };
    let t = tally_after(votes, h, voter);
    assert(cur.no_duplicates());
    if !cur.contains(voter) {
        assert forall|i: int, j: int| 0 <= i < t.len() && 0 <= j < t.len() && i != j implies t[i]
            != t[j] by {
            if i == cur.len() as int {
                assert(!cur.contains(t[j]) || t[j] != voter);
            } else if j == cur.len() as int {
                assert(t[i] == cur[i]);
            }
        }
        assert(t.to_set() =~= cur.to_set().insert(voter)) by {
            assert forall|x: Seq<char>| t.to_set().contains(x) <==> cur.to_set().insert(voter).contains(
                x,
            ) by {
                if t.contains(x) && x != voter {
                    let i = choose|i: int| 0 <= i < t.len() && t[i] == x;
                    assert(cur[i] == x);
                }
                if cur.contains(x) {
                    let i = choose|i: int| 0 <= i < cur.len() && cur[i] == x;
                    assert(t[i] == x);
                }
                if x == voter {
                    assert(t[cur.len() as int] == x);
                }
            }
        }
    } else {
        assert(cur.to_set() =~= cur.to_set().insert(voter));
    }
    if !votes.contains_key(h) {
        assert(cur.to_set() =~= Set::<Seq<char>>::empty());
    }
    t.unique_seq_to_set();
    let m = votes.insert(h, t);
    assert forall|k: Seq<char>| #[trigger] m.contains_key(k) implies m[k].no_duplicates() by {
        if k != h {
            assert(votes.contains_key(k));
        }
    }
    let n = votes.remove(h);
    assert forall|k: Seq<char>| #[trigger] n.contains_key(k) implies n[k].no_duplicates() by {
        assert(votes.contains_key(k));
    }
}

/// A commit happens at most once per hash: once a vote has committed the
/// block staged under `h`, a further vote for `h` (a duplicate trigger)
/// commits nothing.
pub proof fn lemma_commit_at_most_once(
    st: TrackerState,
    h: Seq<char>,
    voter1: Seq<char>,
    voter2: Seq<char>,
    ack2: bool,
    total: nat,
)
    requires
        vote_step(st, h, voter1, true, total).1 is Some,
    ensures
        vote_step(vote_step(st, h, voter1, true, total).0, h, voter2, ack2, total).1 is None,
{
}

/// A voter already in the tally does not raise its count.
pub proof fn lemma_duplicate_vote_not_counted(
    votes: Map<Seq<char>, Seq<Seq<char>>>,
    h: Seq<char>,
    voter: Seq<char>,
)
    requires
        votes.contains_key(h),
        votes[h].contains(voter),
    ensures
        tally_after(votes, h, voter) == votes[h],
{
}

/// What a vote did.
#[derive(Clone, Copy, Debug, PartialEq, Eq, Structural)]
pub enum VoteOutcome {
    /// Not an acknowledgement: nothing changed.
    Ignored,
    /// Counted; the number of distinct voters the block now has.
    Counted(usize),
    /// The quorum was reached and the staged block appended to the chain.
    Committed,
}

/// The tallies and the blocks staged while they wait for a quorum.
pub struct QuorumTracker {
    tallies: Vec<Tally>,
    pending: Vec<Block>,
}

impl View for QuorumTracker {
    type V = TrackerState;

    closed spec fn view(&self) -> TrackerState {
        TrackerState { votes: tally_map(self.tallies@), pending: staged_map(self.pending@) }
    }
}

/// Whether a voter list holds an id.
fn contains_voter(voters: &Vec<String>, id: &String) -> (r: bool)
    ensures
        r == voter_ids(voters@).contains(id@),
{
    let mut i: usize = 0;
    while i < voters.len()
        invariant
            0 <= i <= voters@.len(),
            forall|k: int| 0 <= k < i ==> voters@[k]@ != id@,
        decreases voters@.len() - i,
    {
        if voters[i] == *id {
            assert(voter_ids(voters@)[i as int] == id@);
            return true;
        }
        i = i + 1;
    }
    proof {
        if voter_ids(voters@).contains(id@) {
            let k = choose|k: int| 0 <= k < voter_ids(voters@).len() && voter_ids(voters@)[k] == id@;
            assert(voters@[k]@ == id@);
        }
    }
    false
}

impl QuorumTracker {
    /// Every tally holds distinct voters.
    pub open spec fn wf(&self) -> bool {
        tallies_distinct(self@.votes)
    }

    pub fn new() -> (r: Self)
        ensures
            r.wf(),
            r@.votes == Map::<Seq<char>, Seq<Seq<char>>>::empty(),
            r@.pending == Map::<Seq<char>, Block>::empty(),
    {
        QuorumTracker { tallies: Vec::new(), pending: Vec::new() }
    }

    /// The distinct voters counted for a hash so far.
    pub fn vote_count(&self, block_hash: &String) -> (r: usize)
        ensures
            self@.votes.contains_key(block_hash@) ==> r == self@.votes[block_hash@].len(),
            !self@.votes.contains_key(block_hash@) ==> r == 0,
    {
        let mut count: usize = 0;
        let mut i: usize = 0;
        assert(self.tallies@.subrange(0, 0) =~= Seq::<Tally>::empty());
        while i < self.tallies.len()
            invariant
                0 <= i <= self.tallies@.len(),
                tally_map(self.tallies@.subrange(0, i as int)).contains_key(block_hash@) ==> count
                    == tally_map(self.tallies@.subrange(0, i as int))[block_hash@].len(),
                !tally_map(self.tallies@.subrange(0, i as int)).contains_key(block_hash@) ==> count
                    == 0,
            decreases self.tallies@.len() - i,
        {
            assert(self.tallies@.subrange(0, i as int + 1).drop_last() =~= self.tallies@.subrange(
                0,
                i as int,
            ));
            if self.tallies[i].block_hash == *block_hash {
                count = self.tallies[i].voters.len();
            }
            i = i + 1;
        }
        assert(self.tallies@.subrange(0, i as int) =~= self.tallies@);
        count
    }

    /// Whether a block with this hash is staged.
    pub fn is_staged(&self, block_hash: &String) -> (r: bool)
        ensures
            r == self@.pending.contains_key(block_hash@),
    {
        let mut found = false;
        let mut i: usize = 0;
        assert(self.pending@.subrange(0, 0) =~= Seq::<Block>::empty());
        while i < self.pending.len()
            invariant
                0 <= i <= self.pending@.len(),
                found == staged_map(self.pending@.subrange(0, i as int)).contains_key(block_hash@),
            decreases self.pending@.len() - i,
        {
            assert(self.pending@.subrange(0, i as int + 1).drop_last() =~= self.pending@.subrange(
                0,
                i as int,
            ));
            if self.pending[i].hash == *block_hash {
                found = true;
            }
            i = i + 1;
        }
        assert(self.pending@.subrange(0, i as int) =~= self.pending@);
        found
    }

    /// Removes the tally of a hash and returns its voters.
    fn take_tally(&mut self, h: &String) -> (r: Option<Vec<String>>)
        ensures
            r is Some <==> old(self)@.votes.contains_key(h@),
            r is Some ==> voter_ids(r->0@) == old(self)@.votes[h@],
            final(self)@.votes == old(self)@.votes.remove(h@),
            final(self)@.pending == old(self)@.pending,
    {
        let mut rest: Vec<Tally> = Vec::new();
        std::mem::swap(&mut rest, &mut self.tallies);
        let ghost orig = rest@;
        let ghost n = orig.len();
        let mut found: Option<Vec<String>> = None;
        assert(orig.subrange(0, 0) =~= Seq::<Tally>::empty());
        assert(orig.subrange(0, n as int) =~= orig);
        assert(tally_map(self.tallies@) =~= tally_map(orig.subrange(0, 0)).remove(h@));
        while rest.len() > 0
            invariant
                n == orig.len(),
                rest@.len() <= n,
                rest@ == orig.subrange(n - rest@.len(), n as int),
                tally_map(self.tallies@) == tally_map(orig.subrange(0, n - rest@.len())).remove(
                    h@,
                ),
                found is Some <==> tally_map(orig.subrange(0, n - rest@.len())).contains_key(h@),
                found is Some ==> voter_ids(found->0@) == tally_map(
                    orig.subrange(0, n - rest@.len()),
                )[h@],
                self.pending@ == old(self).pending@,
            decreases rest@.len(),
        {
            let ghost i = n - rest@.len();
            let ghost prev = self.tallies@;
            let t = rest.remove(0);
            assert(t == orig[i]);
            assert(rest@ =~= orig.subrange(i + 1, n as int));
            assert(orig.subrange(0, i + 1).drop_last() =~= orig.subrange(0, i));
            if t.block_hash == *h {
                found = Some(t.voters);
                assert(tally_map(self.tallies@) =~= tally_map(orig.subrange(0, i + 1)).remove(h@));
            } else {
                self.tallies.push(t);
                assert(self.tallies@.drop_last() =~= prev);
                assert(tally_map(self.tallies@) =~= tally_map(orig.subrange(0, i + 1)).remove(h@));
            }
        }
        found
    }

    /// Removes the block staged under a hash and returns it.
    fn take_staged(&mut self, h: &String) -> (r: Option<Block>)
        ensures
            r is Some <==> old(self)@.pending.contains_key(h@),
            r is Some ==> r->0 == old(self)@.pending[h@],
            final(self)@.pending == old(self)@.pending.remove(h@),
            final(self)@.votes == old(self)@.votes,
    {
        let mut rest: Vec<Block> = Vec::new();
        std::mem::swap(&mut rest, &mut self.pending);
        let ghost orig = rest@;
        let ghost n = orig.len();
        let mut found: Option<Block> = None;
        assert(orig.subrange(0, 0) =~= Seq::<Block>::empty());
        assert(orig.subrange(0, n as int) =~= orig);
        assert(staged_map(self.pending@) =~= staged_map(orig.subrange(0, 0)).remove(h@));
        while rest.len() > 0
            invariant
                n == orig.len(),
                rest@.len() <= n,
                rest@ == orig.subrange(n - rest@.len(), n as int),
                staged_map(self.pending@) == staged_map(orig.subrange(0, n - rest@.len())).remove(
                    h@,
                ),
                found is Some <==> staged_map(orig.subrange(0, n - rest@.len())).contains_key(h@),
                found is Some ==> found->0 == staged_map(orig.subrange(0, n - rest@.len()))[h@],
                self.tallies@ == old(self).tallies@,
            decreases rest@.len(),
        {
            let ghost i = n - rest@.len();
            let ghost prev = self.pending@;
            let b = rest.remove(0);
            assert(b == orig[i]);
            assert(rest@ =~= orig.subrange(i + 1, n as int));
            assert(orig.subrange(0, i + 1).drop_last() =~= orig.subrange(0, i));
            if b.hash == *h {
                found = Some(b);
                assert(staged_map(self.pending@) =~= staged_map(orig.subrange(0, i + 1)).remove(h@));
            } else {
                self.pending.push(b);
                assert(self.pending@.drop_last() =~= prev);
                assert(staged_map(self.pending@) =~= staged_map(orig.subrange(0, i + 1)).remove(h@));
            }
        }
        found
    }

    /// Stages a block to wait for its quorum, in place of any block staged
    /// under the same hash.
    pub fn stage_block(&mut self, block: Block)
        requires
            old(self).wf(),
        ensures
            final(self).wf(),
            final(self)@.pending == old(self)@.pending.insert(block.hash@, block),
            final(self)@.votes == old(self)@.votes,
    {
        let h = block.hash.clone();
        let _ = self.take_staged(&h);
        let ghost prev = self.pending@;
        self.pending.push(block);
        assert(self.pending@.drop_last() =~= prev);
        assert(self@.pending =~= old(self)@.pending.insert(block.hash@, block));
    }

    /// Registers a vote from one of `total_validators` validators, and on
    /// reaching the quorum appends the staged block to the chain.
    pub fn register_vote<B: BlockchainRepository>(
        &mut self,
        vote: &Vote,
        total_validators: usize,
        chain: &mut B,
    ) -> (r: VoteOutcome)
        requires
            old(self).wf(),
        ensures
            final(self).wf(),
            ({
                let (st, committed) = vote_step(
                    old(self)@,
                    vote.block_hash@,
                    vote.voter_id@,
                    vote.decision@ == ack_text(),
                    total_validators as nat,
                );
                &&& final(self)@ == st
                &&& committed is None ==> final(chain)@ == old(chain)@
                &&& committed is Some ==> final(chain)@ == old(chain)@.push(committed->0)
                &&& (r == VoteOutcome::Ignored) == (vote.decision@ != ack_text())
                &&& (r == VoteOutcome::Committed) == committed is Some
                &&& r is Counted ==> r->Counted_0 == st.votes[vote.block_hash@].len()
                &&& r is Counted ==> r->Counted_0 == st.votes[vote.block_hash@].to_set().len()
            }),
    {
        if !vote.is_ack() {
            return VoteOutcome::Ignored;
        }
        let h = &vote.block_hash;
        let ghost st0 = self@;
        proof {
            lemma_tally_counts_distinct_voters(st0.votes, h@, vote.voter_id@);
        }
        let mut voters = match self.take_tally(h) {
            Some(v) => v,
            None => Vec::new(),
        };
        proof {
            assert(voter_ids(voters@) =~= (if st0.votes.contains_key(h@) {
                st0.votes[h@]
            } else {
                Seq::empty()
            }));
        }
        if !contains_voter(&voters, &vote.voter_id) {
            voters.push(vote.voter_id.clone());
            assert(voter_ids(voters@) =~= tally_after(st0.votes, h@, vote.voter_id@));
        }
        let count = voters.len();
        if count >= quorum_count(total_validators) {
            match self.take_staged(h) {
                Some(block) => {
                    chain.add_block(block);
                    return VoteOutcome::Committed;
                },
                None => {},
            }
        }
        let ghost prev = self.tallies@;
        self.tallies.push(Tally { block_hash: h.clone(), voters });
        assert(self.tallies@.drop_last() =~= prev);
        assert(self@.votes =~= st0.votes.insert(h@, tally_after(st0.votes, h@, vote.voter_id@)));
        assert(self@.pending =~= st0.pending);
        VoteOutcome::Counted(count)
    }
}

fn quorum_count(total_validators: usize) -> (r: usize)
    ensures
        r == total_validators / 2 + 1,
{
    crate::leader::quorum_threshold(total_validators)
}

} // verus!
