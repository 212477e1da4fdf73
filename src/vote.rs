//! Votes on blocks, sent between validators.
use vstd::prelude::*;
use vstd::string::StrSliceExecFns;

verus! {

broadcast use vstd::string::group_string_axioms;

#[derive(Clone, Debug)]
pub struct Vote {
    pub block_hash: String,
    pub voter_id: String,
    pub decision: String,
}

/// The decision text of an acknowledgement.
pub open spec fn ack_text() -> Seq<char> {
    seq!['A', 'C', 'K']
}

impl Vote {
    /// An acknowledgement of a block by a voter.
    pub fn ack(block_hash: String, voter_id: String) -> (r: Vote)
        ensures
            r.block_hash == block_hash,
            r.voter_id == voter_id,
            r.decision@ == ack_text(),
    {
        let decision = "ACK".to_string();
        proof {
            reveal_strlit("ACK");
            assert(decision@ =~= ack_text());
        }
        Vote { block_hash, voter_id, decision }
    }

    /// Whether the vote acknowledges the block.
    pub fn is_ack(&self) -> (r: bool)
        ensures
            r == (self.decision@ == ack_text()),
    {
        let d = self.decision.as_str();
        if d.unicode_len() != 3 {
            return false;
        }
        let r = d.get_char(0) == 'A' && d.get_char(1) == 'C' && d.get_char(2) == 'K';
        proof {
            if r {
                assert(d@ =~= ack_text());
            }
        }
        r
    }
}

} // verus!
