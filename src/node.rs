//! The local node: its identity, its peers and the validator roster.
use vstd::prelude::*;

verus! {

pub struct Node {
    pub id: String,
    pub port: u16,
    pub peers: Vec<String>,
    pub validator_ids: Vec<String>,
}

impl Node {
    pub fn new(id: String, port: u16, peers: Vec<String>, validator_ids: Vec<String>) -> (r: Node)
        ensures
            r.id == id,
            r.port == port,
            r.peers == peers,
            r.validator_ids == validator_ids,
    {
        Node { id, port, peers, validator_ids }
    }
}

} // verus!
