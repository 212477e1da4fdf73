//! Slot leaders: the roster sorted by the byte order of the ids, and slot
//! `s` (counted from 1) led by entry `(s - 1) mod N`.
use vstd::prelude::*;
use vstd::utf8::encode_utf8;

verus! {

broadcast use vstd::seq_lib::group_to_multiset_ensures;

/// Lexicographic order on byte strings, the order of `str`'s `<`.
pub open spec fn bytes_lt(a: Seq<u8>, b: Seq<u8>) -> bool
    decreases a.len(),
{
    if a.len() == 0 {
        b.len() > 0
    } else if b.len() == 0 {
        false
    } else if a[0] != b[0] {
        a[0] < b[0]
    } else {
        bytes_lt(a.drop_first(), b.drop_first())
    }
}

/// Text order on ids: the order of their UTF-8 bytes.
pub open spec fn id_lt(a: Seq<char>, b: Seq<char>) -> bool {
    bytes_lt(encode_utf8(a), encode_utf8(b))
}

/// No entry is followed by a smaller one.
pub open spec fn ids_sorted(s: Seq<String>) -> bool {
    forall|i: int| 0 <= i < s.len() - 1 ==> !id_lt((#[trigger] s[i + 1])@, s[i]@)
}

/// The index of the leader of slot `slot` (from 1) among `n` validators.
pub open spec fn leader_position(slot: u64, n: nat) -> int {
    (slot as int - 1) % (n as int)
}

proof fn lemma_bytes_lt_asymmetric(a: Seq<u8>, b: Seq<u8>)
    ensures
        bytes_lt(a, b) ==> !bytes_lt(b, a),
    decreases a.len(),
{
    if a.len() > 0 && b.len() > 0 && a[0] == b[0] {
        lemma_bytes_lt_asymmetric(a.drop_first(), b.drop_first());
    }
}

/// Compares two byte strings in lexicographic order.
pub fn bytes_less(a: &[u8], b: &[u8]) -> (r: bool)
    ensures
        r == bytes_lt(a@, b@),
{
    let mut i: usize = 0;
    assert(a@.skip(0) =~= a@);
    assert(b@.skip(0) =~= b@);
    while i < a.len() && i < b.len()
        invariant
            0 <= i <= a@.len(),
            i <= b@.len(),
            bytes_lt(a@, b@) == bytes_lt(a@.skip(i as int), b@.skip(i as int)),
        decreases a@.len() - i,
    {
        if a[i] != b[i] {
            return a[i] < b[i];
        }
        assert(a@.skip(i as int).drop_first() =~= a@.skip(i as int + 1));
        assert(b@.skip(i as int).drop_first() =~= b@.skip(i as int + 1));
        i = i + 1;
    }
    i == a.len() && i < b.len()
}

/// The roster in ascending id order, holding the same ids.
pub fn sort_validators(ids: Vec<String>) -> (r: Vec<String>)
    ensures
        ids_sorted(r@),
        r@.to_multiset() == ids@.to_multiset(),
{
    let mut r: Vec<String> = Vec::new();
    let mut k: usize = 0;
    while k < ids.len()
        invariant
            0 <= k <= ids@.len(),
            ids_sorted(r@),
            r@.to_multiset() == ids@.subrange(0, k as int).to_multiset(),
        decreases ids@.len() - k,
    {
        let x = ids[k].clone();
        let mut p: usize = 0;
        while p < r.len() && !bytes_less(x.as_str().as_bytes(), r[p].as_str().as_bytes())
            invariant
                0 <= p <= r@.len(),
                forall|j: int| 0 <= j < p ==> !id_lt(x@, (#[trigger] r@[j])@),
            decreases r@.len() - p,
        {
            p = p + 1;
        }
        let ghost before = r@;
        r.insert(p, x);
        proof {
            assert forall|i: int| 0 <= i < r@.len() - 1 implies !id_lt(
                (#[trigger] r@[i + 1])@,
                r@[i]@,
            ) by {
                if i + 1 < p {
                    assert(r@[i] == before[i] && r@[i + 1] == before[i + 1]);
                } else if i + 1 == p {
                    assert(r@[i] == before[i]);
                } else if i == p {
                    assert(r@[i + 1] == before[p as int]);
                    assert(r@[i] == x);
                    assert(id_lt(x@, before[p as int]@));
                    lemma_bytes_lt_asymmetric(encode_utf8(x@), encode_utf8(before[p as int]@));
                } else {
                    assert(r@[i] == before[i - 1] && r@[i + 1] == before[i]);
                    let j = i - 1;
                    assert(!id_lt(before[j + 1]@, before[j]@));
                }
            }
            vstd::seq_lib::to_multiset_insert(before, p as int, x);
            assert(ids@.subrange(0, k as int + 1) =~= ids@.subrange(0, k as int).push(ids@[k as int]));
        }
        k = k + 1;
    }
    assert(ids@.subrange(0, ids@.len() as int) =~= ids@);
    r
}

/// The quorum for `total_validators`: a strict majority, `floor(N/2) + 1`.
pub fn quorum_threshold(total_validators: usize) -> (r: usize)
    ensures
        r == total_validators / 2 + 1,
{
    total_validators / 2 + 1
}

/// The position of the leader of a slot (from 1) among `n` validators.
pub fn leader_index(slot: u64, n: usize) -> (r: usize)
    requires
        slot >= 1,
        n > 0,
    ensures
        r == leader_position(slot, n as nat),
        r < n,
{
    ((slot - 1) % (n as u64)) as usize
}

/// The leader of a slot (from 1) under a sorted roster.
pub fn leader_for_slot(sorted_validators: &Vec<String>, slot: u64) -> (r: &String)
    requires
        slot >= 1,
        sorted_validators@.len() > 0,
    ensures
        *r == sorted_validators@[leader_position(slot, sorted_validators@.len())],
{
    let i = leader_index(slot, sorted_validators.len());
    &sorted_validators[i]
}

} // verus!
