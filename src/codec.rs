//! The byte text that a block's hash is computed over.
use vstd::prelude::*;

use crate::crypto::{json_string, json_string_of, uuid_text, uuid_text_bytes};
use crate::transaction::Transaction;

verus! {

/// Decimal digits of a natural number, most significant first, no leading zeros.
pub open spec fn decimal(n: nat) -> Seq<u8>
    decreases n,
{
    if n < 10 {
        seq![(48 + n) as u8]
    } else {
        decimal(n / 10).push((48 + n % 10) as u8)
    }
}

/// Every byte of a decimal text is a digit.
pub proof fn lemma_decimal_digits(n: nat)
    ensures
        forall|i: int| 0 <= i < decimal(n).len() ==> 48 <= #[trigger] decimal(n)[i] <= 57,
        decimal(n).len() >= 1,
    decreases n,
{
    if n >= 10 {
        lemma_decimal_digits(n / 10);
    }
}

/// Distinct numbers have distinct decimal texts.
pub proof fn lemma_decimal_injective(a: nat, b: nat)
    requires
        decimal(a) == decimal(b),
    ensures
        a == b,
    decreases a,
{
    lemma_decimal_digits(a / 10);
    lemma_decimal_digits(b / 10);
    if a < 10 && b >= 10 {
        assert(decimal(b).len() >= 2);
    } else if a >= 10 && b < 10 {
        assert(decimal(a).len() >= 2);
    } else if a >= 10 && b >= 10 {
        assert(decimal(a).drop_last() == decimal(a / 10));
        assert(decimal(b).drop_last() == decimal(b / 10));
        lemma_decimal_injective(a / 10, b / 10);
        assert(decimal(a).last() == decimal(b).last());
        assert(decimal(a).last() as int == 48 + a % 10);
        assert(decimal(b).last() as int == 48 + b % 10);
        assert(a % 10 == b % 10);
        assert(a == 10 * (a / 10) + a % 10);
        assert(b == 10 * (b / 10) + b % 10);
    } else {
        assert(decimal(a)[0] == decimal(b)[0]);
        assert(decimal(a)[0] as int == 48 + a);
        assert(decimal(b)[0] as int == 48 + b);
    }
}

/// A decimal text followed by a non-digit byte determines the number: if
/// two such texts, each followed by its terminator, agree, so do the numbers.
pub proof fn lemma_decimal_terminated(a: nat, b: nat, ta: Seq<u8>, tb: Seq<u8>)
    requires
        ta.len() > 0,
        tb.len() > 0,
        !(48 <= ta[0] <= 57),
        !(48 <= tb[0] <= 57),
        decimal(a) + ta == decimal(b) + tb,
    ensures
        a == b,
{
    lemma_decimal_digits(a);
    lemma_decimal_digits(b);
    let da = decimal(a);
    let db = decimal(b);
    let x = da + ta;
    let y = db + tb;
    if da.len() < db.len() {
        assert(x[da.len() as int] == ta[0]);
        assert(y[da.len() as int] == db[da.len() as int]);
    } else if db.len() < da.len() {
        assert(y[db.len() as int] == tb[0]);
        assert(x[db.len() as int] == da[db.len() as int]);
    } else {
        assert(da =~= x.subrange(0, da.len() as int));
        assert(db =~= y.subrange(0, db.len() as int));
        lemma_decimal_injective(a, b);
    }
}

/// Decimal text of an integer, with a leading `-` when it is negative.
pub open spec fn signed_decimal(n: int) -> Seq<u8> {
    if n < 0 {
        seq![45u8] + decimal((-n) as nat)
    } else {
        decimal(n as nat)
    }
}

/// The text of one transaction inside a block's hash input: sender, receiver, amount.
pub open spec fn tx_text(t: Transaction) -> Seq<u8> {
    uuid_text_bytes(t.from) + uuid_text_bytes(t.to) + signed_decimal(t.amount as int)
}

/// The texts of all transactions, in order, joined with nothing between them.
pub open spec fn txs_text(txs: Seq<Transaction>) -> Seq<u8>
    decreases txs.len(),
{
    if txs.len() == 0 {
        Seq::empty()
    } else {
        txs_text(txs.drop_last()) + tx_text(txs.last())
    }
}

/// `{"height":`
pub open spec fn key_height() -> Seq<u8> {
    seq![123u8, 34, 104, 101, 105, 103, 104, 116, 34, 58]
}

/// `,"parent_hash":`
pub open spec fn key_parent_hash() -> Seq<u8> {
    seq![44u8, 34, 112, 97, 114, 101, 110, 116, 95, 104, 97, 115, 104, 34, 58]
}

/// `,"proposer_id":`
pub open spec fn key_proposer_id() -> Seq<u8> {
    seq![44u8, 34, 112, 114, 111, 112, 111, 115, 101, 114, 95, 105, 100, 34, 58]
}

/// `,"tx_count":`
pub open spec fn key_tx_count() -> Seq<u8> {
    seq![44u8, 34, 116, 120, 95, 99, 111, 117, 110, 116, 34, 58]
}

/// The JSON object of a block header, fields in declaration order.
pub open spec fn header_json(
    height: u64,
    parent_hash: Seq<char>,
    proposer_id: Seq<char>,
    tx_count: usize,
) -> Seq<u8> {
    key_height() + (decimal(height as nat) + (key_parent_hash() + (json_string_of(parent_hash) + (
    key_proposer_id() + (json_string_of(proposer_id) + (key_tx_count() + (decimal(tx_count as nat)
        + seq![125u8])))))))
}

/// Equal sequences with equal prefixes have equal rests.
pub proof fn lemma_cancel_prefix(a: Seq<u8>, b: Seq<u8>, c: Seq<u8>)
    requires
        a + b == a + c,
    ensures
        b == c,
{
    assert(b =~= (a + b).skip(a.len() as int));
    assert(c =~= (a + c).skip(a.len() as int));
}

/// A header's JSON fixes its numbers: two headers with the same strings
/// whose JSON agrees have the same height and the same transaction count.
pub proof fn lemma_header_json_numbers(
    h1: u64,
    h2: u64,
    p: Seq<char>,
    q: Seq<char>,
    c1: usize,
    c2: usize,
)
    requires
        header_json(h1, p, q, c1) == header_json(h2, p, q, c2),
    ensures
        h1 == h2,
        c1 == c2,
{
    let end1 = decimal(c1 as nat) + seq![125u8];
    let end2 = decimal(c2 as nat) + seq![125u8];
    let t1 = key_parent_hash() + (json_string_of(p) + (key_proposer_id() + (json_string_of(q) + (
    key_tx_count() + end1))));
    let t2 = key_parent_hash() + (json_string_of(p) + (key_proposer_id() + (json_string_of(q) + (
    key_tx_count() + end2))));
    lemma_cancel_prefix(key_height(), decimal(h1 as nat) + t1, decimal(h2 as nat) + t2);
    assert(t1[0] == 44u8);
    assert(t2[0] == 44u8);
    lemma_decimal_terminated(h1 as nat, h2 as nat, t1, t2);
    lemma_cancel_prefix(decimal(h1 as nat), t1, t2);
    let u1 = json_string_of(p) + (key_proposer_id() + (json_string_of(q) + (key_tx_count() + end1)));
    let u2 = json_string_of(p) + (key_proposer_id() + (json_string_of(q) + (key_tx_count() + end2)));
    lemma_cancel_prefix(key_parent_hash(), u1, u2);
    let v1 = key_proposer_id() + (json_string_of(q) + (key_tx_count() + end1));
    let v2 = key_proposer_id() + (json_string_of(q) + (key_tx_count() + end2));
    lemma_cancel_prefix(json_string_of(p), v1, v2);
    let w1 = json_string_of(q) + (key_tx_count() + end1);
    let w2 = json_string_of(q) + (key_tx_count() + end2);
    lemma_cancel_prefix(key_proposer_id(), w1, w2);
    lemma_cancel_prefix(json_string_of(q), key_tx_count() + end1, key_tx_count() + end2);
    lemma_cancel_prefix(key_tx_count(), end1, end2);
    lemma_decimal_terminated(c1 as nat, c2 as nat, seq![125u8], seq![125u8]);
}

/// Appends every byte of `b` to `out`.
pub fn push_bytes(out: &mut Vec<u8>, b: &[u8])
    ensures
        final(out)@ == old(out)@ + b@,
{
    let mut i: usize = 0;
    while i < b.len()
        invariant
            0 <= i <= b@.len(),
            out@ == old(out)@ + b@.subrange(0, i as int),
        decreases b@.len() - i,
    {
        out.push(b[i]);
        i = i + 1;
        assert(b@.subrange(0, i as int) =~= b@.subrange(0, (i - 1) as int).push(b@[i - 1]));
    }
    assert(b@.subrange(0, b@.len() as int) =~= b@);
}

/// Appends the decimal digits of `n` to `out`.
pub fn push_decimal(out: &mut Vec<u8>, n: u64)
    ensures
        final(out)@ == old(out)@ + decimal(n as nat),
    decreases n,
{
    if n < 10 {
        out.push((48 + n) as u8);
    } else {
        push_decimal(out, n / 10);
        out.push((48 + n % 10) as u8);
    }
}

/// Appends the decimal text of a signed amount to `out`.
pub fn push_signed_decimal(out: &mut Vec<u8>, n: i64)
    ensures
        final(out)@ == old(out)@ + signed_decimal(n as int),
{
    if n < 0 {
        out.push(45u8);
        let m: u64 = (0i128 - n as i128) as u64;
        push_decimal(out, m);
    } else {
        push_decimal(out, n as u64);
    }
}

/// Appends the hash-input text of one transaction.
pub fn push_tx_text(out: &mut Vec<u8>, t: &Transaction)
    ensures
        final(out)@ == old(out)@ + tx_text(*t),
{
    let from = uuid_text(t.from);
    push_bytes(out, from.as_slice());
    let to = uuid_text(t.to);
    push_bytes(out, to.as_slice());
    push_signed_decimal(out, t.amount);
}

/// Appends the hash-input text of a list of transactions.
pub fn push_txs_text(out: &mut Vec<u8>, txs: &Vec<Transaction>)
    ensures
        final(out)@ == old(out)@ + txs_text(txs@),
{
    let mut i: usize = 0;
    while i < txs.len()
        invariant
            0 <= i <= txs@.len(),
            out@ == old(out)@ + txs_text(txs@.subrange(0, i as int)),
        decreases txs@.len() - i,
    {
        push_tx_text(out, &txs[i]);
        i = i + 1;
        assert(txs@.subrange(0, i as int).drop_last() =~= txs@.subrange(0, (i - 1) as int));
    }
    assert(txs@.subrange(0, txs@.len() as int) =~= txs@);
}

/// Appends the JSON object of a block header.
pub fn push_header_json(
    out: &mut Vec<u8>,
    height: u64,
    parent_hash: &str,
    proposer_id: &str,
    tx_count: usize,
)
    ensures
        final(out)@ == old(out)@ + header_json(height, parent_hash@, proposer_id@, tx_count),
{
    let k1: Vec<u8> = vec![123u8, 34, 104, 101, 105, 103, 104, 116, 34, 58];
    push_bytes(out, k1.as_slice());
    push_decimal(out, height);
    let k2: Vec<u8> = vec![44u8, 34, 112, 97, 114, 101, 110, 116, 95, 104, 97, 115, 104, 34, 58];
    push_bytes(out, k2.as_slice());
    let p = json_string(parent_hash);
    push_bytes(out, p.as_slice());
    let k3: Vec<u8> = vec![44u8, 34, 112, 114, 111, 112, 111, 115, 101, 114, 95, 105, 100, 34, 58];
    push_bytes(out, k3.as_slice());
    let q = json_string(proposer_id);
    push_bytes(out, q.as_slice());
    let k4: Vec<u8> = vec![44u8, 34, 116, 120, 95, 99, 111, 117, 110, 116, 34, 58];
    push_bytes(out, k4.as_slice());
    push_decimal(out, tx_count as u64);
    out.push(125u8);
    assert(out@ =~= old(out)@ + header_json(height, parent_hash@, proposer_id@, tx_count));
}

} // verus!
