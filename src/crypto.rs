//! The outside primitives the chain relies on: SHA-256, HMAC-SHA256, hex,
//! UUIDs and JSON string quoting. Each is one small trusted function whose
//! contract says what the outside crate returns.
use vstd::prelude::*;
use vstd::utf8::{encode_utf8, is_ascii_chars, is_ascii_chars_encode_utf8};

verus! {

/// The lowercase hex digit of a nibble.
pub open spec fn hex_digit(n: int) -> char {
    if n < 10 {
        (48 + n) as char
    } else {
        (87 + n) as char
    }
}

/// The same digit as a byte.
pub open spec fn hex_digit_byte(n: int) -> u8 {
    if n < 10 {
        (48 + n) as u8
    } else {
        (87 + n) as u8
    }
}

/// Lowercase hex text of a byte string: two digits per byte, high nibble first.
pub open spec fn hex_text(b: Seq<u8>) -> Seq<char> {
    Seq::new(
        2 * b.len(),
        |i: int|
            if i % 2 == 0 {
                hex_digit(b[i / 2] as int / 16)
            } else {
                hex_digit(b[i / 2] as int % 16)
            },
    )
}

/// The value of a hex digit in either case, if the byte is one.
pub open spec fn hex_value(c: u8) -> Option<int> {
    if 48 <= c <= 57 {
        Some(c - 48)
    } else if 97 <= c <= 102 {
        Some(c - 87)
    } else if 65 <= c <= 70 {
        Some(c - 55)
    } else {
        None
    }
}

/// Text that decodes as hex: an even number of hex digits.
pub open spec fn is_hex_text(s: Seq<u8>) -> bool {
    &&& s.len() % 2 == 0
    &&& forall|i: int| 0 <= i < s.len() ==> (#[trigger] hex_value(s[i])) is Some
}

/// The bytes that hex text stands for.
pub open spec fn hex_decoded(s: Seq<u8>) -> Seq<u8> {
    Seq::new(
        s.len() / 2,
        |i: int| (hex_value(s[2 * i])->0 * 16 + hex_value(s[2 * i + 1])->0) as u8,
    )
}

/// The hex digit of the `k`-th nibble of `x`, counted from the most significant.
pub open spec fn nibble_digit(x: u128, k: int) -> u8 {
    hex_digit_byte(((x as int) / vstd::arithmetic::power2::pow2((124 - 4 * k) as nat) as int) % 16)
}

/// The hyphenated lowercase text of a UUID (8-4-4-4-12 hex digits), as bytes.
pub open spec fn uuid_text_bytes(x: u128) -> Seq<u8> {
    Seq::new(
        36,
        |p: int|
            if p == 8 || p == 13 || p == 18 || p == 23 {
                45u8
            } else if p < 8 {
                nibble_digit(x, p)
            } else if p < 13 {
                nibble_digit(x, p - 1)
            } else if p < 18 {
                nibble_digit(x, p - 2)
            } else if p < 23 {
                nibble_digit(x, p - 3)
            } else {
                nibble_digit(x, p - 4)
            },
    )
}

/// Hex text read back as bytes decodes to the bytes it was made from.
pub proof fn lemma_hex_round_trip(b: Seq<u8>)
    ensures
        is_hex_text(encode_utf8(hex_text(b))),
        hex_decoded(encode_utf8(hex_text(b))) == b,
{
    let h = hex_text(b);
    assert(is_ascii_chars(h)) by {
        assert forall|i: int| 0 <= i < h.len() implies '\0' <= #[trigger] h[i] <= '\u{7f}' by {
            let n = if i % 2 == 0 {
                b[i / 2] as int / 16
            } else {
                b[i / 2] as int % 16
            };
            assert(0 <= n < 16);
            assert(h[i] == hex_digit(n));
        }
    }
    is_ascii_chars_encode_utf8(h);
    let e = encode_utf8(h);
    assert forall|i: int| 0 <= i < e.len() implies (#[trigger] hex_value(e[i])) is Some && hex_value(
        e[i],
    )->0 == (if i % 2 == 0 {
        b[i / 2] as int / 16
    } else {
        b[i / 2] as int % 16
    }) by {
        assert(e[i] == h[i] as u8);
    }
    let d = hex_decoded(e);
    assert forall|k: int| 0 <= k < b.len() implies d[k] == b[k] by {
        assert(hex_value(e[2 * k])->0 == b[(2 * k) / 2] as int / 16);
        assert(hex_value(e[2 * k + 1])->0 == b[(2 * k + 1) / 2] as int % 16);
        assert((2 * k) / 2 == k);
        assert((2 * k + 1) / 2 == k);
    }
    assert(d =~= b);
}

/// Distinct byte strings have distinct hex texts.
pub proof fn lemma_hex_text_injective(a: Seq<u8>, b: Seq<u8>)
    requires
        hex_text(a) == hex_text(b),
    ensures
        a == b,
{
    lemma_hex_round_trip(a);
    lemma_hex_round_trip(b);
}

/// What SHA-256 gives for a byte string.
pub uninterp spec fn sha256_of(b: Seq<u8>) -> Seq<u8>;

/// What HMAC-SHA256 gives for a key and a message.
pub uninterp spec fn hmac_sha256_of(key: Seq<u8>, msg: Seq<u8>) -> Seq<u8>;

/// What serde_json writes for a string value: the quoted, escaped text.
pub uninterp spec fn json_string_of(s: Seq<char>) -> Seq<u8>;

/// Relies on uuid::Uuid::new_v4: a random version-4 UUID, as its 128 bits.
/// Nothing is promised of the value.
#[verifier::external_body]
pub(crate) fn new_random_id() -> (r: u128) {
    uuid::Uuid::new_v4().as_u128()
}

/// Relies on uuid's `Display` for `Uuid::from_u128(x)`: the hyphenated
/// lowercase form of the big-endian bytes of `x`.
#[verifier::external_body]
pub(crate) fn uuid_text(x: u128) -> (r: Vec<u8>)
    ensures
        r@ == uuid_text_bytes(x),
{
    uuid::Uuid::from_u128(x).to_string().into_bytes()
}

/// Relies on hex::encode: lowercase hex, two digits per byte.
#[verifier::external_body]
pub(crate) fn hex_encode(b: &[u8]) -> (r: String)
    ensures
        r@ == hex_text(b@),
{
    hex::encode(b)
}

#[verifier::external_type_specification]
#[verifier::external_body]
pub struct ExFromHexError(hex::FromHexError);

/// Relies on hex::decode: it accepts exactly an even number of hex digits
/// of either case, and returns the bytes they stand for.
#[verifier::external_body]
pub(crate) fn hex_decode(s: &str) -> (r: Result<Vec<u8>, hex::FromHexError>)
    ensures
        r is Ok <==> is_hex_text(encode_utf8(s@)),
        r is Ok ==> r->Ok_0@ == hex_decoded(encode_utf8(s@)),
{
    hex::decode(s)
}

/// Relies on sha2::Sha256::digest: the 32-byte SHA-256 digest.
#[verifier::external_body]
pub(crate) fn sha256_digest(b: &[u8]) -> (r: Vec<u8>)
    ensures
        r@ == sha256_of(b@),
        r@.len() == 32,
{
    <sha2::Sha256 as sha2::Digest>::digest(b).to_vec()
}

/// Relies on hmac::Hmac<Sha256> (new_from_slice, update, finalize): the
/// 32-byte HMAC-SHA256 tag. The key may have any length.
#[verifier::external_body]
pub(crate) fn hmac_sha256(key: &[u8], msg: &[u8]) -> (r: Vec<u8>)
    ensures
        r@ == hmac_sha256_of(key@, msg@),
        r@.len() == 32,
{
    let mut mac = <hmac::Hmac<sha2::Sha256> as hmac::digest::KeyInit>::new_from_slice(key)
        .expect("HMAC takes a key of any length");
    hmac::Mac::update(&mut mac, msg);
    hmac::Mac::finalize(mac).into_bytes().to_vec()
}

/// Relies on hmac::Mac::verify_slice: true exactly when `tag` is the
/// HMAC-SHA256 tag of `msg` under `key`, compared in constant time.
#[verifier::external_body]
pub(crate) fn hmac_sha256_verify(key: &[u8], msg: &[u8], tag: &[u8]) -> (r: bool)
    ensures
        r == (tag@ == hmac_sha256_of(key@, msg@)),
{
    let mut mac = <hmac::Hmac<sha2::Sha256> as hmac::digest::KeyInit>::new_from_slice(key)
        .expect("HMAC takes a key of any length");
    hmac::Mac::update(&mut mac, msg);
    hmac::Mac::verify_slice(mac, tag).is_ok()
}

/// Relies on serde_json::to_vec on a `str`, which cannot fail: the JSON
/// string literal for `s`.
#[verifier::external_body]
pub(crate) fn json_string(s: &str) -> (r: Vec<u8>)
    ensures
        r@ == json_string_of(s@),
{
    match serde_json::to_vec(s) {
        Ok(v) => v,
        Err(_) => Vec::new(),
    }
}

} // verus!
