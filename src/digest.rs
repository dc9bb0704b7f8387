//! The salted SHA-1 digest used to sign login and upload requests.

use sha1::{Digest, Sha1};
use vstd::prelude::*;
use vstd::utf8::encode_utf8;

verus! {

/// The salt appended to every digested text.
pub const SALT: &'static str = "itauVfnexHiRigZ6";

/// The SHA-1 digest of a byte string.
pub uninterp spec fn sha1_of(data: Seq<u8>) -> Seq<u8>;

/// Relies on `sha1::Sha1` through `Digest::digest`: the 20-byte SHA-1 digest of
/// the input.
#[verifier::external_body]
fn sha1_digest(data: &[u8]) -> (r: Vec<u8>)
    ensures
        r@ == sha1_of(data@),
        r@.len() == 20,
{
    Sha1::digest(data).to_vec()
}

/// The lowercase hexadecimal digits, by value.
pub open spec fn hex_alphabet() -> Seq<char> {
    seq!['0', '1', '2', '3', '4', '5', '6', '7', '8', '9', 'a', 'b', 'c', 'd', 'e', 'f']
}

/// Two lowercase hexadecimal digits per byte, high nibble first.
pub open spec fn hex_lower(b: Seq<u8>) -> Seq<char> {
    Seq::new(
        2 * b.len(),
        |i: int|
            if i % 2 == 0 {
                hex_alphabet()[b[i / 2] as int / 16]
            } else {
                hex_alphabet()[b[i / 2] as int % 16]
            },
    )
}

pub open spec fn is_lower_hex(c: char) -> bool {
    ('0' <= c && c <= '9') || ('a' <= c && c <= 'f')
}

/// Relies on `hex::encode`: two lowercase digits per byte, high nibble first.
#[verifier::external_body]
fn hex_encode(b: &[u8]) -> (r: String)
    ensures
        r@ == hex_lower(b@),
{
    hex::encode(b)
}

/// The digest of `text`: SHA-1 over its UTF-8 bytes followed by the salt, in
/// lowercase hexadecimal.
pub open spec fn digest_text(text: Seq<char>) -> Seq<char> {
    hex_lower(sha1_of(encode_utf8(text + SALT@)))
}

proof fn lemma_hex_lower_digits(b: Seq<u8>)
    ensures
        hex_lower(b).len() == 2 * b.len(),
        forall|i: int| 0 <= i < hex_lower(b).len() ==> is_lower_hex(#[trigger] hex_lower(b)[i]),
{
    assert forall|k: int| 0 <= k < 16 implies is_lower_hex(#[trigger] hex_alphabet()[k]) by {
        assert(k == 0 || k == 1 || k == 2 || k == 3 || k == 4 || k == 5 || k == 6 || k == 7
            || k == 8 || k == 9 || k == 10 || k == 11 || k == 12 || k == 13 || k == 14 || k == 15);
    }
    assert forall|i: int| 0 <= i < hex_lower(b).len() implies is_lower_hex(
        #[trigger] hex_lower(b)[i],
    ) by {
        let v = b[i / 2] as int;
        assert(0 <= v / 16 < 16);
        assert(0 <= v % 16 < 16);
    }
}

/// Digests `text` with the salt: 40 lowercase hexadecimal digits that depend
/// on `text` alone.
pub fn hs(text: &str) -> (r: String)
    ensures
        r@ == digest_text(text@),
        r@.len() == 40,
        forall|i: int| 0 <= i < 40 ==> is_lower_hex(#[trigger] r@[i]),
{
    let mut salted = String::from_str(text);
    salted.append(SALT);
    let sum = sha1_digest(salted.as_str().as_bytes());
    let r = hex_encode(sum.as_slice());
    proof {
        lemma_hex_lower_digits(sum@);
    }
    r
}

} // verus!
