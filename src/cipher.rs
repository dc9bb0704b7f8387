//! The block cipher codec: AES-128 in ECB mode with PKCS#7 padding, keyed by
//! the first sixteen bytes of a derived key string, exchanged as standard
//! base64.
//!
//! ECB mode and the zero-padded key reproduce the backend's own scheme, which
//! re-derives the same key from the same public inputs; they are kept as they
//! are for that reason alone.

use crate::error::SignError;
use crate::keys::{dynamic_key, dynamic_key_result, signed_decimal, signed_decimal_text};
use aes::cipher::{block_padding::Pkcs7, BlockDecryptMut, BlockEncryptMut, BlockSizeUser, KeyInit};
use base64::prelude::{Engine, BASE64_STANDARD};
use ecb::{Decryptor, Encryptor};
use vstd::prelude::*;
use vstd::utf8::{decode_utf8, encode_utf8, valid_utf8};

verus! {

broadcast use vstd::utf8::encode_utf8_valid_utf8, vstd::utf8::encode_utf8_decode_utf8;

/// The characters of standard base64, by value.
pub open spec fn base64_alphabet() -> Seq<char> {
    seq![
        'A', 'B', 'C', 'D', 'E', 'F', 'G', 'H', 'I', 'J', 'K', 'L', 'M', 'N', 'O', 'P',
        'Q', 'R', 'S', 'T', 'U', 'V', 'W', 'X', 'Y', 'Z', 'a', 'b', 'c', 'd', 'e', 'f',
        'g', 'h', 'i', 'j', 'k', 'l', 'm', 'n', 'o', 'p', 'q', 'r', 's', 't', 'u', 'v',
        'w', 'x', 'y', 'z', '0', '1', '2', '3', '4', '5', '6', '7', '8', '9', '+', '/',
    ]
}

pub open spec fn b64(v: int) -> char {
    base64_alphabet()[v]
}

/// Standard base64 with `=` padding and no line breaks.
pub open spec fn base64_of(b: Seq<u8>) -> Seq<char>
    decreases b.len(),
{
    if b.len() == 0 {
        seq![]
    } else if b.len() == 1 {
        seq![b64(b[0] as int / 4), b64((b[0] as int % 4) * 16), '=', '=']
    } else if b.len() == 2 {
        seq![
            b64(b[0] as int / 4),
            b64((b[0] as int % 4) * 16 + b[1] as int / 16),
            b64((b[1] as int % 16) * 4),
            '=',
        ]
    } else {
        seq![
            b64(b[0] as int / 4),
            b64((b[0] as int % 4) * 16 + b[1] as int / 16),
            b64((b[1] as int % 16) * 4 + b[2] as int / 64),
            b64(b[2] as int % 64),
        ] + base64_of(b.subrange(3, b.len() as int))
    }
}

/// Relies on base64's `STANDARD` engine (`Engine::encode`): padded standard
/// base64 of the input. Its length check cannot fail on a slice, which holds
/// at most `isize::MAX` bytes.
#[verifier::external_body]
fn base64_encode(b: &[u8]) -> (r: String)
    ensures
        r@ == base64_of(b@),
{
    BASE64_STANDARD.encode(b)
}

/// Relies on base64's `STANDARD` engine (`Engine::decode`), which requires
/// canonical padding and no trailing bits: it accepts exactly the padded
/// encodings of byte strings and returns the bytes encoded.
#[verifier::external_body]
fn base64_decode(s: &str) -> (r: Option<Vec<u8>>)
    ensures
        r is Some ==> base64_of(r->0@) == s@,
        forall|b: Seq<u8>| #[trigger] base64_of(b) == s@ ==> r is Some && r->0@ == b,
{
    BASE64_STANDARD.decode(s.as_bytes()).ok()
}

/// AES-128 in ECB mode with PKCS#7 padding, under a 16-byte key.
pub uninterp spec fn aes128_ecb_pkcs7_of(key: Seq<u8>, plain: Seq<u8>) -> Seq<u8>;

/// Relies on `ecb::Encryptor<aes::Aes128>` and `encrypt_padded_mut::<Pkcs7>`:
/// the input padded to whole blocks with PKCS#7 and each block encrypted
/// alone. The buffer holds a block more than the input, which the padding
/// needs at most; a slice holds at most `isize::MAX` bytes, so its size does
/// not overflow.
#[verifier::external_body]
fn ecb_encrypt(key: &[u8], plain: &[u8]) -> (r: Vec<u8>)
    requires
        key@.len() == 16,
    ensures
        r@ == aes128_ecb_pkcs7_of(key@, plain@),
        r@.len() == (plain@.len() / 16 + 1) * 16,
{
    let cipher = Encryptor::<aes::Aes128>::new(key.into());
    let mut buffer = vec![0u8; plain.len() + aes::Aes128::block_size()];
    buffer[..plain.len()].copy_from_slice(plain);
    match cipher.encrypt_padded_mut::<Pkcs7>(&mut buffer, plain.len()) {
        Ok(c) => c.to_vec(),
        Err(_) => Vec::new(),
    }
}

/// Relies on `ecb::Decryptor<aes::Aes128>` and
/// `decrypt_padded_b2b_mut::<Pkcs7>`: it inverts the encryption above, and
/// fails where the input is not whole blocks or the padding that comes out is
/// not strict PKCS#7.
#[verifier::external_body]
fn ecb_decrypt(key: &[u8], ct: &[u8]) -> (r: Option<Vec<u8>>)
    requires
        key@.len() == 16,
    ensures
        r is Some ==> aes128_ecb_pkcs7_of(key@, r->0@) == ct@,
        forall|p: Seq<u8>| #[trigger] aes128_ecb_pkcs7_of(key@, p) == ct@ ==> r is Some && r->0@ == p,
{
    let cipher = Decryptor::<aes::Aes128>::new(key.into());
    let mut buffer = vec![0u8; ct.len()];
    match cipher.decrypt_padded_b2b_mut::<Pkcs7>(ct, &mut buffer) {
        Ok(p) => Some(p.to_vec()),
        Err(_) => None,
    }
}

/// The text that `String::from_utf8_lossy` reads from a byte string.
pub uninterp spec fn utf8_lossy_of(b: Seq<u8>) -> Seq<char>;

/// Relies on `String::from_utf8_lossy`: the result depends on the bytes alone,
/// and valid UTF-8 is decoded as it stands.
#[verifier::external_body]
fn utf8_lossy(b: &[u8]) -> (r: String)
    ensures
        r@ == utf8_lossy_of(b@),
        valid_utf8(b@) ==> r@ == decode_utf8(b@),
{
    String::from_utf8_lossy(b).into_owned()
}

/// The cipher key of a key text: its UTF-8 bytes, cut or padded with zero
/// bytes to sixteen.
pub open spec fn key_block(k: Seq<u8>) -> Seq<u8> {
    Seq::new(16, |i: int| if i < k.len() { k[i] } else { 0u8 })
}

/// The ciphertext bytes of `plain` under the key text `key`.
pub open spec fn cipher_bytes(plain: Seq<u8>, key: Seq<char>) -> Seq<u8> {
    aes128_ecb_pkcs7_of(key_block(encode_utf8(key)), plain)
}

/// The base64 ciphertext of the text `plain` under the key text `key`.
pub open spec fn encrypt_text(plain: Seq<char>, key: Seq<char>) -> Seq<char> {
    base64_of(cipher_bytes(encode_utf8(plain), key))
}

/// Whether `text` is the base64 ciphertext of some byte string under `key`.
pub open spec fn is_cipher_text(text: Seq<char>, key: Seq<char>) -> bool {
    exists|b: Seq<u8>| base64_of(#[trigger] cipher_bytes(b, key)) == text
}

/// The byte string whose ciphertext under `key` is `text`.
pub open spec fn plain_bytes(text: Seq<char>, key: Seq<char>) -> Seq<u8> {
    choose|b: Seq<u8>| base64_of(#[trigger] cipher_bytes(b, key)) == text
}

fn key_bytes(key: &str) -> (r: Vec<u8>)
    ensures
        r@ == key_block(encode_utf8(key@)),
{
    let k = key.as_bytes();
    let mut r: Vec<u8> = Vec::new();
    let mut i: usize = 0;
    while i < 16
        invariant
            i <= 16,
            k@ == encode_utf8(key@),
            r@ == key_block(k@).subrange(0, i as int),
        decreases 16 - i,
    {
        if i < k.len() {
            r.push(k[i]);
        } else {
            r.push(0u8);
        }
        i = i + 1;
        assert(r@ =~= key_block(k@).subrange(0, i as int));
    }
    assert(r@ =~= key_block(k@));
    r
}

/// Encrypts `plain` under the key text `key`, as base64: the ciphertext is
/// one block more than the whole blocks of the plaintext bytes, and its text
/// is base64 characters and padding only, four for every three bytes begun.
pub fn encrypt(plain: &str, key: &str) -> (r: String)
    ensures
        r@ == encrypt_text(plain@, key@),
        cipher_bytes(encode_utf8(plain@), key@).len() == 16 * (encode_utf8(plain@).len() / 16 + 1),
        r@.len() == 4 * ((cipher_bytes(encode_utf8(plain@), key@).len() + 2) / 3),
        forall|i: int| 0 <= i < r@.len() ==> is_base64_char(#[trigger] r@[i]),
{
    let k = key_bytes(key);
    let ct = ecb_encrypt(k.as_slice(), plain.as_bytes());
    let r = base64_encode(ct.as_slice());
    proof {
        lemma_base64_shape(ct@);
    }
    r
}

/// A character of the base64 alphabet, or the padding `=`.
pub open spec fn is_base64_char(c: char) -> bool {
    c == '=' || exists|v: int| 0 <= v < 64 && #[trigger] base64_alphabet()[v] == c
}

proof fn lemma_base64_shape(b: Seq<u8>)
    ensures
        base64_of(b).len() == 4 * ((b.len() + 2) / 3),
        forall|i: int| 0 <= i < base64_of(b).len() ==> is_base64_char(#[trigger] base64_of(b)[i]),
    decreases b.len(),
{
    assert forall|v: int| 0 <= v < 64 implies is_base64_char(#[trigger] b64(v)) by {
        assert(base64_alphabet()[v] == b64(v));
    }
    if b.len() >= 3 {
        let rest = b.subrange(3, b.len() as int);
        lemma_base64_shape(rest);
        let head = seq![
            b64(b[0] as int / 4),
            b64((b[0] as int % 4) * 16 + b[1] as int / 16),
            b64((b[1] as int % 16) * 4 + b[2] as int / 64),
            b64(b[2] as int % 64),
        ];
        assert(base64_of(b) == head + base64_of(rest));
        assert forall|i: int| 0 <= i < base64_of(b).len() implies is_base64_char(
            #[trigger] base64_of(b)[i],
        ) by {
            if i >= 4 {
                assert(base64_of(b)[i] == base64_of(rest)[i - 4]);
            }
        }
    }
}

/// Decrypts the base64 ciphertext `text` under the key text `key`.
///
/// It succeeds exactly on the ciphertexts of byte strings under the key, and
/// gives back every text that `encrypt` encrypted under the same key.
pub fn decrypt(text: &str, key: &str) -> (r: Result<String, SignError>)
    ensures
        r is Ok <==> is_cipher_text(text@, key@),
        r is Ok ==> r->Ok_0@ == utf8_lossy_of(plain_bytes(text@, key@)),
        r is Ok && valid_utf8(plain_bytes(text@, key@)) ==> r->Ok_0@ == decode_utf8(
            plain_bytes(text@, key@),
        ),
        r is Err ==> r->Err_0 == SignError::Cipher,
        forall|p: Seq<char>| #[trigger] encrypt_text(p, key@) == text@ ==> r is Ok && r->Ok_0@ == p,
{
    let k = key_bytes(key);
    let ct = match base64_decode(text) {
        Some(ct) => ct,
        None => {
            assert(!is_cipher_text(text@, key@));
            return Err(SignError::Cipher);
        },
    };
    let plain = match ecb_decrypt(k.as_slice(), ct.as_slice()) {
        Some(p) => p,
        None => {
            assert forall|b: Seq<u8>| base64_of(#[trigger] cipher_bytes(b, key@)) != text@ by {
                if base64_of(cipher_bytes(b, key@)) == text@ {
                    assert(ct@ == cipher_bytes(b, key@));
                }
            }
            return Err(SignError::Cipher);
        },
    };
    proof {
        assert(base64_of(cipher_bytes(plain@, key@)) == text@);
        let b = plain_bytes(text@, key@);
        assert(base64_of(cipher_bytes(b, key@)) == text@);
        assert(ct@ == cipher_bytes(b, key@));
        assert(b == plain@);
    }
    Ok(utf8_lossy(plain.as_slice()))
}

/// Encrypts `text` under the time key of the millisecond timestamp `t`.
pub fn encode_ns(text: &str, t: i64) -> (r: Result<String, SignError>)
    ensures
        match dynamic_key_result(signed_decimal(t as int)) {
            Ok(k) => r is Ok && r->Ok_0@ == encrypt_text(text@, k),
            Err(e) => r == Err::<String, SignError>(e),
        },
{
    let key = dynamic_key(signed_decimal_text(t).as_str())?;
    Ok(encrypt(text, key.as_str()))
}

/// Decrypts `text` under the time key of the millisecond timestamp `t`.
pub fn decode_ns(text: &str, t: i64) -> (r: Result<String, SignError>)
    ensures
        match dynamic_key_result(signed_decimal(t as int)) {
            Ok(k) => {
                &&& r is Ok <==> is_cipher_text(text@, k)
                &&& r is Ok ==> r->Ok_0@ == utf8_lossy_of(plain_bytes(text@, k))
                &&& r is Ok && valid_utf8(plain_bytes(text@, k)) ==> r->Ok_0@ == decode_utf8(
                    plain_bytes(text@, k),
                )
                &&& r is Err ==> r->Err_0 == SignError::Cipher
                &&& forall|p: Seq<char>| #[trigger] encrypt_text(p, k) == text@ ==> r is Ok && r->Ok_0@ == p
            },
            Err(e) => r == Err::<String, SignError>(e),
        },
{
    let key = dynamic_key(signed_decimal_text(t).as_str())?;
    decrypt(text, key.as_str())
}

} // verus!
