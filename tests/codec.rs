use der6y::cipher::{decode_ns, decrypt, encode_ns, encrypt};
use der6y::digest::hs;
use der6y::error::SignError;
use base64::prelude::{Engine, BASE64_STANDARD};

fn is_lower_hex(s: &str) -> bool {
    s.chars().all(|c| c.is_ascii_digit() || ('a'..='f').contains(&c))
}

#[test]
fn digest_is_forty_lowercase_hex_digits() {
    for text in ["a", "hello world", "usernamepassword1", "~!@#$%^&*()"] {
        let d = hs(text);
        assert_eq!(d.len(), 40);
        assert!(is_lower_hex(&d));
        assert_eq!(hs(text), d);
    }
}

#[test]
fn digest_of_empty_text_is_still_forty_digits() {
    let d = hs("");
    assert_eq!(d.len(), 40);
    assert!(is_lower_hex(&d));
    assert_ne!(d, hs("x"));
}

#[test]
fn digest_differs_from_input_and_between_inputs() {
    assert_ne!(hs("usernamepassword1"), "usernamepassword1");
    assert_ne!(hs("abc"), hs("abd"));
}

#[test]
fn encrypt_then_decrypt_round_trips() {
    let keys = ["", "short", "0402881ea7c39c5d5017c39d143a8062b", "exactly16bytes!!"];
    let texts = ["", "a", "sixteen bytes!!!", "{\n  \"a\" : 1\n}", "跑步 🏃 route"];
    for key in keys {
        for text in texts {
            let ct = encrypt(text, key);
            assert_ne!(ct, text);
            assert_eq!(ct.len() % 4, 0);
            assert_eq!(decrypt(&ct, key), Ok(text.to_string()));
        }
    }
}

#[test]
fn ciphertext_has_one_padding_block_at_least() {
    // 16 bytes of input pad to 32 bytes, which base64 writes in 44 characters.
    assert_eq!(encrypt("sixteen bytes!!!", "k").len(), 44);
    assert_eq!(encrypt("", "k").len(), 24);
}

#[test]
fn keys_agree_on_their_first_sixteen_bytes() {
    let a = encrypt("payload", "0123456789abcdefXYZ");
    let b = encrypt("payload", "0123456789abcdef");
    assert_eq!(a, b);
    let c = encrypt("payload", "0123456789abcde");
    assert_ne!(a, c);
    // A short key is padded with zero bytes.
    assert_eq!(encrypt("payload", "abc"), encrypt("payload", "abc\0\0"));
}

#[test]
fn decrypt_rejects_text_that_is_not_base64() {
    assert_eq!(decrypt("not base64!", "key"), Err(SignError::Cipher));
    assert_eq!(decrypt("QUJD=", "key"), Err(SignError::Cipher));
}

#[test]
fn decrypt_rejects_partial_blocks_and_wrong_keys() {
    // Three bytes are not a whole block.
    assert_eq!(decrypt("QUJD", "key"), Err(SignError::Cipher));
    let ct = encrypt("some longer text to encrypt", "right key");
    match decrypt(&ct, "wrong key") {
        Ok(p) => assert_ne!(p, "some longer text to encrypt"),
        Err(e) => assert_eq!(e, SignError::Cipher),
    }
}

#[test]
fn encode_ns_round_trips_through_decode_ns() {
    let t = 1726836594123;
    let ct = encode_ns("{\"token\" : \"abc\"}", t).unwrap();
    assert_eq!(decode_ns(&ct, t).unwrap(), "{\"token\" : \"abc\"}");
}

#[test]
fn encode_ns_fails_on_short_timestamps() {
    assert_eq!(encode_ns("x", 1234567), Err(SignError::KeyOutOfRange));
    assert_eq!(decode_ns("x", -123456), Err(SignError::KeyOutOfRange));
}

#[test]
fn ciphertext_length_follows_the_plaintext_bytes() {
    for text in ["", "a", "fifteen bytes!!", "sixteen bytes!!!", "é", "a longer plaintext of forty-one bytes...."] {
        let s = encrypt(text, "key");
        let c = BASE64_STANDARD.decode(&s).unwrap();
        assert_eq!(c.len(), 16 * (text.len() / 16 + 1));
        assert_eq!(s.len(), 4 * ((c.len() + 2) / 3));
        assert!(s.chars().all(|ch| ch.is_ascii_alphanumeric() || ch == '+' || ch == '/' || ch == '='));
    }
}
