//! Why a signing step failed.

use vstd::prelude::*;

verus! {

/// The stage at which deriving a key, encrypting, decrypting or framing a
/// record failed.
#[derive(Debug, Clone, Copy, PartialEq, Eq, Structural)]
pub enum SignError {
    /// An identifier or timestamp is shorter than the offsets that a key reads.
    KeyOutOfRange,
    /// A timestamp slice that a key reads is not a number, or its last
    /// character is not a decimal digit.
    KeyMalformed,
    /// A ciphertext is not base64, or does not decrypt under the key.
    Cipher,
    /// A date-time field is not of the form `YYYY-MM-DD HH:MM:SS`, or the
    /// shifted time cannot be written.
    Time,
}

} // verus!
