//! Request signing and route synthesis for a running-activity upload client.
//!
//! The library derives the keys and digests that the backend checks, encrypts
//! and decrypts the request envelopes, frames the signed records, and decides
//! which template vertices make up a synthesized track.

pub mod digest;
pub mod error;
pub mod keys;
pub mod cipher;
pub mod datetime;
pub mod json;
pub mod signing;
pub mod route;
pub mod logger;
