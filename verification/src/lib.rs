//! Versioned, authenticated, multi-layer encryption for a fixed set of JSON
//! data files, together with the small pure utilities of the sibling font
//! tooling that share this crate.
//!
//! The heart of the crate is the v4 envelope: three nested AEAD layers
//! (AES-GCM, ChaCha20-Poly1305, AES-GCM) with domain-separated Argon2id keys,
//! an outer HMAC-SHA-256 tag under a build-embedded seed, and read-only
//! support for the legacy v2/v3 scrypt + AES-CBC formats.

use vstd::prelude::*;

pub mod aead;
pub mod bytes;
pub mod charset;
pub mod crypto;
pub mod dispatch;
pub mod envelope;
pub mod fileset;
pub mod kdf;
pub mod legacy;
pub mod seed;

verus! {

/// Leading byte that marks a current-format (v4) envelope.
pub const VERSION_V4: u8 = 0x04;

/// Everything the cipher core can report to a caller.
#[derive(Clone, Copy, Debug, PartialEq, Eq, Structural)]
pub enum CipherError {
    /// The leading byte is not `0x04` where a v4 envelope was required.
    Version,
    /// The input is shorter than the minimum for its format.
    Malformed,
    /// Outer HMAC mismatch, an AEAD tag failure, or every legacy fallback failed.
    Auth,
    /// The key-derivation function refused its input.
    Kdf,
    /// Decrypted bytes are not valid UTF-8 where text was expected.
    Encoding,
    /// A file read or write failed; produced only by callers that do I/O.
    Io,
}

} // verus!
