//! Key derivation. The current format runs Argon2id over the passphrase
//! bytes with the embedded seed appended, binding every key to this build;
//! the legacy formats run scrypt over the passphrase alone. The concatenated
//! passphrase-and-seed buffer is wiped before this module returns.

use vstd::prelude::*;
use vstd::string::StringSliceAdditionalSpecFns;
use crate::crypto::{argon2_derive, argon2_key, scrypt_derive, scrypt_key, wipe_vec};
use crate::seed::{derive_embedded_key, seed_bytes};
use crate::CipherError;

verus! {

/// Longest passphrase-plus-seed input the Argon2 library accepts.
pub const KDF_INPUT_MAX: usize = 0xffff_ffff;

/// Derive a 32-byte key for the current format: Argon2id over
/// `pass ‖ seed` with the given salt. Fails only when the combined input
/// overruns what the KDF accepts.
pub fn derive_key_argon2_with(seed: &[u8; 32], pass: &[u8], salt: &[u8]) -> (r: Result<
    [u8; 32],
    CipherError,
>)
    requires
        8 <= salt@.len() <= 0xffff_ffff,
    ensures
        r matches Ok(k) ==> k@ == argon2_key(pass@ + seed@, salt@),
        r matches Err(e) ==> e == CipherError::Kdf,
        pass@.len() + 32 <= KDF_INPUT_MAX ==> r is Ok,
{
    if pass.len() > KDF_INPUT_MAX - 32 {
        return Err(CipherError::Kdf);
    }
    let mut combined: Vec<u8> = Vec::new();
    combined.extend_from_slice(pass);
    combined.extend_from_slice(seed.as_slice());
    proof {
        assert(combined@ =~= pass@ + seed@);
    }
    let key = argon2_derive(combined.as_slice(), salt);
    wipe_vec(&mut combined);
    Ok(key)
}

/// Derive a 32-byte key from a passphrase and salt for the current format,
/// mixing in the seed embedded in this build.
pub fn derive_key_argon2(passphrase: &str, salt: &[u8]) -> (r: Result<[u8; 32], CipherError>)
    requires
        8 <= salt@.len() <= 0xffff_ffff,
    ensures
        r matches Ok(k) ==> k@ == argon2_key(passphrase.spec_bytes() + seed_bytes(), salt@),
        r matches Err(e) ==> e == CipherError::Kdf,
        passphrase.spec_bytes().len() + 32 <= KDF_INPUT_MAX ==> r is Ok,
{
    let seed = derive_embedded_key();
    derive_key_argon2_with(&seed, passphrase.as_bytes(), salt)
}

/// Derive a 32-byte key for the legacy formats: scrypt with parameters
/// (log n = 14, r = 8, p = 1) over the passphrase alone — the embedded seed
/// is not mixed in, matching the old wire format.
pub fn derive_key_scrypt(passphrase: &str, salt: &str) -> (r: Result<[u8; 32], CipherError>)
    ensures
        r matches Ok(k) && k@ == scrypt_key(passphrase.spec_bytes(), salt.spec_bytes()),
{
    Ok(scrypt_derive(passphrase.as_bytes(), salt.as_bytes()))
}

} // verus!
