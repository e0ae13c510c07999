//! The authenticated-encryption primitives in the wire form the envelope
//! uses: a fresh 12-byte random nonce in front of the ciphertext-with-tag,
//! for both AES-256-GCM and ChaCha20-Poly1305; and the unauthenticated
//! AES-256-CBC read primitive that only the legacy decoders touch.

use vstd::prelude::*;
use crate::bytes::sub_bytes;
use crate::crypto::{
    aes_gcm_ct, aes_gcm_open, aes_gcm_seal, cbc_open, cbc_plain, chacha_ct, chacha_open,
    chacha_seal, fill_random, AEAD_PT_MAX,
};
use crate::CipherError;

verus! {

/// Encrypt under AES-256-GCM: `nonce(12) ‖ ciphertext‖tag`.
pub fn encrypt_aes_gcm(key: &[u8; 32], plaintext: &[u8]) -> (r: Result<Vec<u8>, CipherError>)
    requires
        plaintext@.len() <= AEAD_PT_MAX,
    ensures
        r is Ok,
        r matches Ok(c) ==> c@.len() == plaintext@.len() + 28 && c@.subrange(12, c@.len() as int)
            == aes_gcm_ct(key@, c@.subrange(0, 12), plaintext@),
{
    let nonce = fill_random(12);
    let ct = aes_gcm_seal(key, nonce.as_slice(), plaintext);
    let mut out: Vec<u8> = Vec::new();
    out.extend_from_slice(nonce.as_slice());
    out.extend_from_slice(ct.as_slice());
    proof {
        assert(out@.subrange(0, 12) =~= nonce@);
        assert(out@.subrange(12, out@.len() as int) =~= ct@);
    }
    Ok(out)
}

/// Decrypt the AES-256-GCM wire form. Inputs shorter than a nonce and a
/// tag are malformed; an unaccepted tag is an authentication failure.
pub fn decrypt_aes_gcm(key: &[u8; 32], data: &[u8]) -> (r: Result<Vec<u8>, CipherError>)
    ensures
        data@.len() < 28 ==> (r matches Err(e) && e == CipherError::Malformed),
        r matches Ok(p) ==> data@.len() >= 28 && p@.len() + 28 == data@.len() && data@.subrange(
            12,
            data@.len() as int,
        ) == aes_gcm_ct(key@, data@.subrange(0, 12), p@),
        r matches Ok(p) ==> forall|pt: Seq<u8>|
            data@.subrange(12, data@.len() as int) == #[trigger] aes_gcm_ct(
                key@,
                data@.subrange(0, 12),
                pt,
            ) ==> p@ == pt,
        r is Err && data@.len() >= 28 ==> forall|pt: Seq<u8>|
            pt.len() <= AEAD_PT_MAX ==> data@.subrange(12, data@.len() as int)
                != #[trigger] aes_gcm_ct(key@, data@.subrange(0, 12), pt),
        r matches Err(e) ==> (data@.len() >= 28 ==> e == CipherError::Auth),
        r matches Err(e) ==> e == CipherError::Malformed || e == CipherError::Auth,
{
    let n = data.len();
    if n < 28 {
        return Err(CipherError::Malformed);
    }
    let nonce = sub_bytes(data, 0, 12);
    let ct = sub_bytes(data, 12, n);
    aes_gcm_open(key, nonce.as_slice(), ct.as_slice())
}

/// Encrypt under ChaCha20-Poly1305: `nonce(12) ‖ ciphertext‖tag`.
pub fn encrypt_chacha20(key: &[u8; 32], plaintext: &[u8]) -> (r: Result<Vec<u8>, CipherError>)
    requires
        plaintext@.len() <= AEAD_PT_MAX,
    ensures
        r is Ok,
        r matches Ok(c) ==> c@.len() == plaintext@.len() + 28 && c@.subrange(12, c@.len() as int)
            == chacha_ct(key@, c@.subrange(0, 12), plaintext@),
{
    let nonce = fill_random(12);
    let ct = chacha_seal(key, nonce.as_slice(), plaintext);
    let mut out: Vec<u8> = Vec::new();
    out.extend_from_slice(nonce.as_slice());
    out.extend_from_slice(ct.as_slice());
    proof {
        assert(out@.subrange(0, 12) =~= nonce@);
        assert(out@.subrange(12, out@.len() as int) =~= ct@);
    }
    Ok(out)
}

/// Decrypt the ChaCha20-Poly1305 wire form.
pub fn decrypt_chacha20(key: &[u8; 32], data: &[u8]) -> (r: Result<Vec<u8>, CipherError>)
    ensures
        data@.len() < 28 ==> (r matches Err(e) && e == CipherError::Malformed),
        r matches Ok(p) ==> data@.len() >= 28 && p@.len() + 28 == data@.len() && data@.subrange(
            12,
            data@.len() as int,
        ) == chacha_ct(key@, data@.subrange(0, 12), p@),
        r matches Ok(p) ==> forall|pt: Seq<u8>|
            data@.subrange(12, data@.len() as int) == #[trigger] chacha_ct(
                key@,
                data@.subrange(0, 12),
                pt,
            ) ==> p@ == pt,
        r is Err && data@.len() >= 28 ==> forall|pt: Seq<u8>|
            pt.len() <= AEAD_PT_MAX ==> data@.subrange(12, data@.len() as int)
                != #[trigger] chacha_ct(key@, data@.subrange(0, 12), pt),
        r matches Err(e) ==> (data@.len() >= 28 ==> e == CipherError::Auth),
        r matches Err(e) ==> e == CipherError::Malformed || e == CipherError::Auth,
{
    let n = data.len();
    if n < 28 {
        return Err(CipherError::Malformed);
    }
    let nonce = sub_bytes(data, 0, 12);
    let ct = sub_bytes(data, 12, n);
    chacha_open(key, nonce.as_slice(), ct.as_slice())
}

/// What decrypting a legacy `iv(16) ‖ ciphertext` blob under `key` yields:
/// `None` when the blob is shorter than an IV and one block, or when the
/// CBC layer rejects it.
pub open spec fn cbc_blob_plain(key: Seq<u8>, data: Seq<u8>) -> Option<Seq<u8>> {
    if data.len() < 32 {
        None
    } else {
        cbc_plain(key, data.subrange(0, 16), data.subrange(16, data.len() as int))
    }
}

/// Decrypt the legacy AES-256-CBC wire form `iv(16) ‖ ciphertext` with
/// PKCS#7 unpadding. No authentication: acceptance is the caller's business.
pub fn decrypt_aes_cbc(key: &[u8; 32], data: &[u8]) -> (r: Result<Vec<u8>, CipherError>)
    ensures
        data@.len() < 32 ==> (r matches Err(e) && e == CipherError::Malformed),
        r matches Ok(p) ==> cbc_blob_plain(key@, data@) == Some(p@) && p@.len() <= data@.len(),
        r is Err ==> cbc_blob_plain(key@, data@) is None,
        r matches Err(e) ==> e == CipherError::Malformed || e == CipherError::Auth,
{
    let n = data.len();
    if n < 32 {
        return Err(CipherError::Malformed);
    }
    let iv = sub_bytes(data, 0, 16);
    let ct = sub_bytes(data, 16, n);
    cbc_open(key, iv.as_slice(), ct.as_slice())
}

} // verus!
