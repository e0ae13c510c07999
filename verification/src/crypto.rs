//! The cryptographic primitives the cipher calls in outside crates, each
//! behind a single trusted wrapper. The results of the key derivation,
//! MAC and cipher functions are deterministic functions of their arguments,
//! so each is given a name here that the contracts of the verified layers
//! speak of; nothing else is assumed of them beyond what the crates'
//! sources show.

use vstd::prelude::*;
use crate::CipherError;
use aes::cipher::block_padding::Pkcs7;
use aes::cipher::{BlockDecryptMut, KeyIvInit};
use aes_gcm::aead::Aead;
use aes_gcm::KeyInit;
use hmac::Mac;
use rand::RngCore;
use zeroize::Zeroize;

verus! {

/// The 32 bytes Argon2id (default parameters) derives from password and salt.
pub uninterp spec fn argon2_key(pwd: Seq<u8>, salt: Seq<u8>) -> Seq<u8>;

/// The 32 bytes scrypt with parameters (log n = 14, r = 8, p = 1) derives.
pub uninterp spec fn scrypt_key(pwd: Seq<u8>, salt: Seq<u8>) -> Seq<u8>;

/// The HMAC-SHA-256 tag of `data` under `key`.
pub uninterp spec fn hmac_sha256(key: Seq<u8>, data: Seq<u8>) -> Seq<u8>;

/// AES-256-GCM ciphertext-with-tag for the given key, nonce and plaintext.
pub uninterp spec fn aes_gcm_ct(key: Seq<u8>, nonce: Seq<u8>, pt: Seq<u8>) -> Seq<u8>;

/// ChaCha20-Poly1305 ciphertext-with-tag for the given key, nonce and plaintext.
pub uninterp spec fn chacha_ct(key: Seq<u8>, nonce: Seq<u8>, pt: Seq<u8>) -> Seq<u8>;

/// What AES-256-CBC/PKCS#7 decryption makes of the given key, IV and
/// ciphertext: the unpadded plaintext, or `None` when the input length or
/// padding is unacceptable.
pub uninterp spec fn cbc_plain(key: Seq<u8>, iv: Seq<u8>, ct: Seq<u8>) -> Option<Seq<u8>>;

/// Single-message plaintext ceiling under which both AEADs accept the input
/// (AES-GCM refuses beyond 2^36 bytes, ChaCha20-Poly1305 later still).
pub const AEAD_PT_MAX: u64 = 0x10_0000_0000;

/// Relies on `argon2::Argon2::hash_password_into` with the crate's default
/// parameters (Argon2id v19, 19 MiB, 2 iterations): with a salt of 8 to
/// 2^32 - 1 bytes and a password of at most 2^32 - 1 bytes it fills the
/// 32-byte output and cannot refuse.
#[verifier::external_body]
pub fn argon2_derive(pwd: &[u8], salt: &[u8]) -> (key: [u8; 32])
    requires
        8 <= salt@.len() <= 0xffff_ffff,
        pwd@.len() <= 0xffff_ffff,
    ensures
        key@ == argon2_key(pwd@, salt@),
{
    let mut key = [0u8; 32];
    argon2::Argon2::default()
        .hash_password_into(pwd, salt, &mut key)
        .expect("argon2 refused a valid input");
    key
}

/// Relies on `scrypt::scrypt` with parameters (log n = 14, r = 8, p = 1) and
/// a 32-byte output, for which `scrypt::Params::new` and the derivation
/// itself accept every password and salt.
#[verifier::external_body]
pub fn scrypt_derive(pwd: &[u8], salt: &[u8]) -> (key: [u8; 32])
    ensures
        key@ == scrypt_key(pwd@, salt@),
{
    let params = scrypt::Params::new(14, 8, 1, 32).expect("scrypt params");
    let mut key = [0u8; 32];
    scrypt::scrypt(pwd, salt, &params, &mut key).expect("scrypt refused a valid output length");
    key
}

/// Relies on `hmac::Hmac<sha2::Sha256>`: any key length is accepted and the
/// tag is 32 bytes.
#[verifier::external_body]
pub fn hmac_tag(key: &[u8], data: &[u8]) -> (tag: Vec<u8>)
    ensures
        tag@ == hmac_sha256(key@, data@),
        tag@.len() == 32,
{
    let mut mac = <hmac::Hmac<sha2::Sha256> as Mac>::new_from_slice(key).expect("HMAC init");
    mac.update(data);
    mac.finalize().into_bytes().to_vec()
}

/// Relies on `aes_gcm::Aes256Gcm::encrypt`: deterministic in key, nonce and
/// plaintext, appends a 16-byte tag, and accepts every plaintext up to
/// 2^36 bytes.
#[verifier::external_body]
pub fn aes_gcm_seal(key: &[u8; 32], nonce: &[u8], pt: &[u8]) -> (ct: Vec<u8>)
    requires
        nonce@.len() == 12,
        pt@.len() <= AEAD_PT_MAX,
    ensures
        ct@ == aes_gcm_ct(key@, nonce@, pt@),
        ct@.len() == pt@.len() + 16,
{
    let cipher = aes_gcm::Aes256Gcm::new_from_slice(key.as_slice()).expect("AES-GCM init");
    cipher
        .encrypt(aes_gcm::Nonce::from_slice(nonce), pt)
        .expect("AES-GCM encrypt within length bounds")
}

/// Relies on `aes_gcm::Aes256Gcm::decrypt`: it inverts `encrypt` under the
/// same key and nonce, returns only plaintexts whose re-encryption is the
/// input, and otherwise reports a failure.
#[verifier::external_body]
pub fn aes_gcm_open(key: &[u8; 32], nonce: &[u8], ct: &[u8]) -> (r: Result<Vec<u8>, CipherError>)
    requires
        nonce@.len() == 12,
    ensures
        r matches Ok(pt) ==> ct@ == aes_gcm_ct(key@, nonce@, pt@) && pt@.len() + 16 == ct@.len(),
        r matches Ok(p) ==> forall|pt: Seq<u8>|
            ct@ == #[trigger] aes_gcm_ct(key@, nonce@, pt) ==> p@ == pt,
        r is Err ==> forall|pt: Seq<u8>|
            pt.len() <= AEAD_PT_MAX ==> ct@ != #[trigger] aes_gcm_ct(key@, nonce@, pt),
        r matches Err(e) ==> e == CipherError::Auth,
{
    let cipher = aes_gcm::Aes256Gcm::new_from_slice(key.as_slice()).expect("AES-GCM init");
    cipher
        .decrypt(aes_gcm::Nonce::from_slice(nonce), ct)
        .map_err(|_| CipherError::Auth)
}

/// Relies on `chacha20poly1305::ChaCha20Poly1305::encrypt`: deterministic in
/// key, nonce and plaintext, appends a 16-byte tag, and accepts every
/// plaintext up to 2^36 bytes.
#[verifier::external_body]
pub fn chacha_seal(key: &[u8; 32], nonce: &[u8], pt: &[u8]) -> (ct: Vec<u8>)
    requires
        nonce@.len() == 12,
        pt@.len() <= AEAD_PT_MAX,
    ensures
        ct@ == chacha_ct(key@, nonce@, pt@),
        ct@.len() == pt@.len() + 16,
{
    let cipher = chacha20poly1305::ChaCha20Poly1305::new_from_slice(key.as_slice())
        .expect("ChaCha20 init");
    cipher
        .encrypt(chacha20poly1305::Nonce::from_slice(nonce), pt)
        .expect("ChaCha20 encrypt within length bounds")
}

/// Relies on `chacha20poly1305::ChaCha20Poly1305::decrypt`: it inverts
/// `encrypt` under the same key and nonce, returns only plaintexts whose
/// re-encryption is the input, and otherwise reports a failure.
#[verifier::external_body]
pub fn chacha_open(key: &[u8; 32], nonce: &[u8], ct: &[u8]) -> (r: Result<Vec<u8>, CipherError>)
    requires
        nonce@.len() == 12,
    ensures
        r matches Ok(pt) ==> ct@ == chacha_ct(key@, nonce@, pt@) && pt@.len() + 16 == ct@.len(),
        r matches Ok(p) ==> forall|pt: Seq<u8>|
            ct@ == #[trigger] chacha_ct(key@, nonce@, pt) ==> p@ == pt,
        r is Err ==> forall|pt: Seq<u8>|
            pt.len() <= AEAD_PT_MAX ==> ct@ != #[trigger] chacha_ct(key@, nonce@, pt),
        r matches Err(e) ==> e == CipherError::Auth,
{
    let cipher = chacha20poly1305::ChaCha20Poly1305::new_from_slice(key.as_slice())
        .expect("ChaCha20 init");
    cipher
        .decrypt(chacha20poly1305::Nonce::from_slice(nonce), ct)
        .map_err(|_| CipherError::Auth)
}

/// Relies on `cbc::Decryptor<aes::Aes256>` with `Pkcs7` unpadding: the
/// result is a deterministic function of key, IV and ciphertext, failing
/// exactly where the block length or the padding is unacceptable.
#[verifier::external_body]
pub fn cbc_open(key: &[u8; 32], iv: &[u8], ct: &[u8]) -> (r: Result<Vec<u8>, CipherError>)
    requires
        iv@.len() == 16,
    ensures
        r matches Ok(pt) ==> cbc_plain(key@, iv@, ct@) == Some(pt@) && pt@.len() <= ct@.len(),
        r is Err ==> cbc_plain(key@, iv@, ct@) is None,
        r matches Err(e) ==> e == CipherError::Auth,
{
    let cipher = cbc::Decryptor::<aes::Aes256>::new_from_slices(key.as_slice(), iv)
        .expect("CBC init");
    let mut buf = ct.to_vec();
    match cipher.decrypt_padded_mut::<Pkcs7>(&mut buf) {
        Ok(pt) => Ok(pt.to_vec()),
        Err(_) => Err(CipherError::Auth),
    }
}

/// Relies on `rand::thread_rng` and `RngCore::fill_bytes`: a
/// cryptographically secure source; nothing is assumed of the values drawn.
#[verifier::external_body]
pub fn fill_random(n: usize) -> (r: Vec<u8>)
    ensures
        r@.len() == n,
{
    let mut buf = vec![0u8; n];
    rand::thread_rng().fill_bytes(&mut buf);
    buf
}

/// Relies on `zeroize::Zeroize` for `Vec<u8>`: the buffer and its spare
/// capacity are overwritten with zeroes in a way the compiler keeps, and the
/// vector is left empty.
#[verifier::external_body]
pub fn wipe_vec(buf: &mut Vec<u8>)
    ensures
        final(buf)@.len() == 0,
{
    buf.zeroize();
}

/// Relies on `zeroize::Zeroize` for `[u8; 32]`: every byte is overwritten
/// with zero in a way the compiler keeps.
#[verifier::external_body]
pub fn wipe_key(key: &mut [u8; 32])
    ensures
        forall|i: int| 0 <= i < 32 ==> final(key)@[i] == 0u8,
{
    key.zeroize();
}

} // verus!
