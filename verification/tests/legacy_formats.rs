//! Oracles for the legacy wire formats, built directly on the scrypt and
//! AES-CBC crates, and tests that the decoders and the dispatcher accept
//! what those formats produced.

use aes::cipher::block_padding::Pkcs7;
use aes::cipher::{BlockEncryptMut, KeyIvInit};
use rand::RngCore;
use violet_soul::dispatch::auto_decrypt;
use violet_soul::fileset::{git_salt_label, local_salt_label};
use violet_soul::legacy::{v2_decrypt, v3_decrypt};
use violet_soul::CipherError;

fn scrypt_key(pass: &str, salt: &str) -> [u8; 32] {
    let params = scrypt::Params::new(14, 8, 1, 32).unwrap();
    let mut key = [0u8; 32];
    scrypt::scrypt(pass.as_bytes(), salt.as_bytes(), &params, &mut key).unwrap();
    key
}

fn cbc_encrypt(key: &[u8; 32], plaintext: &[u8]) -> Vec<u8> {
    let mut iv = [0u8; 16];
    rand::thread_rng().fill_bytes(&mut iv);
    let cipher = cbc::Encryptor::<aes::Aes256>::new_from_slices(key, &iv).unwrap();
    let pad_len = 16 - (plaintext.len() % 16);
    let mut buf = vec![0u8; plaintext.len() + pad_len];
    buf[..plaintext.len()].copy_from_slice(plaintext);
    let ct = cipher
        .encrypt_padded_mut::<Pkcs7>(&mut buf, plaintext.len())
        .unwrap();
    let mut out = Vec::with_capacity(16 + ct.len());
    out.extend_from_slice(&iv);
    out.extend_from_slice(ct);
    out
}

/// The v2 writer: one CBC layer under the fixed-salt scrypt key.
fn v2_encode_oracle(pass: &str, plaintext: &[u8]) -> Vec<u8> {
    let key = scrypt_key(pass, "violet-soul-salt");
    cbc_encrypt(&key, plaintext)
}

/// The v3 writer: an inner CBC layer under the label-salted key, wrapped in
/// an outer CBC layer under the domain-suffixed key.
fn v3_encode_oracle(pass: &str, label: &str, plaintext: &[u8]) -> Vec<u8> {
    let inner_key = scrypt_key(pass, label);
    let inner = cbc_encrypt(&inner_key, plaintext);
    let outer_key = scrypt_key(&format!("{}-outer", pass), "violet-outer-shell-2026");
    cbc_encrypt(&outer_key, &inner)
}

#[test]
fn v2_decoder_inverts_the_v2_oracle() {
    let blob = v2_encode_oracle("pw", b"{\"legacy\":2}");
    let plain = v2_decrypt("pw", &blob).unwrap();
    assert_eq!(plain, b"{\"legacy\":2}".to_vec());
}

#[test]
fn v3_decoder_inverts_the_v3_oracle() {
    let blob = v3_encode_oracle("pw", local_salt_label(), b"{\"legacy\":3}");
    let plain = v3_decrypt("pw", local_salt_label(), &blob).unwrap();
    assert_eq!(plain, b"{\"legacy\":3}".to_vec());
}

#[test]
fn auto_decrypt_accepts_the_v3_oracle() {
    let blob = v3_encode_oracle("pw", local_salt_label(), b"{\"k\":\"v\"}");
    let s = auto_decrypt("pw", local_salt_label(), &blob).unwrap();
    assert_eq!(s, "{\"k\":\"v\"}");
}

#[test]
fn auto_decrypt_accepts_the_v2_oracle() {
    let blob = v2_encode_oracle("pw", b"{\"k\":2}");
    let s = auto_decrypt("pw", local_salt_label(), &blob).unwrap();
    assert_eq!(s, "{\"k\":2}");
}

#[test]
fn auto_decrypt_accepts_legacy_under_the_git_label_too() {
    let blob = v3_encode_oracle("pw", git_salt_label(), b"{}");
    let s = auto_decrypt("pw", git_salt_label(), &blob).unwrap();
    assert_eq!(s, "{}");
}

#[test]
fn legacy_decoders_reject_short_and_garbled_input() {
    assert_eq!(v2_decrypt("pw", &[0u8; 16]).unwrap_err(), CipherError::Malformed);
    assert_eq!(v2_decrypt("pw", &[]).unwrap_err(), CipherError::Malformed);
    let blob = v2_encode_oracle("pw", b"{\"legacy\":2}");
    assert!(v2_decrypt("other", &blob).is_err() || v2_decrypt("other", &blob).unwrap() != b"{\"legacy\":2}".to_vec());
}
