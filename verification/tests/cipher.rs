use violet_soul::dispatch::{auto_decrypt, auto_decrypt_bytes};
use violet_soul::envelope::{v4_decrypt, v4_decrypt_with_seed, v4_encrypt};
use violet_soul::fileset::{git_salt_label, local_salt_label};
use violet_soul::seed::derive_embedded_key;
use violet_soul::CipherError;

#[test]
fn embedded_seed_is_the_masked_literal() {
    let literal: [u8; 32] = *b"V10l3t-C1ph3r-S33d-2026-Kl4ud1a!";
    let seed = derive_embedded_key();
    for i in 0..32usize {
        let mask = ((i as u32 * 0x5A + 0x3C) % 256) as u8;
        assert_eq!(seed[i], literal[i] ^ mask);
    }
}

#[test]
fn v4_round_trip_returns_the_same_bytes() {
    // Passphrase "correct horse", plaintext of 8 bytes, local label.
    let plaintext = b"{\"a\":1}\n";
    let blob = v4_encrypt("correct horse", local_salt_label(), plaintext).unwrap();
    assert_eq!(blob[0], 0x04);
    assert_eq!(blob.len(), plaintext.len() + 213);
    let plain = v4_decrypt("correct horse", local_salt_label(), &blob).unwrap();
    assert_eq!(plain, plaintext.to_vec());
}

#[test]
fn v4_flipping_the_last_byte_is_an_auth_error() {
    let plaintext = b"{\"a\":1}\n";
    let mut blob = v4_encrypt("correct horse", local_salt_label(), plaintext).unwrap();
    let last = blob.len() - 1;
    blob[last] ^= 0x01;
    assert_eq!(
        v4_decrypt("correct horse", local_salt_label(), &blob).unwrap_err(),
        CipherError::Auth
    );
}

#[test]
fn v4_label_mismatch_is_an_auth_error() {
    let blob = v4_encrypt("correct horse", local_salt_label(), b"secret").unwrap();
    assert_eq!(
        v4_decrypt("correct horse", git_salt_label(), &blob).unwrap_err(),
        CipherError::Auth
    );
    let blob = v4_encrypt("correct horse", git_salt_label(), b"secret").unwrap();
    assert_eq!(
        v4_decrypt("correct horse", local_salt_label(), &blob).unwrap_err(),
        CipherError::Auth
    );
}

#[test]
fn v4_wrong_passphrase_is_an_auth_error() {
    let blob = v4_encrypt("correct horse", local_salt_label(), b"secret").unwrap();
    assert_eq!(
        v4_decrypt("battery staple", local_salt_label(), &blob).unwrap_err(),
        CipherError::Auth
    );
}

#[test]
fn v4_two_encryptions_differ() {
    let a = v4_encrypt("pw", local_salt_label(), b"same plaintext").unwrap();
    let b = v4_encrypt("pw", local_salt_label(), b"same plaintext").unwrap();
    assert_ne!(a, b);
}

#[test]
fn v4_tampering_anywhere_in_the_body_is_detected() {
    let blob = v4_encrypt("pw", local_salt_label(), b"payload").unwrap();
    // A sample of positions across salt, nonce, ciphertext and tag.
    for &pos in &[1usize, 20, 33, 40, 60, blob.len() / 2, blob.len() - 33, blob.len() - 5] {
        let mut bad = blob.clone();
        bad[pos] ^= 0x80;
        assert_eq!(
            v4_decrypt("pw", local_salt_label(), &bad).unwrap_err(),
            CipherError::Auth,
            "position {}",
            pos
        );
    }
}

#[test]
fn v4_flipped_version_byte_is_a_version_error() {
    let mut blob = v4_encrypt("pw", local_salt_label(), b"payload").unwrap();
    blob[0] ^= 0x01;
    assert_eq!(
        v4_decrypt("pw", local_salt_label(), &blob).unwrap_err(),
        CipherError::Version
    );
}

#[test]
fn v4_short_input_is_malformed() {
    assert_eq!(
        v4_decrypt("pw", local_salt_label(), &[0x04; 92]).unwrap_err(),
        CipherError::Malformed
    );
    assert_eq!(
        v4_decrypt("pw", local_salt_label(), &[]).unwrap_err(),
        CipherError::Malformed
    );
}

#[test]
fn v4_version_check_precedes_the_length_check() {
    // A nonempty input that is not v4 is a version error even when it is
    // also far too short; only empty input is plain malformed.
    assert_eq!(
        v4_decrypt("pw", local_salt_label(), &[0x05]).unwrap_err(),
        CipherError::Version
    );
    assert_eq!(
        v4_decrypt("pw", local_salt_label(), &[0x03; 40]).unwrap_err(),
        CipherError::Version
    );
}

#[test]
fn v4_decryption_under_another_seed_fails_fast() {
    // The seam for binary binding: an unmodified blob must not decrypt
    // under any other 32-byte seed.
    let blob = v4_encrypt("pw", local_salt_label(), b"bound to this build").unwrap();
    let other_seed = [0xA5u8; 32];
    assert_eq!(
        v4_decrypt_with_seed(&other_seed, "pw", local_salt_label(), &blob).unwrap_err(),
        CipherError::Auth
    );
    let mut tweaked = derive_embedded_key();
    tweaked[7] ^= 0x01;
    assert_eq!(
        v4_decrypt_with_seed(&tweaked, "pw", local_salt_label(), &blob).unwrap_err(),
        CipherError::Auth
    );
}

#[test]
fn auto_decrypt_returns_v4_text() {
    let blob = v4_encrypt("pw", local_salt_label(), b"hello json").unwrap();
    let s = auto_decrypt("pw", local_salt_label(), &blob).unwrap();
    assert_eq!(s, "hello json");
}

#[test]
fn auto_decrypt_rejects_non_utf8_v4_plaintext() {
    let blob = v4_encrypt("pw", local_salt_label(), &[0xFF, 0xFE, 0x00]).unwrap();
    assert_eq!(
        auto_decrypt_bytes("pw", local_salt_label(), &blob).unwrap_err(),
        CipherError::Encoding
    );
    assert_eq!(
        auto_decrypt("pw", local_salt_label(), &blob).unwrap_err(),
        CipherError::Encoding
    );
}

#[test]
fn auto_decrypt_never_retries_a_corrupted_v4_blob_as_legacy() {
    // A blob that carries the v4 version byte but fails authentication is
    // a terminal failure: the answer is the v4 auth error, not a legacy
    // trial's outcome.
    let mut blob = v4_encrypt("pw", local_salt_label(), b"{}").unwrap();
    let mid = blob.len() / 2;
    blob[mid] ^= 0x40;
    assert_eq!(
        auto_decrypt("pw", local_salt_label(), &blob).unwrap_err(),
        CipherError::Auth
    );
}

#[test]
fn auto_decrypt_consolidates_legacy_failures() {
    // No version byte, nothing decodable: one consolidated auth error.
    let garbage = [0x17u8; 64];
    assert_eq!(
        auto_decrypt("pw", local_salt_label(), &garbage).unwrap_err(),
        CipherError::Auth
    );
}
