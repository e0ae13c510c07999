//! Tests of the per-file operations: placeholders, upgrades, leak
//! detection and the audit classifications, including the legacy upgrade
//! scenario built on a real v2 blob.

use aes::cipher::block_padding::Pkcs7;
use aes::cipher::{BlockEncryptMut, KeyIvInit};
use rand::RngCore;
use violet_soul::dispatch::auto_decrypt;
use violet_soul::envelope::v4_encrypt;
use violet_soul::fileset::{
    audit_enc, check_git_placeholder, decrypt_local_file, encrypt_local_file, git_salt_label,
    local_salt_label, make_git_placeholder, plaintext_leaks_key, re_encrypt_step, target_files,
    EncAudit, GitCheck,
};
use violet_soul::CipherError;

fn v2_blob(pass: &str, plaintext: &[u8]) -> Vec<u8> {
    let params = scrypt::Params::new(14, 8, 1, 32).unwrap();
    let mut key = [0u8; 32];
    scrypt::scrypt(pass.as_bytes(), b"violet-soul-salt", &params, &mut key).unwrap();
    let mut iv = [0u8; 16];
    rand::thread_rng().fill_bytes(&mut iv);
    let cipher = cbc::Encryptor::<aes::Aes256>::new_from_slices(&key, &iv).unwrap();
    let pad_len = 16 - (plaintext.len() % 16);
    let mut buf = vec![0u8; plaintext.len() + pad_len];
    buf[..plaintext.len()].copy_from_slice(plaintext);
    let ct = cipher
        .encrypt_padded_mut::<Pkcs7>(&mut buf, plaintext.len())
        .unwrap();
    let mut out = Vec::with_capacity(16 + ct.len());
    out.extend_from_slice(&iv);
    out.extend_from_slice(ct);
    out
}

#[test]
fn target_files_are_the_fixed_three() {
    let names = target_files();
    assert_eq!(
        names,
        vec!["rules-index.json", "minds-index.json", "vibe-library.json"]
    );
}

#[test]
fn git_placeholder_decodes_to_the_empty_document() {
    // encrypt_git followed by reading the placeholder back with the git
    // label yields exactly the two bytes `{}`.
    let blob = make_git_placeholder("pw").unwrap();
    assert_eq!(blob[0], 0x04);
    assert_eq!(blob.len(), 215);
    let s = auto_decrypt("pw", git_salt_label(), &blob).unwrap();
    assert_eq!(s, "{}");
    assert_eq!(check_git_placeholder("pw", &blob), GitCheck::Valid);
}

#[test]
fn git_placeholder_tolerates_unicode_whitespace_around_the_braces() {
    // The check trims what `str::trim` trims, not just ASCII whitespace.
    let padded = "\u{a0}{}\u{2003}\n";
    let blob = v4_encrypt("pw", git_salt_label(), padded.as_bytes()).unwrap();
    assert_eq!(check_git_placeholder("pw", &blob), GitCheck::Valid);
}

#[test]
fn git_placeholder_with_real_data_is_flagged() {
    let blob = v4_encrypt("pw", git_salt_label(), b"{\"secret\":1}").unwrap();
    assert_eq!(check_git_placeholder("pw", &blob), GitCheck::WrongContent);
}

#[test]
fn git_placeholder_check_fails_on_garbage() {
    assert!(matches!(
        check_git_placeholder("pw", &[0x33u8; 40]),
        GitCheck::Failed(CipherError::Auth)
    ));
}

#[test]
fn local_round_trip_through_the_file_operations() {
    let blob = encrypt_local_file("pw", b"{\"a\":1}\n").unwrap();
    let plain = decrypt_local_file("pw", &blob).unwrap();
    assert_eq!(plain, b"{\"a\":1}\n".to_vec());
}

#[test]
fn decrypt_local_writes_the_v2_plaintext() {
    // A v2 blob of `{}` under the fixed salt and passphrase `pw` placed
    // where a local ciphertext would sit decodes to `{}`.
    let blob = v2_blob("pw", b"{}");
    let plain = decrypt_local_file("pw", &blob).unwrap();
    assert_eq!(plain, b"{}".to_vec());
}

#[test]
fn re_encrypt_upgrades_legacy_and_then_stands_still() {
    let legacy = v2_blob("pw", b"{}");
    let upgraded = re_encrypt_step("pw", &legacy).unwrap().unwrap();
    assert_eq!(upgraded[0], 0x04);
    // The upgraded file still decodes to the same document.
    assert_eq!(auto_decrypt("pw", local_salt_label(), &upgraded).unwrap(), "{}");
    // A second pass recognises the v4 form and leaves the file untouched.
    assert_eq!(re_encrypt_step("pw", &upgraded).unwrap(), None);
}

#[test]
fn re_encrypt_skips_fresh_v4_files() {
    let blob = encrypt_local_file("pw", b"{\"fresh\":true}").unwrap();
    assert_eq!(re_encrypt_step("pw", &blob).unwrap(), None);
}

#[test]
fn leak_detector_finds_the_passphrase_exactly_when_present() {
    assert!(plaintext_leaks_key(b"config = { key: \"hunter2\" }", "hunter2"));
    assert!(!plaintext_leaks_key(b"config = { key: \"hunter\" }", "hunter2"));
    assert!(plaintext_leaks_key(b"hunter2", "hunter2"));
    // A file that is not UTF-8 text is never reported, as it would never
    // be read as a string.
    assert!(!plaintext_leaks_key(&[0xFF, 0xFE, 0x68], "h"));
}

#[test]
fn audit_reports_empty_and_clean_v4_files() {
    assert_eq!(audit_enc("pw", &[]), EncAudit::Empty);
    let good = encrypt_local_file("pw", b"{\"ok\":1}").unwrap();
    assert_eq!(audit_enc("pw", &good), EncAudit::V4Text);
}

#[test]
fn audit_flags_v4_files_that_are_not_text() {
    let binary = v4_encrypt("pw", local_salt_label(), &[0xFF, 0x00, 0xFE]).unwrap();
    assert_eq!(audit_enc("pw", &binary), EncAudit::V4Binary);
}

#[test]
fn audit_flags_tampered_v4_files() {
    let mut tampered = encrypt_local_file("pw", b"{}").unwrap();
    let mid = tampered.len() / 2;
    tampered[mid] ^= 0x10;
    assert_eq!(audit_enc("pw", &tampered), EncAudit::V4Failed(CipherError::Auth));
}

#[test]
fn audit_notes_readable_legacy_files() {
    let legacy = v2_blob("pw", b"{}");
    assert_eq!(audit_enc("pw", &legacy), EncAudit::LegacyText);
}

#[test]
fn audit_flags_undecodable_files() {
    assert_eq!(
        audit_enc("pw", &[0x29u8; 33]),
        EncAudit::LegacyFailed(CipherError::Auth)
    );
}

#[test]
fn audit_issue_flags_follow_the_classification() {
    assert!(EncAudit::Empty.is_issue());
    assert!(!EncAudit::V4Text.is_issue());
    assert!(EncAudit::V4Binary.is_issue());
    assert!(EncAudit::V4Failed(CipherError::Auth).is_issue());
    assert!(!EncAudit::LegacyText.is_issue());
    assert!(EncAudit::LegacyFailed(CipherError::Auth).is_issue());
    assert!(!GitCheck::Valid.is_issue());
    assert!(GitCheck::WrongContent.is_issue());
    assert!(GitCheck::Failed(CipherError::Auth).is_issue());
}
