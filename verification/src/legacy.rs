//! Read-only decoders for the two legacy wire formats: v2 is one layer of
//! scrypt-keyed AES-256-CBC, v3 wraps another CBC layer around it with a
//! domain-suffixed outer key. Neither carries authentication; the dispatcher
//! decides acceptability by checking that the decrypted bytes are UTF-8.

use vstd::prelude::*;
use vstd::string::StringSliceAdditionalSpecFns;
use crate::aead::{cbc_blob_plain, decrypt_aes_cbc};
use crate::crypto::{scrypt_derive, scrypt_key, wipe_key};
use crate::CipherError;

verus! {

/// The bytes of `"violet-soul-salt"`, the fixed v2 scrypt salt.
pub open spec fn legacy_v2_salt() -> Seq<u8> {
    seq![
        0x76u8, 0x69, 0x6f, 0x6c, 0x65, 0x74, 0x2d, 0x73,
        0x6f, 0x75, 0x6c, 0x2d, 0x73, 0x61, 0x6c, 0x74,
    ]
}

/// The bytes of `"violet-outer-shell-2026"`, the fixed v3 outer scrypt salt.
pub open spec fn legacy_outer_salt() -> Seq<u8> {
    seq![
        0x76u8, 0x69, 0x6f, 0x6c, 0x65, 0x74, 0x2d, 0x6f,
        0x75, 0x74, 0x65, 0x72, 0x2d, 0x73, 0x68, 0x65,
        0x6c, 0x6c, 0x2d, 0x32, 0x30, 0x32, 0x36,
    ]
}

/// The bytes of `"-outer"`, appended to the passphrase for the v3 outer key.
pub open spec fn legacy_outer_suffix() -> Seq<u8> {
    seq![0x2du8, 0x6f, 0x75, 0x74, 0x65, 0x72]
}

/// What the v3 decoder yields: the outer CBC layer under the
/// `pass ‖ "-outer"` scrypt key, then the inner CBC layer under the
/// label-salted scrypt key.
pub open spec fn v3_plain(pass: Seq<u8>, label: Seq<u8>, data: Seq<u8>) -> Option<Seq<u8>> {
    match cbc_blob_plain(scrypt_key(pass + legacy_outer_suffix(), legacy_outer_salt()), data) {
        Some(inner) => cbc_blob_plain(scrypt_key(pass, label), inner),
        None => None,
    }
}

/// What the v2 decoder yields: one CBC layer under the fixed-salt scrypt key.
pub open spec fn v2_plain(pass: Seq<u8>, data: Seq<u8>) -> Option<Seq<u8>> {
    cbc_blob_plain(scrypt_key(pass, legacy_v2_salt()), data)
}

/// Decode a v3 blob: two nested CBC layers with domain-separated scrypt keys.
pub fn v3_decrypt(passphrase: &str, salt: &str, data: &[u8]) -> (r: Result<Vec<u8>, CipherError>)
    ensures
        r matches Ok(p) ==> v3_plain(passphrase.spec_bytes(), salt.spec_bytes(), data@) == Some(
            p@,
        ) && p@.len() <= data@.len(),
        r is Err ==> v3_plain(passphrase.spec_bytes(), salt.spec_bytes(), data@) is None,
        r matches Err(e) ==> e == CipherError::Malformed || e == CipherError::Auth,
{
    let suffix: [u8; 6] = [0x2du8, 0x6f, 0x75, 0x74, 0x65, 0x72];
    let outer_salt: [u8; 23] = [
        0x76u8, 0x69, 0x6f, 0x6c, 0x65, 0x74, 0x2d, 0x6f,
        0x75, 0x74, 0x65, 0x72, 0x2d, 0x73, 0x68, 0x65,
        0x6c, 0x6c, 0x2d, 0x32, 0x30, 0x32, 0x36,
    ];
    proof {
        assert(suffix@ =~= legacy_outer_suffix());
        assert(outer_salt@ =~= legacy_outer_salt());
    }
    let mut outer_input: Vec<u8> = Vec::new();
    outer_input.extend_from_slice(passphrase.as_bytes());
    outer_input.extend_from_slice(suffix.as_slice());
    proof {
        assert(outer_input@ =~= passphrase.spec_bytes() + legacy_outer_suffix());
    }
    let mut outer_key = scrypt_derive(outer_input.as_slice(), outer_salt.as_slice());
    let outer_res = decrypt_aes_cbc(&outer_key, data);
    wipe_key(&mut outer_key);
    let inner_blob = match outer_res {
        Ok(p) => p,
        Err(e) => { return Err(e); },
    };
    let mut inner_key = scrypt_derive(passphrase.as_bytes(), salt.as_bytes());
    let inner_res = decrypt_aes_cbc(&inner_key, inner_blob.as_slice());
    wipe_key(&mut inner_key);
    inner_res
}

/// Decode a v2 blob: a single CBC layer under the fixed-salt scrypt key.
pub fn v2_decrypt(passphrase: &str, data: &[u8]) -> (r: Result<Vec<u8>, CipherError>)
    ensures
        r matches Ok(p) ==> v2_plain(passphrase.spec_bytes(), data@) == Some(p@) && p@.len()
            <= data@.len(),
        r is Err ==> v2_plain(passphrase.spec_bytes(), data@) is None,
        r matches Err(e) ==> e == CipherError::Malformed || e == CipherError::Auth,
{
    let v2_salt: [u8; 16] = [
        0x76u8, 0x69, 0x6f, 0x6c, 0x65, 0x74, 0x2d, 0x73,
        0x6f, 0x75, 0x6c, 0x2d, 0x73, 0x61, 0x6c, 0x74,
    ];
    proof {
        assert(v2_salt@ =~= legacy_v2_salt());
    }
    let mut key = scrypt_derive(passphrase.as_bytes(), v2_salt.as_slice());
    let r = decrypt_aes_cbc(&key, data);
    wipe_key(&mut key);
    r
}

} // verus!
