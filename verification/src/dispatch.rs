//! The auto-detect dispatcher. A blob whose first byte is `0x04` is decoded
//! as v4 and any failure there is terminal: v4 is authenticated, so a
//! failure is a real failure, never a format mismatch. Anything else is
//! tried as v3 and then v2, each accepted only if the decrypted bytes are
//! valid UTF-8; when neither fits, one consolidated failure is reported.

use vstd::prelude::*;
use vstd::string::StringSliceAdditionalSpecFns;
use vstd::utf8::{decode_utf8, valid_utf8};
use crate::bytes::bytes_to_string;
use crate::crypto::hmac_sha256;
use crate::envelope::{is_v4_encryption_of, v4_body_of, v4_decrypt, v4_tag_of, V4_PASS_MAX, V4_PT_MAX};
use crate::legacy::{v2_decrypt, v2_plain, v3_decrypt, v3_plain};
use crate::seed::seed_bytes;
use crate::{CipherError, VERSION_V4};

verus! {

/// The dispatcher hands a blob to the v4 decoder exactly when it is
/// nonempty and leads with the v4 version byte.
pub open spec fn routes_to_v4(data: Seq<u8>) -> bool {
    data.len() > 0 && data[0] == VERSION_V4
}

/// What the v3 trial accepts: bytes the v3 decoder yields, provided they
/// are valid UTF-8.
pub open spec fn v3_accepts(pass: Seq<u8>, label: Seq<u8>, data: Seq<u8>) -> Option<Seq<u8>> {
    match v3_plain(pass, label, data) {
        Some(p) => if valid_utf8(p) {
            Some(p)
        } else {
            None
        },
        None => None,
    }
}

/// What the v2 trial accepts: bytes the v2 decoder yields, provided they
/// are valid UTF-8.
pub open spec fn v2_accepts(pass: Seq<u8>, data: Seq<u8>) -> Option<Seq<u8>> {
    match v2_plain(pass, data) {
        Some(p) => if valid_utf8(p) {
            Some(p)
        } else {
            None
        },
        None => None,
    }
}

/// Decode a blob of any supported version into its plaintext bytes,
/// which are guaranteed valid UTF-8.
pub fn auto_decrypt_bytes(passphrase: &str, salt: &str, data: &[u8]) -> (r: Result<
    Vec<u8>,
    CipherError,
>)
    ensures
        r matches Ok(p) ==> valid_utf8(p@) && p@.len() <= data@.len(),
        r matches Ok(p) ==> (routes_to_v4(data@) ==> forall|pt: Seq<u8>|
            #[trigger] is_v4_encryption_of(passphrase.spec_bytes(), salt.spec_bytes(), pt, data@)
                ==> p@ == pt),
        r is Err && passphrase.spec_bytes().len() + salt.spec_bytes().len() <= V4_PASS_MAX ==> (
        routes_to_v4(data@) ==> forall|pt: Seq<u8>|
            #[trigger] is_v4_encryption_of(passphrase.spec_bytes(), salt.spec_bytes(), pt, data@)
                ==> !valid_utf8(pt)),
        routes_to_v4(data@) && data@.len() < 93 ==> (r matches Err(e) && e
            == CipherError::Malformed),
        routes_to_v4(data@) && data@.len() >= 93 && hmac_sha256(seed_bytes(), v4_body_of(data@))
            != v4_tag_of(data@) ==> (r matches Err(e) && e == CipherError::Auth),
        r matches Ok(p) ==> (routes_to_v4(data@) && data@.len() <= V4_PT_MAX + 213
            ==> is_v4_encryption_of(passphrase.spec_bytes(), salt.spec_bytes(), p@, data@)),
        routes_to_v4(data@) && passphrase.spec_bytes().len() + salt.spec_bytes().len()
            <= V4_PASS_MAX && (exists|pt: Seq<u8>|
            #[trigger] is_v4_encryption_of(passphrase.spec_bytes(), salt.spec_bytes(), pt, data@)
                && !valid_utf8(pt)) ==> (r matches Err(e) && e == CipherError::Encoding),
        r matches Ok(p) ==> (!routes_to_v4(data@) ==> (v3_accepts(
            passphrase.spec_bytes(),
            salt.spec_bytes(),
            data@,
        ) matches Some(t) ==> p@ == t)),
        r matches Ok(p) ==> (!routes_to_v4(data@) && v3_accepts(
            passphrase.spec_bytes(),
            salt.spec_bytes(),
            data@,
        ) is None ==> (v2_accepts(passphrase.spec_bytes(), data@) matches Some(t) && p@ == t)),
        r is Err ==> (!routes_to_v4(data@) ==> v3_accepts(
            passphrase.spec_bytes(),
            salt.spec_bytes(),
            data@,
        ) is None && v2_accepts(passphrase.spec_bytes(), data@) is None),
        r matches Err(e) ==> (!routes_to_v4(data@) ==> e == CipherError::Auth),
{
    let ghost pb = passphrase.spec_bytes();
    let ghost lb = salt.spec_bytes();
    if data.len() > 0 && data[0] == VERSION_V4 {
        let plain = match v4_decrypt(passphrase, salt, data) {
            Ok(p) => p,
            Err(e) => {
                proof {
                    if pb.len() + lb.len() <= V4_PASS_MAX && (exists|pt: Seq<u8>|
                        #[trigger] is_v4_encryption_of(pb, lb, pt, data@) && !valid_utf8(pt)) {
                        let pt0 = choose|pt: Seq<u8>|
                            #[trigger] is_v4_encryption_of(pb, lb, pt, data@) && !valid_utf8(pt);
                        assert(!is_v4_encryption_of(pb, lb, pt0, data@));
                    }
                }
                return Err(e);
            },
        };
        match bytes_to_string(plain.as_slice()) {
            Some(_) => {
                proof {
                    if exists|pt: Seq<u8>|
                        #[trigger] is_v4_encryption_of(pb, lb, pt, data@) && !valid_utf8(pt) {
                        let pt0 = choose|pt: Seq<u8>|
                            #[trigger] is_v4_encryption_of(pb, lb, pt, data@) && !valid_utf8(pt);
                        assert(plain@ == pt0);
                    }
                }
                Ok(plain)
            },
            None => Err(CipherError::Encoding),
        }
    } else {
        match v3_decrypt(passphrase, salt, data) {
            Ok(p) => {
                if bytes_to_string(p.as_slice()).is_some() {
                    return Ok(p);
                }
            },
            Err(_) => {},
        }
        match v2_decrypt(passphrase, data) {
            Ok(p) => {
                if bytes_to_string(p.as_slice()).is_some() {
                    return Ok(p);
                }
            },
            Err(_) => {},
        }
        Err(CipherError::Auth)
    }
}

/// Decode a blob of any supported version into its plaintext as text.
pub fn auto_decrypt(passphrase: &str, salt: &str, data: &[u8]) -> (r: Result<String, CipherError>)
    ensures
        r matches Ok(s) ==> (routes_to_v4(data@) ==> forall|pt: Seq<u8>|
            #[trigger] is_v4_encryption_of(passphrase.spec_bytes(), salt.spec_bytes(), pt, data@)
                ==> s@ == decode_utf8(pt)),
        r is Err && passphrase.spec_bytes().len() + salt.spec_bytes().len() <= V4_PASS_MAX ==> (
        routes_to_v4(data@) ==> forall|pt: Seq<u8>|
            #[trigger] is_v4_encryption_of(passphrase.spec_bytes(), salt.spec_bytes(), pt, data@)
                ==> !valid_utf8(pt)),
        routes_to_v4(data@) && data@.len() < 93 ==> (r matches Err(e) && e
            == CipherError::Malformed),
        routes_to_v4(data@) && data@.len() >= 93 && hmac_sha256(seed_bytes(), v4_body_of(data@))
            != v4_tag_of(data@) ==> (r matches Err(e) && e == CipherError::Auth),
        r matches Ok(s) ==> (routes_to_v4(data@) && data@.len() <= V4_PT_MAX + 213
            ==> exists|pt: Seq<u8>|
            #[trigger] is_v4_encryption_of(passphrase.spec_bytes(), salt.spec_bytes(), pt, data@)
                && valid_utf8(pt) && s@ == decode_utf8(pt)),
        routes_to_v4(data@) && passphrase.spec_bytes().len() + salt.spec_bytes().len()
            <= V4_PASS_MAX && (exists|pt: Seq<u8>|
            #[trigger] is_v4_encryption_of(passphrase.spec_bytes(), salt.spec_bytes(), pt, data@)
                && !valid_utf8(pt)) ==> (r matches Err(e) && e == CipherError::Encoding),
        r matches Ok(s) ==> (!routes_to_v4(data@) ==> (v3_accepts(
            passphrase.spec_bytes(),
            salt.spec_bytes(),
            data@,
        ) matches Some(t) ==> s@ == decode_utf8(t))),
        r matches Ok(s) ==> (!routes_to_v4(data@) && v3_accepts(
            passphrase.spec_bytes(),
            salt.spec_bytes(),
            data@,
        ) is None ==> (v2_accepts(passphrase.spec_bytes(), data@) matches Some(t) && s@
            == decode_utf8(t))),
        r is Err ==> (!routes_to_v4(data@) ==> v3_accepts(
            passphrase.spec_bytes(),
            salt.spec_bytes(),
            data@,
        ) is None && v2_accepts(passphrase.spec_bytes(), data@) is None),
        r matches Err(e) ==> (!routes_to_v4(data@) ==> e == CipherError::Auth),
{
    let plain = match auto_decrypt_bytes(passphrase, salt, data) {
        Ok(p) => p,
        Err(e) => { return Err(e); },
    };
    match bytes_to_string(plain.as_slice()) {
        Some(s) => {
            proof {
                let pb = passphrase.spec_bytes();
                let lb = salt.spec_bytes();
                if routes_to_v4(data@) && data@.len() <= V4_PT_MAX + 213 {
                    assert(is_v4_encryption_of(pb, lb, plain@, data@) && valid_utf8(plain@) && s@
                        == decode_utf8(plain@));
                }
            }
            Ok(s)
        },
        None => Err(CipherError::Encoding),
    }
}

} // verus!
