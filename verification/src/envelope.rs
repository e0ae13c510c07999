//! The v4 envelope codec: three nested AEAD layers with domain-separated
//! Argon2id keys, framed as `0x04 ‖ outer-salt ‖ outer-nonce ‖ outer-ct ‖ tag`
//! where the tag is HMAC-SHA-256 over everything between the version byte
//! and the tag, keyed by the build-embedded seed.
//!
//! The spec functions here give the exact byte layout of a well-formed
//! envelope as a function of the passphrase, the salt label, the plaintext
//! and the six random values drawn during encryption; `v4_encrypt` proves it
//! emits that layout, and `v4_decrypt` proves it recovers the plaintext of
//! any blob of that layout.

use vstd::prelude::*;
use vstd::string::StringSliceAdditionalSpecFns;
use crate::aead::{decrypt_aes_gcm, decrypt_chacha20, encrypt_aes_gcm, encrypt_chacha20};
use crate::bytes::{ct_eq, sub_bytes};
use crate::crypto::{
    aes_gcm_ct, argon2_key, chacha_ct, fill_random, hmac_sha256, hmac_tag, wipe_key, AEAD_PT_MAX,
};
use crate::kdf::{derive_key_argon2_with, KDF_INPUT_MAX};
use crate::seed::{derive_embedded_key, seed_bytes};
use crate::{CipherError, VERSION_V4};

verus! {

/// Largest plaintext a single envelope covers; keeps every nested layer
/// within what the AEAD primitives accept on any machine.
pub const V4_PT_MAX: usize = 0x3fff_ffff;

/// Passphrase-plus-label budget under which every key derivation succeeds.
pub const V4_PASS_MAX: usize = 0xffff_ff00;

/// The bytes of `"-middle-"`, spliced between passphrase and salt label for
/// the middle layer's key.
pub open spec fn middle_sep() -> Seq<u8> {
    seq![0x2du8, 0x6d, 0x69, 0x64, 0x64, 0x6c, 0x65, 0x2d]
}

/// The bytes of `"-outer-"`, spliced between passphrase and salt label for
/// the outer layer's key.
pub open spec fn outer_sep() -> Seq<u8> {
    seq![0x2du8, 0x6f, 0x75, 0x74, 0x65, 0x72, 0x2d]
}

/// Intermediate passphrase for the middle layer.
pub open spec fn middle_pass(pass: Seq<u8>, label: Seq<u8>) -> Seq<u8> {
    pass + middle_sep() + label
}

/// Intermediate passphrase for the outer layer.
pub open spec fn outer_pass(pass: Seq<u8>, label: Seq<u8>) -> Seq<u8> {
    pass + outer_sep() + label
}

/// Key of the innermost layer: no domain suffix, bound to the seed.
pub open spec fn v4_inner_key(seed: Seq<u8>, pass: Seq<u8>, salt: Seq<u8>) -> Seq<u8> {
    argon2_key(pass + seed, salt)
}

/// Key of the middle layer.
pub open spec fn v4_middle_key(seed: Seq<u8>, pass: Seq<u8>, label: Seq<u8>, salt: Seq<u8>) -> Seq<
    u8,
> {
    argon2_key(middle_pass(pass, label) + seed, salt)
}

/// Key of the outer layer.
pub open spec fn v4_outer_key(seed: Seq<u8>, pass: Seq<u8>, label: Seq<u8>, salt: Seq<u8>) -> Seq<
    u8,
> {
    argon2_key(outer_pass(pass, label) + seed, salt)
}

/// Plaintext of the middle layer: inner salt, inner nonce, inner AES-GCM
/// ciphertext-with-tag.
pub open spec fn v4_inner_payload(
    seed: Seq<u8>,
    pass: Seq<u8>,
    pt: Seq<u8>,
    si: Seq<u8>,
    ni: Seq<u8>,
) -> Seq<u8> {
    si + ni + aes_gcm_ct(v4_inner_key(seed, pass, si), ni, pt)
}

/// Plaintext of the outer layer: middle salt, middle nonce, middle
/// ChaCha20-Poly1305 ciphertext-with-tag.
pub open spec fn v4_middle_payload(
    seed: Seq<u8>,
    pass: Seq<u8>,
    label: Seq<u8>,
    pt: Seq<u8>,
    si: Seq<u8>,
    ni: Seq<u8>,
    sm: Seq<u8>,
    nm: Seq<u8>,
) -> Seq<u8> {
    sm + nm + chacha_ct(
        v4_middle_key(seed, pass, label, sm),
        nm,
        v4_inner_payload(seed, pass, pt, si, ni),
    )
}

/// Everything the outer HMAC tag covers: outer salt, outer nonce, outer
/// AES-GCM ciphertext-with-tag.
pub open spec fn v4_body(
    seed: Seq<u8>,
    pass: Seq<u8>,
    label: Seq<u8>,
    pt: Seq<u8>,
    si: Seq<u8>,
    ni: Seq<u8>,
    sm: Seq<u8>,
    nm: Seq<u8>,
    so: Seq<u8>,
    no: Seq<u8>,
) -> Seq<u8> {
    so + no + aes_gcm_ct(
        v4_outer_key(seed, pass, label, so),
        no,
        v4_middle_payload(seed, pass, label, pt, si, ni, sm, nm),
    )
}

/// The full envelope for the given inputs and random draws.
pub open spec fn v4_blob(
    seed: Seq<u8>,
    pass: Seq<u8>,
    label: Seq<u8>,
    pt: Seq<u8>,
    si: Seq<u8>,
    ni: Seq<u8>,
    sm: Seq<u8>,
    nm: Seq<u8>,
    so: Seq<u8>,
    no: Seq<u8>,
) -> Seq<u8> {
    seq![VERSION_V4] + v4_body(seed, pass, label, pt, si, ni, sm, nm, so, no) + hmac_sha256(
        seed,
        v4_body(seed, pass, label, pt, si, ni, sm, nm, so, no),
    )
}

/// The six random draws have their wire sizes: 32-byte salts, 12-byte nonces.
pub open spec fn v4_randoms_wf(
    si: Seq<u8>,
    ni: Seq<u8>,
    sm: Seq<u8>,
    nm: Seq<u8>,
    so: Seq<u8>,
    no: Seq<u8>,
) -> bool {
    si.len() == 32 && ni.len() == 12 && sm.len() == 32 && nm.len() == 12 && so.len() == 32
        && no.len() == 12
}

/// Every layer of the envelope has its native length: each AEAD adds a
/// 16-byte tag, each framing adds a salt and a nonce, and the outer HMAC tag
/// is 32 bytes.
pub open spec fn v4_lens_ok(
    seed: Seq<u8>,
    pass: Seq<u8>,
    label: Seq<u8>,
    pt: Seq<u8>,
    si: Seq<u8>,
    ni: Seq<u8>,
    sm: Seq<u8>,
    nm: Seq<u8>,
    so: Seq<u8>,
    no: Seq<u8>,
) -> bool {
    &&& pt.len() <= V4_PT_MAX
    &&& v4_inner_payload(seed, pass, pt, si, ni).len() == pt.len() + 60
    &&& v4_middle_payload(seed, pass, label, pt, si, ni, sm, nm).len() == pt.len() + 120
    &&& v4_body(seed, pass, label, pt, si, ni, sm, nm, so, no).len() == pt.len() + 180
    &&& hmac_sha256(seed, v4_body(seed, pass, label, pt, si, ni, sm, nm, so, no)).len() == 32
}

/// `blob` is a well-formed envelope of `pt` under the given seed,
/// passphrase and label, for some choice of salts and nonces.
pub open spec fn is_v4_encryption_with(
    seed: Seq<u8>,
    pass: Seq<u8>,
    label: Seq<u8>,
    pt: Seq<u8>,
    blob: Seq<u8>,
) -> bool {
    exists|si: Seq<u8>, ni: Seq<u8>, sm: Seq<u8>, nm: Seq<u8>, so: Seq<u8>, no: Seq<u8>|
        v4_randoms_wf(si, ni, sm, nm, so, no) && v4_lens_ok(
            seed,
            pass,
            label,
            pt,
            si,
            ni,
            sm,
            nm,
            so,
            no,
        ) && blob == #[trigger] v4_blob(seed, pass, label, pt, si, ni, sm, nm, so, no)
}

/// `blob` is a well-formed envelope under the seed embedded in this build.
pub open spec fn is_v4_encryption_of(
    pass: Seq<u8>,
    label: Seq<u8>,
    pt: Seq<u8>,
    blob: Seq<u8>,
) -> bool {
    is_v4_encryption_with(seed_bytes(), pass, label, pt, blob)
}

/// The stretch of a blob that the outer HMAC tag covers.
pub open spec fn v4_body_of(blob: Seq<u8>) -> Seq<u8> {
    blob.subrange(1, blob.len() - 32)
}

/// The trailing HMAC tag of a blob.
pub open spec fn v4_tag_of(blob: Seq<u8>) -> Seq<u8> {
    blob.subrange(blob.len() - 32, blob.len() as int)
}

/// Shape of a well-formed envelope: its length, version byte, covered body
/// and trailing tag.
pub proof fn lemma_v4_blob_shape(
    seed: Seq<u8>,
    pass: Seq<u8>,
    label: Seq<u8>,
    pt: Seq<u8>,
    si: Seq<u8>,
    ni: Seq<u8>,
    sm: Seq<u8>,
    nm: Seq<u8>,
    so: Seq<u8>,
    no: Seq<u8>,
)
    requires
        v4_randoms_wf(si, ni, sm, nm, so, no),
        v4_lens_ok(seed, pass, label, pt, si, ni, sm, nm, so, no),
    ensures
        v4_blob(seed, pass, label, pt, si, ni, sm, nm, so, no).len() == pt.len() + 213,
        v4_blob(seed, pass, label, pt, si, ni, sm, nm, so, no)[0] == VERSION_V4,
        v4_body_of(v4_blob(seed, pass, label, pt, si, ni, sm, nm, so, no)) == v4_body(
            seed,
            pass,
            label,
            pt,
            si,
            ni,
            sm,
            nm,
            so,
            no,
        ),
        v4_tag_of(v4_blob(seed, pass, label, pt, si, ni, sm, nm, so, no)) == hmac_sha256(
            seed,
            v4_body(seed, pass, label, pt, si, ni, sm, nm, so, no),
        ),
{
    let body = v4_body(seed, pass, label, pt, si, ni, sm, nm, so, no);
    let tag = hmac_sha256(seed, body);
    let blob = v4_blob(seed, pass, label, pt, si, ni, sm, nm, so, no);
    assert(blob.len() == 1 + body.len() + tag.len());
    assert(v4_body_of(blob) =~= body);
    assert(v4_tag_of(blob) =~= tag);
}

/// How the covered body and the two nested payloads of a well-formed
/// envelope split back into their fields.
pub proof fn lemma_v4_parts(
    seed: Seq<u8>,
    pass: Seq<u8>,
    label: Seq<u8>,
    pt: Seq<u8>,
    si: Seq<u8>,
    ni: Seq<u8>,
    sm: Seq<u8>,
    nm: Seq<u8>,
    so: Seq<u8>,
    no: Seq<u8>,
)
    requires
        v4_randoms_wf(si, ni, sm, nm, so, no),
        v4_lens_ok(seed, pass, label, pt, si, ni, sm, nm, so, no),
    ensures
        ({
            let body = v4_body(seed, pass, label, pt, si, ni, sm, nm, so, no);
            let mp = v4_middle_payload(seed, pass, label, pt, si, ni, sm, nm);
            let ip = v4_inner_payload(seed, pass, pt, si, ni);
            &&& body.subrange(0, 32) == so
            &&& body.subrange(32, 44) == no
            &&& body.subrange(44, body.len() as int) == aes_gcm_ct(
                v4_outer_key(seed, pass, label, so),
                no,
                mp,
            )
            &&& mp.subrange(0, 32) == sm
            &&& mp.subrange(32, 44) == nm
            &&& mp.subrange(44, mp.len() as int) == chacha_ct(
                v4_middle_key(seed, pass, label, sm),
                nm,
                ip,
            )
            &&& ip.subrange(0, 32) == si
            &&& ip.subrange(32, 44) == ni
            &&& ip.subrange(44, ip.len() as int) == aes_gcm_ct(v4_inner_key(seed, pass, si), ni, pt)
        }),
{
    let body = v4_body(seed, pass, label, pt, si, ni, sm, nm, so, no);
    let mp = v4_middle_payload(seed, pass, label, pt, si, ni, sm, nm);
    let ip = v4_inner_payload(seed, pass, pt, si, ni);
    assert(body.subrange(0, 32) =~= so);
    assert(body.subrange(32, 44) =~= no);
    assert(body.subrange(44, body.len() as int) =~= aes_gcm_ct(
        v4_outer_key(seed, pass, label, so),
        no,
        mp,
    ));
    assert(mp.subrange(0, 32) =~= sm);
    assert(mp.subrange(32, 44) =~= nm);
    assert(mp.subrange(44, mp.len() as int) =~= chacha_ct(
        v4_middle_key(seed, pass, label, sm),
        nm,
        ip,
    ));
    assert(ip.subrange(0, 32) =~= si);
    assert(ip.subrange(32, 44) =~= ni);
    assert(ip.subrange(44, ip.len() as int) =~= aes_gcm_ct(v4_inner_key(seed, pass, si), ni, pt));
}

/// The bytes of `"-middle-"`.
fn middle_sep_bytes() -> (r: [u8; 8])
    ensures
        r@ == middle_sep(),
{
    let s: [u8; 8] = [0x2du8, 0x6d, 0x69, 0x64, 0x64, 0x6c, 0x65, 0x2d];
    proof {
        assert(s@ =~= middle_sep());
    }
    s
}

/// The bytes of `"-outer-"`.
fn outer_sep_bytes() -> (r: [u8; 7])
    ensures
        r@ == outer_sep(),
{
    let s: [u8; 7] = [0x2du8, 0x6f, 0x75, 0x74, 0x65, 0x72, 0x2d];
    proof {
        assert(s@ =~= outer_sep());
    }
    s
}

/// Concatenate passphrase, separator and label into one key-derivation input.
fn splice_pass(pass: &[u8], sep: &[u8], label: &[u8]) -> (r: Vec<u8>)
    ensures
        r@ == pass@ + sep@ + label@,
{
    let mut v: Vec<u8> = Vec::new();
    v.extend_from_slice(pass);
    v.extend_from_slice(sep);
    v.extend_from_slice(label);
    proof {
        assert(v@ =~= pass@ + sep@ + label@);
    }
    v
}

/// Put a layer's salt in front of its encryption.
fn prepend_salt(salt: &[u8], enc: &[u8]) -> (r: Vec<u8>)
    ensures
        r@ == salt@ + enc@,
{
    let mut v: Vec<u8> = Vec::new();
    v.extend_from_slice(salt);
    v.extend_from_slice(enc);
    proof {
        assert(v@ =~= salt@ + enc@);
    }
    v
}

/// Encrypt under an explicit seed. The seed keys the outer HMAC tag and is
/// appended to every key-derivation input; `v4_encrypt` passes the one
/// embedded in this build.
pub fn v4_encrypt_with_seed(
    seed: &[u8; 32],
    passphrase: &str,
    salt_label: &str,
    plaintext: &[u8],
) -> (r: Result<Vec<u8>, CipherError>)
    requires
        plaintext@.len() <= V4_PT_MAX,
    ensures
        r matches Ok(b) ==> is_v4_encryption_with(
            seed@,
            passphrase.spec_bytes(),
            salt_label.spec_bytes(),
            plaintext@,
            b@,
        ) && b@.len() == plaintext@.len() + 213 && b@[0] == VERSION_V4,
        r matches Err(e) ==> e == CipherError::Kdf,
        passphrase.spec_bytes().len() + salt_label.spec_bytes().len() <= V4_PASS_MAX ==> r is Ok,
{
    let pass = passphrase.as_bytes();
    let label = salt_label.as_bytes();

    let salt_i = fill_random(32);
    let mut inner_key = match derive_key_argon2_with(seed, pass, salt_i.as_slice()) {
        Ok(k) => k,
        Err(e) => { return Err(e); },
    };
    let inner_res = encrypt_aes_gcm(&inner_key, plaintext);
    wipe_key(&mut inner_key);
    let inner_enc = match inner_res {
        Ok(c) => c,
        Err(e) => { return Err(e); },
    };
    let inner_payload = prepend_salt(salt_i.as_slice(), inner_enc.as_slice());
    let ghost ni = inner_enc@.subrange(0, 12);

    let mid = middle_sep_bytes();
    let mid_pass = splice_pass(pass, mid.as_slice(), label);
    let salt_m = fill_random(32);
    let mut middle_key = match derive_key_argon2_with(seed, mid_pass.as_slice(), salt_m.as_slice())
    {
        Ok(k) => k,
        Err(e) => { return Err(e); },
    };
    let middle_res = encrypt_chacha20(&middle_key, inner_payload.as_slice());
    wipe_key(&mut middle_key);
    let middle_enc = match middle_res {
        Ok(c) => c,
        Err(e) => { return Err(e); },
    };
    let middle_payload = prepend_salt(salt_m.as_slice(), middle_enc.as_slice());
    let ghost nm = middle_enc@.subrange(0, 12);

    let out_sep = outer_sep_bytes();
    let out_pass = splice_pass(pass, out_sep.as_slice(), label);
    let salt_o = fill_random(32);
    let mut outer_key = match derive_key_argon2_with(seed, out_pass.as_slice(), salt_o.as_slice())
    {
        Ok(k) => k,
        Err(e) => { return Err(e); },
    };
    let outer_res = encrypt_aes_gcm(&outer_key, middle_payload.as_slice());
    wipe_key(&mut outer_key);
    let outer_enc = match outer_res {
        Ok(c) => c,
        Err(e) => { return Err(e); },
    };
    let body = prepend_salt(salt_o.as_slice(), outer_enc.as_slice());
    let ghost no = outer_enc@.subrange(0, 12);

    let tag = hmac_tag(seed.as_slice(), body.as_slice());

    let mut out: Vec<u8> = Vec::new();
    out.push(VERSION_V4);
    out.extend_from_slice(body.as_slice());
    out.extend_from_slice(tag.as_slice());

    proof {
        let sd = seed@;
        let pb = passphrase.spec_bytes();
        let lb = salt_label.spec_bytes();
        let ptv = plaintext@;
        assert(inner_enc@ =~= ni + inner_enc@.subrange(12, inner_enc@.len() as int));
        assert(inner_payload@ =~= v4_inner_payload(sd, pb, ptv, salt_i@, ni));
        assert(mid_pass@ == middle_pass(pb, lb));
        assert(middle_enc@ =~= nm + middle_enc@.subrange(12, middle_enc@.len() as int));
        assert(middle_payload@ =~= v4_middle_payload(sd, pb, lb, ptv, salt_i@, ni, salt_m@, nm));
        assert(out_pass@ == outer_pass(pb, lb));
        assert(outer_enc@ =~= no + outer_enc@.subrange(12, outer_enc@.len() as int));
        assert(body@ =~= v4_body(sd, pb, lb, ptv, salt_i@, ni, salt_m@, nm, salt_o@, no));
        assert(out@ =~= v4_blob(sd, pb, lb, ptv, salt_i@, ni, salt_m@, nm, salt_o@, no));
        assert(v4_randoms_wf(salt_i@, ni, salt_m@, nm, salt_o@, no));
        assert(v4_lens_ok(sd, pb, lb, ptv, salt_i@, ni, salt_m@, nm, salt_o@, no));
        assert(is_v4_encryption_with(sd, pb, lb, ptv, out@));
        lemma_v4_blob_shape(sd, pb, lb, ptv, salt_i@, ni, salt_m@, nm, salt_o@, no);
    }
    Ok(out)
}

/// Pick the salts and nonces a well-formed envelope was built from, and
/// hand back every fact about its layout that decoding needs.
proof fn choose_v4_witness(
    seed: Seq<u8>,
    pass: Seq<u8>,
    label: Seq<u8>,
    pt: Seq<u8>,
    blob: Seq<u8>,
) -> (w: (Seq<u8>, Seq<u8>, Seq<u8>, Seq<u8>, Seq<u8>, Seq<u8>))
    requires
        is_v4_encryption_with(seed, pass, label, pt, blob),
    ensures
        ({
            let (si, ni, sm, nm, so, no) = w;
            let mp = v4_middle_payload(seed, pass, label, pt, si, ni, sm, nm);
            let ip = v4_inner_payload(seed, pass, pt, si, ni);
            &&& v4_randoms_wf(si, ni, sm, nm, so, no)
            &&& v4_lens_ok(seed, pass, label, pt, si, ni, sm, nm, so, no)
            &&& blob == v4_blob(seed, pass, label, pt, si, ni, sm, nm, so, no)
            &&& blob.len() == pt.len() + 213
            &&& blob[0] == VERSION_V4
            &&& hmac_sha256(seed, v4_body_of(blob)) == v4_tag_of(blob)
            &&& blob.subrange(1, 33) == so
            &&& blob.subrange(33, 45) == no
            &&& blob.subrange(45, blob.len() - 32) == aes_gcm_ct(
                v4_outer_key(seed, pass, label, so),
                no,
                mp,
            )
            &&& mp.len() == pt.len() + 120
            &&& mp.subrange(0, 32) == sm
            &&& mp.subrange(32, 44) == nm
            &&& mp.subrange(44, mp.len() as int) == chacha_ct(
                v4_middle_key(seed, pass, label, sm),
                nm,
                ip,
            )
            &&& ip.len() == pt.len() + 60
            &&& ip.subrange(0, 32) == si
            &&& ip.subrange(32, 44) == ni
            &&& ip.subrange(44, ip.len() as int) == aes_gcm_ct(v4_inner_key(seed, pass, si), ni, pt)
        }),
{
    let (si, ni, sm, nm, so, no) = choose|
        si: Seq<u8>,
        ni: Seq<u8>,
        sm: Seq<u8>,
        nm: Seq<u8>,
        so: Seq<u8>,
        no: Seq<u8>,
    |
        v4_randoms_wf(si, ni, sm, nm, so, no) && v4_lens_ok(
            seed,
            pass,
            label,
            pt,
            si,
            ni,
            sm,
            nm,
            so,
            no,
        ) && blob == #[trigger] v4_blob(seed, pass, label, pt, si, ni, sm, nm, so, no);
    lemma_v4_blob_shape(seed, pass, label, pt, si, ni, sm, nm, so, no);
    lemma_v4_parts(seed, pass, label, pt, si, ni, sm, nm, so, no);
    let body = v4_body(seed, pass, label, pt, si, ni, sm, nm, so, no);
    assert(blob.subrange(1, 33) =~= body.subrange(0, 32));
    assert(blob.subrange(33, 45) =~= body.subrange(32, 44));
    assert(blob.subrange(45, blob.len() - 32) =~= body.subrange(44, body.len() as int));
    (si, ni, sm, nm, so, no)
}

/// Every well-formed envelope leads with the version byte `0x04` and is at
/// least 213 bytes long: upgrading a file to v4 is therefore idempotent —
/// a fresh envelope is always recognised and skipped, never re-encrypted.
pub proof fn lemma_v4_blob_starts_v4(pass: Seq<u8>, label: Seq<u8>, pt: Seq<u8>, blob: Seq<u8>)
    requires
        is_v4_encryption_of(pass, label, pt, blob),
    ensures
        blob.len() >= 213,
        blob[0] == VERSION_V4,
{
    let w = choose_v4_witness(seed_bytes(), pass, label, pt, blob);
}

/// A blob that passes every stage of decoding is itself a well-formed
/// envelope of the recovered plaintext: decoding accepts nothing but
/// envelopes, so equal inputs decode to equal results.
proof fn lemma_v4_decode_sound(
    seed: Seq<u8>,
    pass: Seq<u8>,
    label: Seq<u8>,
    data: Seq<u8>,
    plain: Seq<u8>,
    salt_o: Seq<u8>,
    rest_o: Seq<u8>,
    okv: Seq<u8>,
    mp: Seq<u8>,
    salt_m: Seq<u8>,
    rest_m: Seq<u8>,
    mkv: Seq<u8>,
    ip: Seq<u8>,
    salt_i: Seq<u8>,
    rest_i: Seq<u8>,
    ikv: Seq<u8>,
    tag: Seq<u8>,
)
    requires
        data.len() >= 93,
        data.len() <= V4_PT_MAX + 213,
        data[0] == VERSION_V4,
        salt_o == data.subrange(1, 33),
        rest_o == data.subrange(33, data.len() - 32),
        tag == hmac_sha256(seed, data.subrange(1, data.len() - 32)),
        tag == data.subrange(data.len() - 32, data.len() as int),
        tag.len() == 32,
        okv == v4_outer_key(seed, pass, label, salt_o),
        mp.len() + 28 == rest_o.len(),
        rest_o.subrange(12, rest_o.len() as int) == aes_gcm_ct(okv, rest_o.subrange(0, 12), mp),
        mp.len() >= 60,
        salt_m == mp.subrange(0, 32),
        rest_m == mp.subrange(32, mp.len() as int),
        mkv == v4_middle_key(seed, pass, label, salt_m),
        ip.len() + 28 == rest_m.len(),
        rest_m.subrange(12, rest_m.len() as int) == chacha_ct(mkv, rest_m.subrange(0, 12), ip),
        ip.len() >= 60,
        salt_i == ip.subrange(0, 32),
        rest_i == ip.subrange(32, ip.len() as int),
        ikv == v4_inner_key(seed, pass, salt_i),
        plain.len() + 28 == rest_i.len(),
        rest_i.subrange(12, rest_i.len() as int) == aes_gcm_ct(ikv, rest_i.subrange(0, 12), plain),
    ensures
        is_v4_encryption_with(seed, pass, label, plain, data),
{
    let ni = rest_i.subrange(0, 12);
    let nm = rest_m.subrange(0, 12);
    let no = rest_o.subrange(0, 12);
    let body = data.subrange(1, data.len() - 32);

    assert(rest_i =~= ni + rest_i.subrange(12, rest_i.len() as int));
    assert(ip =~= salt_i + rest_i);
    assert(v4_inner_payload(seed, pass, plain, salt_i, ni) =~= ip);

    assert(rest_m =~= nm + rest_m.subrange(12, rest_m.len() as int));
    assert(mp =~= salt_m + rest_m);
    assert(v4_middle_payload(seed, pass, label, plain, salt_i, ni, salt_m, nm) =~= mp);

    assert(rest_o =~= no + rest_o.subrange(12, rest_o.len() as int));
    assert(body =~= salt_o + rest_o);
    assert(v4_body(seed, pass, label, plain, salt_i, ni, salt_m, nm, salt_o, no) =~= body);

    assert(v4_randoms_wf(salt_i, ni, salt_m, nm, salt_o, no));
    assert(v4_lens_ok(seed, pass, label, plain, salt_i, ni, salt_m, nm, salt_o, no));

    assert(v4_blob(seed, pass, label, plain, salt_i, ni, salt_m, nm, salt_o, no) =~= data);
    assert(is_v4_encryption_with(seed, pass, label, plain, data));
}

/// Decrypt under an explicit seed: the seam `v4_decrypt` instantiates with
/// the seed embedded in this build. The outer tag is recomputed and checked
/// in constant time before any key-derivation work is spent; a mismatch is
/// terminal.
pub fn v4_decrypt_with_seed(
    seed: &[u8; 32],
    passphrase: &str,
    salt_label: &str,
    data: &[u8],
) -> (r: Result<Vec<u8>, CipherError>)
    ensures
        data@.len() == 0 ==> (r matches Err(e) && e == CipherError::Malformed),
        data@.len() > 0 && data@[0] != VERSION_V4 ==> (r matches Err(e) && e
            == CipherError::Version),
        data@.len() > 0 && data@[0] == VERSION_V4 && data@.len() < 93 ==> (r matches Err(e) && e
            == CipherError::Malformed),
        data@.len() >= 93 && data@[0] == VERSION_V4 && hmac_sha256(seed@, v4_body_of(data@))
            != v4_tag_of(data@) ==> (r matches Err(e) && e == CipherError::Auth),
        r is Ok ==> data@.len() >= 93 && data@[0] == VERSION_V4 && hmac_sha256(
            seed@,
            v4_body_of(data@),
        ) == v4_tag_of(data@),
        r matches Ok(p) ==> p@.len() + 213 == data@.len(),
        r matches Ok(p) ==> (data@.len() <= V4_PT_MAX + 213 ==> is_v4_encryption_with(
            seed@,
            passphrase.spec_bytes(),
            salt_label.spec_bytes(),
            p@,
            data@,
        )),
        r matches Ok(p) ==> forall|pt: Seq<u8>|
            #[trigger] is_v4_encryption_with(
                seed@,
                passphrase.spec_bytes(),
                salt_label.spec_bytes(),
                pt,
                data@,
            ) ==> p@ == pt,
        r is Err && passphrase.spec_bytes().len() + salt_label.spec_bytes().len() <= V4_PASS_MAX
            ==> forall|pt: Seq<u8>|
            !#[trigger] is_v4_encryption_with(
                seed@,
                passphrase.spec_bytes(),
                salt_label.spec_bytes(),
                pt,
                data@,
            ),
        r matches Err(e) ==> e == CipherError::Malformed || e == CipherError::Version || e
            == CipherError::Auth || e == CipherError::Kdf,
{
    let ghost sd = seed@;
    let ghost pb = passphrase.spec_bytes();
    let ghost lb = salt_label.spec_bytes();
    let pass = passphrase.as_bytes();
    let label = salt_label.as_bytes();
    let n = data.len();

    if n == 0 {
        proof {
            assert forall|pt: Seq<u8>| !#[trigger] is_v4_encryption_with(sd, pb, lb, pt, data@) by {
                if is_v4_encryption_with(sd, pb, lb, pt, data@) {
                    let w = choose_v4_witness(sd, pb, lb, pt, data@);
                }
            }
        }
        return Err(CipherError::Malformed);
    }
    if data[0] != VERSION_V4 {
        proof {
            assert forall|pt: Seq<u8>| !#[trigger] is_v4_encryption_with(sd, pb, lb, pt, data@) by {
                if is_v4_encryption_with(sd, pb, lb, pt, data@) {
                    let w = choose_v4_witness(sd, pb, lb, pt, data@);
                }
            }
        }
        return Err(CipherError::Version);
    }
    if n < 93 {
        proof {
            assert forall|pt: Seq<u8>| !#[trigger] is_v4_encryption_with(sd, pb, lb, pt, data@) by {
                if is_v4_encryption_with(sd, pb, lb, pt, data@) {
                    let w = choose_v4_witness(sd, pb, lb, pt, data@);
                }
            }
        }
        return Err(CipherError::Malformed);
    }

    let body = sub_bytes(data, 1, n - 32);
    let expected_tag = sub_bytes(data, n - 32, n);
    let computed_tag = hmac_tag(seed.as_slice(), body.as_slice());
    let tag_ok = ct_eq(computed_tag.as_slice(), expected_tag.as_slice());
    if !tag_ok {
        proof {
            assert forall|pt: Seq<u8>| !#[trigger] is_v4_encryption_with(sd, pb, lb, pt, data@) by {
                if is_v4_encryption_with(sd, pb, lb, pt, data@) {
                    let w = choose_v4_witness(sd, pb, lb, pt, data@);
                }
            }
        }
        return Err(CipherError::Auth);
    }

    let salt_o = sub_bytes(data, 1, 33);
    let rest_o = sub_bytes(data, 33, n - 32);
    let out_sep = outer_sep_bytes();
    let out_pass = splice_pass(pass, out_sep.as_slice(), label);
    let mut outer_key = match derive_key_argon2_with(seed, out_pass.as_slice(), salt_o.as_slice())
    {
        Ok(k) => k,
        Err(e) => {
            proof {
                kdf_failure_excludes(out_pass@.len(), pb.len(), lb.len());
            }
            return Err(e);
        },
    };
    let ghost okv = outer_key@;
    let outer_res = decrypt_aes_gcm(&outer_key, rest_o.as_slice());
    wipe_key(&mut outer_key);
    let middle_payload = match outer_res {
        Ok(mp) => mp,
        Err(e) => {
            proof {
                assert forall|pt: Seq<u8>|
                    !#[trigger] is_v4_encryption_with(sd, pb, lb, pt, data@) by {
                    if is_v4_encryption_with(sd, pb, lb, pt, data@) {
                        let (si, ni, sm, nm, so, no) = choose_v4_witness(sd, pb, lb, pt, data@);
                        let mp0 = v4_middle_payload(sd, pb, lb, pt, si, ni, sm, nm);
                        assert(okv == v4_outer_key(sd, pb, lb, so));
                        assert(rest_o@.subrange(0, 12) =~= data@.subrange(33, 45));
                        assert(rest_o@.subrange(12, rest_o@.len() as int) =~= data@.subrange(45, n - 32));
                        assert(rest_o@.subrange(12, rest_o@.len() as int) == aes_gcm_ct(okv, rest_o@.subrange(0, 12), mp0));
                        assert(mp0.len() <= AEAD_PT_MAX);
                    }
                }
            }
            return Err(e);
        },
    };

    let mn = middle_payload.len();
    if mn < 60 {
        proof {
            assert forall|pt: Seq<u8>| !#[trigger] is_v4_encryption_with(sd, pb, lb, pt, data@) by {
                if is_v4_encryption_with(sd, pb, lb, pt, data@) {
                    let (si, ni, sm, nm, so, no) = choose_v4_witness(sd, pb, lb, pt, data@);
                    let mp0 = v4_middle_payload(sd, pb, lb, pt, si, ni, sm, nm);
                    assert(okv == v4_outer_key(sd, pb, lb, so));
                    assert(rest_o@.subrange(0, 12) =~= data@.subrange(33, 45));
                    assert(rest_o@.subrange(12, rest_o@.len() as int) =~= data@.subrange(45, n - 32));
                    assert(rest_o@.subrange(12, rest_o@.len() as int) == aes_gcm_ct(okv, rest_o@.subrange(0, 12), mp0));
                    assert(middle_payload@ == mp0);
                }
            }
        }
        return Err(CipherError::Malformed);
    }
    let salt_m = sub_bytes(middle_payload.as_slice(), 0, 32);
    let rest_m = sub_bytes(middle_payload.as_slice(), 32, mn);
    let mid_sep = middle_sep_bytes();
    let mid_pass = splice_pass(pass, mid_sep.as_slice(), label);
    let mut middle_key = match derive_key_argon2_with(seed, mid_pass.as_slice(), salt_m.as_slice())
    {
        Ok(k) => k,
        Err(e) => {
            proof {
                kdf_failure_excludes(mid_pass@.len(), pb.len(), lb.len());
            }
            return Err(e);
        },
    };
    let ghost mkv = middle_key@;
    let middle_res = decrypt_chacha20(&middle_key, rest_m.as_slice());
    wipe_key(&mut middle_key);
    let inner_payload = match middle_res {
        Ok(ip) => ip,
        Err(e) => {
            proof {
                assert forall|pt: Seq<u8>|
                    !#[trigger] is_v4_encryption_with(sd, pb, lb, pt, data@) by {
                    if is_v4_encryption_with(sd, pb, lb, pt, data@) {
                        let (si, ni, sm, nm, so, no) = choose_v4_witness(sd, pb, lb, pt, data@);
                        let mp0 = v4_middle_payload(sd, pb, lb, pt, si, ni, sm, nm);
                        let ip0 = v4_inner_payload(sd, pb, pt, si, ni);
                        assert(okv == v4_outer_key(sd, pb, lb, so));
                        assert(rest_o@.subrange(0, 12) =~= data@.subrange(33, 45));
                        assert(rest_o@.subrange(12, rest_o@.len() as int) =~= data@.subrange(45, n - 32));
                        assert(rest_o@.subrange(12, rest_o@.len() as int) == aes_gcm_ct(okv, rest_o@.subrange(0, 12), mp0));
                        assert(middle_payload@ == mp0);
                        assert(mkv == v4_middle_key(sd, pb, lb, sm));
                        assert(rest_m@.subrange(0, 12) =~= mp0.subrange(32, 44));
                        assert(rest_m@.subrange(12, rest_m@.len() as int) =~= mp0.subrange(44, mp0.len() as int));
                        assert(rest_m@.subrange(12, rest_m@.len() as int) == chacha_ct(mkv, rest_m@.subrange(0, 12), ip0));
                        assert(ip0.len() <= AEAD_PT_MAX);
                    }
                }
            }
            return Err(e);
        },
    };

    let pn = inner_payload.len();
    if pn < 60 {
        proof {
            assert forall|pt: Seq<u8>| !#[trigger] is_v4_encryption_with(sd, pb, lb, pt, data@) by {
                if is_v4_encryption_with(sd, pb, lb, pt, data@) {
                    let (si, ni, sm, nm, so, no) = choose_v4_witness(sd, pb, lb, pt, data@);
                    let mp0 = v4_middle_payload(sd, pb, lb, pt, si, ni, sm, nm);
                    let ip0 = v4_inner_payload(sd, pb, pt, si, ni);
                    assert(okv == v4_outer_key(sd, pb, lb, so));
                    assert(rest_o@.subrange(0, 12) =~= data@.subrange(33, 45));
                    assert(rest_o@.subrange(12, rest_o@.len() as int) =~= data@.subrange(45, n - 32));
                    assert(rest_o@.subrange(12, rest_o@.len() as int) == aes_gcm_ct(okv, rest_o@.subrange(0, 12), mp0));
                    assert(middle_payload@ == mp0);
                    assert(mkv == v4_middle_key(sd, pb, lb, sm));
                    assert(rest_m@.subrange(0, 12) =~= mp0.subrange(32, 44));
                    assert(rest_m@.subrange(12, rest_m@.len() as int) =~= mp0.subrange(44, mp0.len() as int));
                    assert(rest_m@.subrange(12, rest_m@.len() as int) == chacha_ct(mkv, rest_m@.subrange(0, 12), ip0));
                    assert(inner_payload@ == ip0);
                }
            }
        }
        return Err(CipherError::Malformed);
    }
    let salt_i = sub_bytes(inner_payload.as_slice(), 0, 32);
    let rest_i = sub_bytes(inner_payload.as_slice(), 32, pn);
    let mut inner_key = match derive_key_argon2_with(seed, pass, salt_i.as_slice()) {
        Ok(k) => k,
        Err(e) => {
            proof {
                assert(pb.len() + 32 > KDF_INPUT_MAX);
            }
            return Err(e);
        },
    };
    let ghost ikv = inner_key@;
    let inner_res = decrypt_aes_gcm(&inner_key, rest_i.as_slice());
    wipe_key(&mut inner_key);
    match inner_res {
        Ok(plain) => {
            proof {
                if data@.len() <= V4_PT_MAX + 213 {
                    lemma_v4_decode_sound(
                        sd, pb, lb, data@, plain@,
                        salt_o@, rest_o@, okv, middle_payload@,
                        salt_m@, rest_m@, mkv, inner_payload@,
                        salt_i@, rest_i@, ikv, computed_tag@,
                    );
                }
                assert forall|pt: Seq<u8>|
                    #[trigger] is_v4_encryption_with(sd, pb, lb, pt, data@) implies plain@
                    == pt by {
                    let (si, ni, sm, nm, so, no) = choose_v4_witness(sd, pb, lb, pt, data@);
                    let mp0 = v4_middle_payload(sd, pb, lb, pt, si, ni, sm, nm);
                    let ip0 = v4_inner_payload(sd, pb, pt, si, ni);
                    assert(okv == v4_outer_key(sd, pb, lb, so));
                    assert(rest_o@.subrange(0, 12) =~= data@.subrange(33, 45));
                    assert(rest_o@.subrange(12, rest_o@.len() as int) =~= data@.subrange(45, n - 32));
                    assert(rest_o@.subrange(12, rest_o@.len() as int) == aes_gcm_ct(okv, rest_o@.subrange(0, 12), mp0));
                    assert(middle_payload@ == mp0);
                    assert(mkv == v4_middle_key(sd, pb, lb, sm));
                    assert(rest_m@.subrange(0, 12) =~= mp0.subrange(32, 44));
                    assert(rest_m@.subrange(12, rest_m@.len() as int) =~= mp0.subrange(44, mp0.len() as int));
                    assert(rest_m@.subrange(12, rest_m@.len() as int) == chacha_ct(mkv, rest_m@.subrange(0, 12), ip0));
                    assert(inner_payload@ == ip0);
                    assert(ikv == v4_inner_key(sd, pb, si));
                    assert(rest_i@.subrange(0, 12) =~= ip0.subrange(32, 44));
                    assert(rest_i@.subrange(12, rest_i@.len() as int) =~= ip0.subrange(44, ip0.len() as int));
                    assert(rest_i@.subrange(12, rest_i@.len() as int) == aes_gcm_ct(ikv, rest_i@.subrange(0, 12), pt));
                }
            }
            Ok(plain)
        },
        Err(e) => {
            proof {
                assert forall|pt: Seq<u8>|
                    !#[trigger] is_v4_encryption_with(sd, pb, lb, pt, data@) by {
                    if is_v4_encryption_with(sd, pb, lb, pt, data@) {
                        let (si, ni, sm, nm, so, no) = choose_v4_witness(sd, pb, lb, pt, data@);
                        let mp0 = v4_middle_payload(sd, pb, lb, pt, si, ni, sm, nm);
                        let ip0 = v4_inner_payload(sd, pb, pt, si, ni);
                        assert(okv == v4_outer_key(sd, pb, lb, so));
                        assert(rest_o@.subrange(0, 12) =~= data@.subrange(33, 45));
                        assert(rest_o@.subrange(12, rest_o@.len() as int) =~= data@.subrange(45, n - 32));
                        assert(rest_o@.subrange(12, rest_o@.len() as int) == aes_gcm_ct(okv, rest_o@.subrange(0, 12), mp0));
                        assert(middle_payload@ == mp0);
                        assert(mkv == v4_middle_key(sd, pb, lb, sm));
                        assert(rest_m@.subrange(0, 12) =~= mp0.subrange(32, 44));
                        assert(rest_m@.subrange(12, rest_m@.len() as int) =~= mp0.subrange(44, mp0.len() as int));
                        assert(rest_m@.subrange(12, rest_m@.len() as int) == chacha_ct(mkv, rest_m@.subrange(0, 12), ip0));
                        assert(inner_payload@ == ip0);
                        assert(ikv == v4_inner_key(sd, pb, si));
                        assert(rest_i@.subrange(0, 12) =~= ip0.subrange(32, 44));
                        assert(rest_i@.subrange(12, rest_i@.len() as int) =~= ip0.subrange(44, ip0.len() as int));
                        assert(rest_i@.subrange(12, rest_i@.len() as int) == aes_gcm_ct(ikv, rest_i@.subrange(0, 12), pt));
                        assert(pt.len() <= AEAD_PT_MAX);
                    }
                }
            }
            Err(e)
        },
    }
}

/// A key derivation refused its input only because passphrase and label
/// together overran the KDF budget.
proof fn kdf_failure_excludes(input_len: nat, pass_len: nat, label_len: nat)
    requires
        input_len + 32 > KDF_INPUT_MAX,
        input_len <= pass_len + 8 + label_len,
    ensures
        pass_len + label_len > V4_PASS_MAX,
{
}

/// Decrypt a v4 envelope under the seed embedded in this build.
pub fn v4_decrypt(passphrase: &str, salt_label: &str, data: &[u8]) -> (r: Result<
    Vec<u8>,
    CipherError,
>)
    ensures
        data@.len() == 0 ==> (r matches Err(e) && e == CipherError::Malformed),
        data@.len() > 0 && data@[0] != VERSION_V4 ==> (r matches Err(e) && e
            == CipherError::Version),
        data@.len() > 0 && data@[0] == VERSION_V4 && data@.len() < 93 ==> (r matches Err(e) && e
            == CipherError::Malformed),
        data@.len() >= 93 && data@[0] == VERSION_V4 && hmac_sha256(seed_bytes(), v4_body_of(data@))
            != v4_tag_of(data@) ==> (r matches Err(e) && e == CipherError::Auth),
        r is Ok ==> data@.len() >= 93 && data@[0] == VERSION_V4 && hmac_sha256(
            seed_bytes(),
            v4_body_of(data@),
        ) == v4_tag_of(data@),
        r matches Ok(p) ==> p@.len() + 213 == data@.len(),
        r matches Ok(p) ==> (data@.len() <= V4_PT_MAX + 213 ==> is_v4_encryption_of(
            passphrase.spec_bytes(),
            salt_label.spec_bytes(),
            p@,
            data@,
        )),
        r matches Ok(p) ==> forall|pt: Seq<u8>|
            #[trigger] is_v4_encryption_of(
                passphrase.spec_bytes(),
                salt_label.spec_bytes(),
                pt,
                data@,
            ) ==> p@ == pt,
        r is Err && passphrase.spec_bytes().len() + salt_label.spec_bytes().len() <= V4_PASS_MAX
            ==> forall|pt: Seq<u8>|
            !#[trigger] is_v4_encryption_of(
                passphrase.spec_bytes(),
                salt_label.spec_bytes(),
                pt,
                data@,
            ),
        r matches Err(e) ==> e == CipherError::Malformed || e == CipherError::Version || e
            == CipherError::Auth || e == CipherError::Kdf,
{
    let seed = derive_embedded_key();
    v4_decrypt_with_seed(&seed, passphrase, salt_label, data)
}

/// Encrypt a plaintext into a fresh v4 envelope under the embedded seed.
/// What this emits satisfies `is_v4_encryption_of`, and `v4_decrypt`'s
/// contract promises to return exactly the enclosed plaintext for any such
/// blob: together the two contracts are the round trip.
pub fn v4_encrypt(passphrase: &str, salt_label: &str, plaintext: &[u8]) -> (r: Result<
    Vec<u8>,
    CipherError,
>)
    requires
        plaintext@.len() <= V4_PT_MAX,
    ensures
        r matches Ok(b) ==> is_v4_encryption_of(
            passphrase.spec_bytes(),
            salt_label.spec_bytes(),
            plaintext@,
            b@,
        ) && b@.len() == plaintext@.len() + 213 && b@[0] == VERSION_V4,
        r matches Err(e) ==> e == CipherError::Kdf,
        passphrase.spec_bytes().len() + salt_label.spec_bytes().len() <= V4_PASS_MAX ==> r is Ok,
{
    let seed = derive_embedded_key();
    v4_encrypt_with_seed(&seed, passphrase, salt_label, plaintext)
}

} // verus!
