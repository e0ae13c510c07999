//! Per-file operations over the fixed set of protected JSON files: encode
//! for the local context, decode with auto-detection, produce and check the
//! repository placeholders, upgrade legacy blobs in place, and the audit
//! checks behind integrity verification. Reading and writing the files
//! themselves is the caller's business; everything here maps bytes to bytes.

use vstd::prelude::*;
use vstd::string::StringSliceAdditionalSpecFns;
use vstd::utf8::{decode_utf8, encode_utf8_valid_utf8, is_ascii_chars_encode_utf8, valid_utf8};
use crate::bytes::{bytes_to_string, contains_bytes, contains_seq, trim_text, trim_text_of};
use crate::dispatch::{auto_decrypt_bytes, routes_to_v4, v2_accepts, v3_accepts};
use crate::envelope::{
    is_v4_encryption_of, lemma_v4_blob_starts_v4, v4_decrypt, v4_encrypt, V4_PASS_MAX, V4_PT_MAX,
};
use crate::{CipherError, VERSION_V4};

verus! {

/// The bytes of `"violet-soul-salt-local-2026"`, the local-context label.
pub open spec fn local_label_bytes() -> Seq<u8> {
    seq![
        0x76u8, 0x69, 0x6f, 0x6c, 0x65, 0x74, 0x2d, 0x73, 0x6f, 0x75, 0x6c, 0x2d, 0x73, 0x61,
        0x6c, 0x74, 0x2d, 0x6c, 0x6f, 0x63, 0x61, 0x6c, 0x2d, 0x32, 0x30, 0x32, 0x36,
    ]
}

/// The bytes of `"violet-soul-salt-git-2026"`, the repository-context label.
pub open spec fn git_label_bytes() -> Seq<u8> {
    seq![
        0x76u8, 0x69, 0x6f, 0x6c, 0x65, 0x74, 0x2d, 0x73, 0x6f, 0x75, 0x6c, 0x2d, 0x73, 0x61,
        0x6c, 0x74, 0x2d, 0x67, 0x69, 0x74, 0x2d, 0x32, 0x30, 0x32, 0x36,
    ]
}

/// The two-byte document `{}` that every repository placeholder encrypts.
pub open spec fn placeholder_bytes() -> Seq<u8> {
    seq![0x7bu8, 0x7d]
}

/// The salt label for local-context ciphertexts (`N.enc`).
pub fn local_salt_label() -> (r: &'static str)
    ensures
        r.spec_bytes() == local_label_bytes(),
{
    let s = "violet-soul-salt-local-2026";
    proof {
        reveal_strlit("violet-soul-salt-local-2026");
        is_ascii_chars_encode_utf8(s@);
        assert(s.spec_bytes() =~= local_label_bytes());
    }
    s
}

/// The salt label for repository placeholders (`N.git.enc`).
pub fn git_salt_label() -> (r: &'static str)
    ensures
        r.spec_bytes() == git_label_bytes(),
{
    let s = "violet-soul-salt-git-2026";
    proof {
        reveal_strlit("violet-soul-salt-git-2026");
        is_ascii_chars_encode_utf8(s@);
        assert(s.spec_bytes() =~= git_label_bytes());
    }
    s
}

/// The fixed list of protected file names, in processing order.
pub fn target_files() -> (r: Vec<&'static str>)
    ensures
        r@.len() == 3,
        r@[0]@ == "rules-index.json"@,
        r@[1]@ == "minds-index.json"@,
        r@[2]@ == "vibe-library.json"@,
{
    let mut v: Vec<&'static str> = Vec::new();
    v.push("rules-index.json");
    v.push("minds-index.json");
    v.push("vibe-library.json");
    v
}

/// The placeholder document is plain ASCII: valid UTF-8, decoding to the
/// two characters `{` `}`, which whitespace trimming leaves untouched.
pub proof fn lemma_placeholder_facts()
    ensures
        valid_utf8(placeholder_bytes()),
        decode_utf8(placeholder_bytes()) == seq!['{', '}'],
        trim_text(seq!['{', '}']) == seq!['{', '}'],
        placeholder_bytes().len() == 2,
{
    let chars = seq!['{', '}'];
    is_ascii_chars_encode_utf8(chars);
    assert(vstd::utf8::encode_utf8(chars) =~= placeholder_bytes());
    encode_utf8_valid_utf8(chars);
    vstd::utf8::encode_utf8_decode_utf8(chars);
    reveal_with_fuel(crate::bytes::trim_start_text, 2);
    reveal_with_fuel(crate::bytes::trim_end_text, 2);
    assert(!crate::bytes::is_ws_char('{'));
    assert(!crate::bytes::is_ws_char('}'));
}

/// Encrypt a plaintext for the local context: a fresh v4 envelope under the
/// local salt label.
pub fn encrypt_local_file(passphrase: &str, plaintext: &[u8]) -> (r: Result<Vec<u8>, CipherError>)
    requires
        plaintext@.len() <= V4_PT_MAX,
    ensures
        r matches Ok(b) ==> is_v4_encryption_of(
            passphrase.spec_bytes(),
            local_label_bytes(),
            plaintext@,
            b@,
        ) && b@.len() == plaintext@.len() + 213 && b@[0] == VERSION_V4,
        r matches Err(e) ==> e == CipherError::Kdf,
        passphrase.spec_bytes().len() + 27 <= V4_PASS_MAX ==> r is Ok,
{
    v4_encrypt(passphrase, local_salt_label(), plaintext)
}

/// Decode a local-context blob of any supported version into its UTF-8
/// plaintext bytes.
pub fn decrypt_local_file(passphrase: &str, data: &[u8]) -> (r: Result<Vec<u8>, CipherError>)
    ensures
        r matches Ok(p) ==> valid_utf8(p@) && p@.len() <= data@.len(),
        r matches Ok(p) ==> (routes_to_v4(data@) ==> forall|pt: Seq<u8>|
            #[trigger] is_v4_encryption_of(passphrase.spec_bytes(), local_label_bytes(), pt, data@)
                ==> p@ == pt),
        r is Err && passphrase.spec_bytes().len() + 27 <= V4_PASS_MAX ==> (routes_to_v4(data@)
            ==> forall|pt: Seq<u8>|
            #[trigger] is_v4_encryption_of(passphrase.spec_bytes(), local_label_bytes(), pt, data@)
                ==> !valid_utf8(pt)),
        r matches Ok(p) ==> (routes_to_v4(data@) && data@.len() <= V4_PT_MAX + 213
            ==> is_v4_encryption_of(passphrase.spec_bytes(), local_label_bytes(), p@, data@)),
        routes_to_v4(data@) && passphrase.spec_bytes().len() + 27 <= V4_PASS_MAX && (exists|
            pt: Seq<u8>,
        |
            #[trigger] is_v4_encryption_of(passphrase.spec_bytes(), local_label_bytes(), pt, data@)
                && !valid_utf8(pt)) ==> (r matches Err(e) && e == CipherError::Encoding),
        r matches Ok(p) ==> (!routes_to_v4(data@) ==> (v3_accepts(
            passphrase.spec_bytes(),
            local_label_bytes(),
            data@,
        ) matches Some(t) ==> p@ == t)),
        r matches Ok(p) ==> (!routes_to_v4(data@) && v3_accepts(
            passphrase.spec_bytes(),
            local_label_bytes(),
            data@,
        ) is None ==> (v2_accepts(passphrase.spec_bytes(), data@) matches Some(t) && p@ == t)),
        r is Err ==> (!routes_to_v4(data@) ==> v3_accepts(
            passphrase.spec_bytes(),
            local_label_bytes(),
            data@,
        ) is None && v2_accepts(passphrase.spec_bytes(), data@) is None),
        r matches Err(e) ==> (!routes_to_v4(data@) ==> e == CipherError::Auth),
{
    auto_decrypt_bytes(passphrase, local_salt_label(), data)
}

/// Produce one repository placeholder: a fresh v4 envelope of `{}` under
/// the git salt label. The source file is never read.
pub fn make_git_placeholder(passphrase: &str) -> (r: Result<Vec<u8>, CipherError>)
    ensures
        r matches Ok(b) ==> is_v4_encryption_of(
            passphrase.spec_bytes(),
            git_label_bytes(),
            placeholder_bytes(),
            b@,
        ) && b@.len() == 215 && b@[0] == VERSION_V4,
        r matches Err(e) ==> e == CipherError::Kdf,
        passphrase.spec_bytes().len() + 25 <= V4_PASS_MAX ==> r is Ok,
{
    let pt: [u8; 2] = [0x7bu8, 0x7d];
    proof {
        assert(pt@ =~= placeholder_bytes());
    }
    v4_encrypt(passphrase, git_salt_label(), pt.as_slice())
}

/// Outcome of checking one repository placeholder.
#[derive(Clone, Copy, Debug, PartialEq, Eq, Structural)]
pub enum GitCheck {
    /// Decrypts, and trims to exactly `{}`.
    Valid,
    /// Decrypts, but to something other than the empty document — real data
    /// has leaked into the repository file.
    WrongContent,
    /// Does not decrypt.
    Failed(CipherError),
}

impl GitCheck {
    /// Whether an audit counts this outcome as an issue: leaked data or a
    /// failed decryption, but not a valid placeholder.
    pub fn is_issue(&self) -> (r: bool)
        ensures
            r == !(*self is Valid),
    {
        match self {
            GitCheck::Valid => false,
            GitCheck::WrongContent => true,
            GitCheck::Failed(_) => true,
        }
    }
}

/// Check one repository placeholder: it must decrypt under the git label
/// and trim to exactly `{}`. Every placeholder this crate produced passes.
pub fn check_git_placeholder(passphrase: &str, data: &[u8]) -> (r: GitCheck)
    ensures
        is_v4_encryption_of(passphrase.spec_bytes(), git_label_bytes(), placeholder_bytes(), data@)
            && passphrase.spec_bytes().len() + 25 <= V4_PASS_MAX ==> r == GitCheck::Valid,
        r == GitCheck::Valid ==> (routes_to_v4(data@) ==> forall|pt: Seq<u8>|
            #[trigger] is_v4_encryption_of(passphrase.spec_bytes(), git_label_bytes(), pt, data@)
                ==> trim_text(decode_utf8(pt)) == seq!['{', '}']),
        r matches GitCheck::Failed(e) ==> (!routes_to_v4(data@) ==> e == CipherError::Auth),
{
    proof {
        lemma_placeholder_facts();
        if is_v4_encryption_of(
            passphrase.spec_bytes(),
            git_label_bytes(),
            placeholder_bytes(),
            data@,
        ) {
            lemma_v4_blob_starts_v4(
                passphrase.spec_bytes(),
                git_label_bytes(),
                placeholder_bytes(),
                data@,
            );
        }
    }
    match auto_decrypt_bytes(passphrase, git_salt_label(), data) {
        Ok(p) => {
            match bytes_to_string(p.as_slice()) {
                Some(text) => {
                    let trimmed = trim_text_of(text.as_str());
                    if trimmed.len() == 2 && trimmed[0] == '{' && trimmed[1] == '}' {
                        proof {
                            assert(trim_text(text@) =~= seq!['{', '}']);
                        }
                        GitCheck::Valid
                    } else {
                        proof {
                            if trim_text(text@) == seq!['{', '}'] {
                                assert(trimmed@.len() == 2 && trimmed@[0] == '{' && trimmed@[1]
                                    == '}');
                            }
                        }
                        GitCheck::WrongContent
                    }
                },
                None => GitCheck::WrongContent,
            }
        },
        Err(e) => GitCheck::Failed(e),
    }
}

/// A successful upgrade: the old blob was not v4, and the fresh one is a
/// well-formed local-context envelope of exactly the bytes one of the
/// legacy trials accepted.
pub open spec fn upgraded_to_v4(pass: Seq<u8>, data: Seq<u8>, b: Seq<u8>) -> bool {
    &&& !routes_to_v4(data)
    &&& b.len() > 0
    &&& b[0] == VERSION_V4
    &&& exists|pt: Seq<u8>|
        (v3_accepts(pass, local_label_bytes(), data) == Some(pt) || (v3_accepts(
            pass,
            local_label_bytes(),
            data,
        ) is None && v2_accepts(pass, data) == Some(pt))) && #[trigger] is_v4_encryption_of(
            pass,
            local_label_bytes(),
            pt,
            b,
        )
}

/// Upgrade one local-context blob in place: a blob already in v4 form is
/// left untouched (`Ok(None)`); a legacy blob is decoded with
/// auto-detection and re-encrypted as a fresh v4 envelope.
pub fn re_encrypt_step(passphrase: &str, data: &[u8]) -> (r: Result<Option<Vec<u8>>, CipherError>)
    requires
        data@.len() <= V4_PT_MAX,
    ensures
        data@.len() > 0 && data@[0] == VERSION_V4 ==> (r matches Ok(o) && o is None),
        r matches Ok(o) ==> (o is None ==> data@.len() > 0 && data@[0] == VERSION_V4),
        r matches Ok(o) ==> (o matches Some(b) ==> upgraded_to_v4(
            passphrase.spec_bytes(),
            data@,
            b@,
        )),
        r is Err && passphrase.spec_bytes().len() + 27 <= V4_PASS_MAX ==> (!routes_to_v4(data@)
            ==> v3_accepts(passphrase.spec_bytes(), local_label_bytes(), data@) is None
            && v2_accepts(passphrase.spec_bytes(), data@) is None),
        r matches Err(e) ==> e == CipherError::Auth || e == CipherError::Kdf,
{
    if data.len() > 0 {
        if data[0] == VERSION_V4 {
            return Ok(None);
        }
    }
    let plain = match decrypt_local_file(passphrase, data) {
        Ok(p) => p,
        Err(e) => { return Err(e); },
    };
    let fresh = match encrypt_local_file(passphrase, plain.as_slice()) {
        Ok(b) => b,
        Err(e) => { return Err(e); },
    };
    proof {
        let pb = passphrase.spec_bytes();
        assert(!routes_to_v4(data@));
        match v3_accepts(pb, local_label_bytes(), data@) {
            Some(t) => {
                assert(plain@ == t);
                assert(v3_accepts(pb, local_label_bytes(), data@) == Some(plain@));
            },
            None => {
                assert(v2_accepts(pb, data@) == Some(plain@));
            },
        }
        assert((v3_accepts(pb, local_label_bytes(), data@) == Some(plain@) || (v3_accepts(
            pb,
            local_label_bytes(),
            data@,
        ) is None && v2_accepts(pb, data@) == Some(plain@))) && is_v4_encryption_of(
            pb,
            local_label_bytes(),
            plain@,
            fresh@,
        ));
        assert(upgraded_to_v4(pb, data@, fresh@));
    }
    Ok(Some(fresh))
}

/// Whether a plaintext file betrays the passphrase: it is text and contains
/// the passphrase verbatim.
pub fn plaintext_leaks_key(content: &[u8], passphrase: &str) -> (r: bool)
    ensures
        r == (valid_utf8(content@) && contains_seq(content@, passphrase.spec_bytes())),
{
    let is_text = bytes_to_string(content).is_some();
    is_text && contains_bytes(content, passphrase.as_bytes())
}

/// Outcome of auditing one local-context ciphertext file.
#[derive(Clone, Copy, Debug, PartialEq, Eq, Structural)]
pub enum EncAudit {
    /// The file exists but is empty.
    Empty,
    /// A v4 envelope that decrypts to text.
    V4Text,
    /// A v4 envelope that decrypts, but not to UTF-8 text.
    V4Binary,
    /// A v4 envelope that fails to decrypt.
    V4Failed(CipherError),
    /// A legacy blob that still decodes; an upgrade is advisable.
    LegacyText,
    /// A legacy blob that no decoder accepts.
    LegacyFailed(CipherError),
}

impl EncAudit {
    /// Whether an audit counts this outcome as an issue. A readable legacy
    /// file is reported but sound; everything else that is not clean v4
    /// text counts.
    pub fn is_issue(&self) -> (r: bool)
        ensures
            r == !(*self is V4Text || *self is LegacyText),
    {
        match self {
            EncAudit::V4Text => false,
            EncAudit::LegacyText => false,
            _ => true,
        }
    }
}

/// Audit one local-context ciphertext: classify it by version and by
/// whether it still decrypts to text.
pub fn audit_enc(passphrase: &str, data: &[u8]) -> (r: EncAudit)
    ensures
        (r == EncAudit::Empty) == (data@.len() == 0),
        r == EncAudit::V4Text || r == EncAudit::V4Binary || r is V4Failed ==> routes_to_v4(
            data@,
        ),
        r == EncAudit::LegacyText || r is LegacyFailed ==> data@.len() > 0 && !routes_to_v4(
            data@,
        ),
        (exists|pt: Seq<u8>|
            #[trigger] is_v4_encryption_of(passphrase.spec_bytes(), local_label_bytes(), pt, data@)
                && valid_utf8(pt)) && passphrase.spec_bytes().len() + 27 <= V4_PASS_MAX ==> r
            == EncAudit::V4Text,
        r matches EncAudit::V4Failed(e) ==> e == CipherError::Malformed || e == CipherError::Auth || e
            == CipherError::Kdf || e == CipherError::Version,
        r matches EncAudit::LegacyFailed(e) ==> e == CipherError::Auth,
{
    if data.len() == 0 {
        return EncAudit::Empty;
    }
    if data[0] == VERSION_V4 {
        proof {
            if exists|pt: Seq<u8>|
                #[trigger] is_v4_encryption_of(
                    passphrase.spec_bytes(),
                    local_label_bytes(),
                    pt,
                    data@,
                ) && valid_utf8(pt) {
                let pt0 = choose|pt: Seq<u8>|
                    #[trigger] is_v4_encryption_of(
                        passphrase.spec_bytes(),
                        local_label_bytes(),
                        pt,
                        data@,
                    ) && valid_utf8(pt);
                lemma_v4_blob_starts_v4(
                    passphrase.spec_bytes(),
                    local_label_bytes(),
                    pt0,
                    data@,
                );
            }
        }
        match v4_decrypt(passphrase, local_salt_label(), data) {
            Ok(p) => {
                if bytes_to_string(p.as_slice()).is_some() {
                    EncAudit::V4Text
                } else {
                    EncAudit::V4Binary
                }
            },
            Err(e) => EncAudit::V4Failed(e),
        }
    } else {
        match auto_decrypt_bytes(passphrase, local_salt_label(), data) {
            Ok(_) => EncAudit::LegacyText,
            Err(e) => EncAudit::LegacyFailed(e),
        }
    }
}

} // verus!
