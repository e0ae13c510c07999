//! The build-embedded seed: a 32-byte constant recovered from an obscured
//! literal. It keys the outer HMAC tag of every v4 envelope and is appended
//! to every current-format KDF input, binding ciphertexts to this build.

use vstd::prelude::*;

verus! {

/// The obscured 32-byte literal as it sits in the binary.
pub open spec fn seed_literal() -> Seq<u8> {
    seq![
        0x56u8, 0x31, 0x30, 0x6c, 0x33, 0x74, 0x2d, 0x43,
        0x31, 0x70, 0x68, 0x33, 0x72, 0x2d, 0x53, 0x33,
        0x33, 0x64, 0x2d, 0x32, 0x30, 0x32, 0x36, 0x2d,
        0x4b, 0x6c, 0x34, 0x75, 0x64, 0x31, 0x61, 0x21,
    ]
}

/// Per-index mask applied to the literal; a fixed, reversible transform that
/// only keeps the seed out of a trivial string search over the binary.
pub open spec fn seed_mask(i: int) -> u8 {
    ((i * 0x5a + 0x3c) % 256) as u8
}

/// The effective 32-byte seed: the literal with the index mask XORed in.
pub open spec fn seed_bytes() -> Seq<u8> {
    Seq::new(32, |i: int| seed_literal()[i] ^ seed_mask(i))
}

/// Recover the embedded seed from the obscured literal.
pub fn derive_embedded_key() -> (key: [u8; 32])
    ensures
        key@ == seed_bytes(),
{
    let lit: [u8; 32] = [
        0x56u8, 0x31, 0x30, 0x6c, 0x33, 0x74, 0x2d, 0x43,
        0x31, 0x70, 0x68, 0x33, 0x72, 0x2d, 0x53, 0x33,
        0x33, 0x64, 0x2d, 0x32, 0x30, 0x32, 0x36, 0x2d,
        0x4b, 0x6c, 0x34, 0x75, 0x64, 0x31, 0x61, 0x21,
    ];
    proof {
        assert(lit@ =~= seed_literal());
    }
    let mut key: [u8; 32] = [0u8; 32];
    let mut i: usize = 0;
    while i < 32
        invariant
            i <= 32,
            lit@ == seed_literal(),
            key@.len() == 32,
            forall|j: int| 0 <= j < i ==> key@[j] == seed_bytes()[j],
        decreases 32 - i,
    {
        let mask: u8 = ((i * 0x5a + 0x3c) % 256) as u8;
        key[i] = lit[i] ^ mask;
        i = i + 1;
    }
    proof {
        assert(key@ =~= seed_bytes());
    }
    key
}

} // verus!
