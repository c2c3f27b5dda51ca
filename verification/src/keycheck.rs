//! The handshake digest and its check.
//!
//! A connecting client proves possession of its node's key file by
//! hashing the key text together with the challenge nonce.  The
//! digest is FNV-1a over 64 bits, taken over the UTF-8 bytes of the
//! key text followed by the decimal rendering of the nonce, and sent
//! as sixteen lowercase hexadecimal digits.

use vstd::prelude::*;

use vstd::utf8::encode_utf8;

use crate::num::dec_u64;
use crate::num::hex_u64;
use crate::num::spec_dec;
use crate::num::spec_hex64;
use crate::name::str_eq;

verus! {

/// The FNV-1a offset basis.
pub open spec fn fnv_basis() -> u64 {
    0xcbf2_9ce4_8422_2325
}

/// One FNV-1a step: fold a byte in, then multiply by the prime,
/// wrapping at 64 bits.
pub open spec fn fnv_step(h: u64, b: u8) -> u64 {
    vstd::wrapping::u64_specs::wrapping_mul(h ^ (b as u64), 0x100_0000_01b3)
}

/// The FNV-1a hash of a byte sequence.
pub open spec fn spec_fnv64(bytes: Seq<u8>) -> u64
    decreases bytes.len(),
{
    if bytes.len() == 0 {
        fnv_basis()
    } else {
        fnv_step(spec_fnv64(bytes.drop_last()), bytes.last())
    }
}

/// Hashes a byte slice with FNV-1a.
pub fn fnv64(bytes: &[u8]) -> (h: u64)
    ensures
        h == spec_fnv64(bytes@),
{
    let n: usize = bytes.len();
    let mut h: u64 = 0xcbf2_9ce4_8422_2325;
    let mut i: usize = 0;
    proof {
        assert(bytes@.subrange(0, 0) =~= Seq::<u8>::empty());
    }
    while i < n
        invariant
            0 <= i <= n,
            n == bytes@.len(),
            h == spec_fnv64(bytes@.subrange(0, i as int)),
        decreases n - i,
    {
        let b = bytes[i];
        h = (h ^ (b as u64)).wrapping_mul(0x100_0000_01b3);
        proof {
            let t = bytes@.subrange(0, i as int + 1);
            assert(t.drop_last() =~= bytes@.subrange(0, i as int));
            assert(t.last() == bytes@[i as int]);
        }
        i = i + 1;
    }
    proof {
        assert(bytes@.subrange(0, n as int) =~= bytes@);
    }
    h
}

/// The digest a client must present: the FNV-1a hash of the UTF-8
/// bytes of the key text followed by the decimal nonce, in sixteen
/// lowercase hexadecimal digits.
pub open spec fn spec_digest(key: Seq<char>, nodekey: int) -> Seq<char> {
    spec_hex64(spec_fnv64(encode_utf8(key + spec_dec(nodekey))))
}

/// Computes the digest for a key text and a nonce.
pub fn compute_digest(keytext: &str, nodekey: u64) -> (r: String)
    ensures
        r@ == spec_digest(keytext@, nodekey as int),
{
    let keynum = dec_u64(nodekey);
    let joined = String::from_str(keytext).concat(keynum.as_str());
    let js = joined.as_str();
    let h = fnv64(js.as_bytes());
    proof {
        assert(js@ == keytext@ + spec_dec(nodekey as int));
    }
    hex_u64(h)
}

/// Validates a presented digest: it passes exactly when it equals the
/// digest of the key text and nonce.
pub fn check_nodekey(keytext: &str, nodekey: u64, idmess: &str) -> (r: bool)
    ensures
        r == (idmess@ == spec_digest(keytext@, nodekey as int)),
{
    let expect = compute_digest(keytext, nodekey);
    str_eq(idmess, expect.as_str())
}

} // verus!
