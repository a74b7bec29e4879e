//! The content digest recorded in manifests.
//!
//! A 64-bit Fowler–Noll–Vo (FNV-1a) digest: a pure function of the content
//! bytes, so equal content always carries equal digests in a manifest.

use vstd::prelude::*;

verus! {

/// FNV-1a 64-bit offset basis.
pub const FNV_OFFSET: u64 = 0xcbf29ce484222325;

/// FNV-1a 64-bit prime.
pub const FNV_PRIME: u64 = 0x100000001b3;

/// One FNV-1a round: fold a byte in, multiply by the prime modulo 2^64.
pub open spec fn fnv_step(h: u64, b: u8) -> u64 {
    ((((h ^ (b as u64)) as int) * (FNV_PRIME as int)) % 0x10000000000000000) as u64
}

/// The digest state after absorbing the bytes from position `i` onward.
pub open spec fn fnv64_from(s: Seq<u8>, i: int, h: u64) -> u64
    decreases s.len() - i,
    when 0 <= i <= s.len()
{
    if i >= s.len() {
        h
    } else {
        fnv64_from(s, i + 1, fnv_step(h, s[i]))
    }
}

/// The FNV-1a 64-bit digest of a byte string.
pub open spec fn fnv64(s: Seq<u8>) -> u64 {
    fnv64_from(s, 0, FNV_OFFSET)
}

/// Computes the FNV-1a 64-bit digest of `data`.
pub fn fnv64_digest(data: &Vec<u8>) -> (h: u64)
    ensures
        h == fnv64(data@),
{
    let mut h: u64 = FNV_OFFSET;
    let mut i: usize = 0;
    while i < data.len()
        invariant
            i <= data@.len(),
            fnv64_from(data@, i as int, h) == fnv64(data@),
        decreases data@.len() - i,
    {
        let x: u64 = h ^ (data[i] as u64);
        proof {
            assert((x as int) * (FNV_PRIME as int) < 0x100000000000000000000000000000000)
                by (nonlinear_arith)
                requires
                    x <= u64::MAX,
            ;
        }
        let wide: u128 = (x as u128) * (FNV_PRIME as u128);
        h = (wide % 0x10000000000000000u128) as u64;
        i += 1;
    }
    h
}

} // verus!
