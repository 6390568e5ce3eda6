//! A stable, non-cryptographic identity of some bytes.
use vstd::prelude::*;
use vstd::string::StringExecFns;

use crate::text::{padded_hex, padded_hex_of};

verus! {

pub const FNV_BASIS: u64 = 0xcbf29ce484222325;

pub const FNV_PRIME: u64 = 0x100000001b3;

/// FNV-1a with 64 bits.
pub open spec fn fnv1a(bytes: Seq<u8>) -> u64
    decreases bytes.len(),
{
    if bytes.len() == 0 {
        FNV_BASIS
    } else {
        fnv_step(fnv1a(bytes.drop_last()), bytes.last())
    }
}

pub open spec fn fnv_step(hash: u64, byte: u8) -> u64 {
    (((hash ^ (byte as u64)) * FNV_PRIME) % 0x1_0000_0000_0000_0000) as u64
}

/// FNV-1a with 64 bits.
pub fn stable_fingerprint(bytes: &Vec<u8>) -> (r: u64)
    ensures
        r == fnv1a(bytes@),
{
    let mut hash: u64 = FNV_BASIS;
    let mut i: usize = 0;
    while i < bytes.len()
        invariant
            i <= bytes@.len(),
            hash == fnv1a(bytes@.take(i as int)),
        decreases bytes@.len() - i,
    {
        proof {
            assert(bytes@.take(i + 1).drop_last() =~= bytes@.take(i as int));
        }
        hash = (hash ^ (bytes[i] as u64)).wrapping_mul(FNV_PRIME);
        i += 1;
    }
    assert(bytes@.take(i as int) =~= bytes@);
    hash
}

/// How a fingerprint is written in a plan.
pub open spec fn fingerprint_text(hash: u64) -> Seq<char> {
    "fnv1a64:"@ + padded_hex_of(hash as nat, 16)
}

pub fn show_fingerprint(hash: u64) -> (r: String)
    ensures
        r@ == fingerprint_text(hash),
{
    let mut out = "fnv1a64:".to_owned();
    out.append(padded_hex(hash, 16).as_str());
    out
}

} // verus!
