//! The two cryptographic primitives that the CPU-bound work is made of.
//!
//! Both are computed by `ring`. Their results are functions of their inputs
//! alone, far too long to write down here, so each gets a name and the
//! executable wrapper is trusted to return exactly that.

use std::num::NonZeroU32;
use vstd::prelude::*;

verus! {

/// Length in bytes of a SHA-256 digest.
pub const SHA256_LEN: usize = 32;

/// The SHA-256 digest of `data`.
pub uninterp spec fn sha256(data: Seq<u8>) -> Seq<u8>;

/// The first `len` bytes of the PBKDF2-HMAC-SHA512 key derived from `secret`
/// with `salt` and `iterations` rounds.
pub uninterp spec fn pbkdf2_hmac_sha512(
    iterations: u32,
    salt: Seq<u8>,
    secret: Seq<u8>,
    len: nat,
) -> Seq<u8>;

/// `ring::digest::digest` with `ring::digest::SHA256`: the digest is a
/// function of the input bytes and is 32 bytes long. `ring` gives up on inputs
/// whose bit length overflows 64 bits; the bound here stays far below that.
#[verifier::external_body]
pub(crate) fn sha256_digest(data: &Vec<u8>) -> (out: Vec<u8>)
    requires
        data@.len() <= u32::MAX,
    ensures
        out@ == sha256(data@),
        out@.len() == SHA256_LEN,
{
    ring::digest::digest(&ring::digest::SHA256, data.as_slice()).as_ref().to_vec()
}

/// `ring::pbkdf2::derive` with `ring::pbkdf2::PBKDF2_HMAC_SHA512`: fills a
/// buffer of `len` bytes with a key that is a function of the iteration count,
/// the salt, the secret and `len`. `ring` wants a non-zero iteration count and
/// gives up on an output longer than `u32::MAX` digests or on inputs whose bit
/// length overflows 64 bits; the bounds here stay below all of these.
#[verifier::external_body]
pub(crate) fn pbkdf2_derive(iterations: u32, salt: &Vec<u8>, secret: &Vec<u8>, len: usize) -> (out:
    Vec<u8>)
    requires
        iterations > 0,
        salt@.len() <= u32::MAX,
        secret@.len() <= u32::MAX,
        len <= u32::MAX,
    ensures
        out@ == pbkdf2_hmac_sha512(iterations, salt@, secret@, len as nat),
        out@.len() == len,
{
    let mut out = vec![0u8; len];
    let rounds = NonZeroU32::new(iterations).unwrap();
    ring::pbkdf2::derive(ring::pbkdf2::PBKDF2_HMAC_SHA512, rounds, salt, secret, &mut out);
    out
}

} // verus!
