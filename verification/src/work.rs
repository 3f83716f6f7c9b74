//! The CPU-bound work of the three kinds.
//!
//! Each kind derives a private stream from the seed and is a function of the
//! seed alone. The specification of each output follows the draws of the
//! stream in the order in which they are made.

use crate::hashing::{pbkdf2_derive, pbkdf2_hmac_sha512, sha256, sha256_digest, SHA256_LEN};
use crate::stream::{
    after_pick, after_pick_u32, bytes_draw, draw_below, draw_below_u32, draw_bytes, draw_word,
    pick, pick_u32, seed_stream, seeded, skip_words, word_draw,
};
use crate::task::TaskType;
use vstd::prelude::*;

verus! {

/// Lower end of the range that a round count is drawn from.
pub const MIN_ROUNDS: usize = 0x10000;

/// Upper end (exclusive) of the range that a round count is drawn from.
pub const MAX_ROUNDS: usize = 0x20000;

/// Length in bytes of the state that `Derive` works on, and of the key it
/// derives.
pub const DERIVE_LEN: usize = 64;

/// The 64-bit value that the eight bytes from `offset` on spell, least
/// significant byte first.
pub open spec fn le_u64(bytes: Seq<u8>, offset: int) -> u64 {
    (bytes[offset] as u64) | (bytes[offset + 1] as u64) << 8 | (bytes[offset + 2] as u64) << 16 | (
    bytes[offset + 3] as u64) << 24 | (bytes[offset + 4] as u64) << 32 | (bytes[offset + 5] as u64)
        << 40 | (bytes[offset + 6] as u64) << 48 | (bytes[offset + 7] as u64) << 56
}

/// `state` after `rounds` rounds of SHA-256, each round hashing the digest of
/// the one before.
pub open spec fn sha256_rounds(state: Seq<u8>, rounds: nat) -> Seq<u8>
    decreases rounds,
{
    if rounds == 0 {
        state
    } else {
        sha256(sha256_rounds(state, (rounds - 1) as nat))
    }
}

/// Output of `Hash` for the given seed: a round count from
/// `MIN_ROUNDS..MAX_ROUNDS` is drawn, then a state of 32 bytes, which is
/// hashed that many times over, then an offset from `0..24`, at which the
/// output is read from the last digest.
pub open spec fn hash_output(seed: u64) -> u64 {
    let start = seeded(seed);
    let rounds = pick(start, MIN_ROUNDS, (MAX_ROUNDS - 1) as usize);
    let drawn = after_pick(start, MIN_ROUNDS, (MAX_ROUNDS - 1) as usize);
    let state = bytes_draw(drawn, SHA256_LEN as nat);
    let hashed = sha256_rounds(state.0, rounds as nat);
    let offset = pick(state.1, 0, (SHA256_LEN - 9) as usize);
    le_u64(hashed, offset as int)
}

/// Output of `Derive` for the given seed: a state of 64 bytes is drawn, then
/// a round count from `MIN_ROUNDS..MAX_ROUNDS`; a key of 64 bytes is derived
/// with the first half of the state as salt and the second half as secret;
/// then an offset from `0..56` is drawn, at which the output is read from the
/// key.
pub open spec fn derive_output(seed: u64) -> u64 {
    let state = bytes_draw(seeded(seed), DERIVE_LEN as nat);
    let rounds = pick_u32(state.1, MIN_ROUNDS as u32, (MAX_ROUNDS - 1) as u32);
    let drawn = after_pick_u32(state.1, MIN_ROUNDS as u32, (MAX_ROUNDS - 1) as u32);
    let key = pbkdf2_hmac_sha512(
        rounds,
        state.0.subrange(0, DERIVE_LEN as int / 2),
        state.0.subrange(DERIVE_LEN as int / 2, DERIVE_LEN as int),
        DERIVE_LEN as nat,
    );
    let offset = pick(drawn, 0, (DERIVE_LEN - 9) as usize);
    le_u64(key, offset as int)
}

/// Output of `Random` for the given seed: a round count from
/// `MIN_ROUNDS..MAX_ROUNDS` is drawn, that many words of the stream are
/// thrown away, and the next word is the output.
pub open spec fn random_output(seed: u64) -> u64 {
    let start = seeded(seed);
    let rounds = pick(start, MIN_ROUNDS, (MAX_ROUNDS - 1) as usize);
    let drawn = after_pick(start, MIN_ROUNDS, (MAX_ROUNDS - 1) as usize);
    word_draw(skip_words(drawn, rounds as nat)).0
}

/// Output of the work of `kind` for the given seed.
pub open spec fn work_output(kind: TaskType, seed: u64) -> u64 {
    match kind {
        TaskType::Hash => hash_output(seed),
        TaskType::Derive => derive_output(seed),
        TaskType::Random => random_output(seed),
    }
}

/// Reads eight bytes from `offset` on as a little-endian `u64`.
pub fn read_u64_le(bytes: &Vec<u8>, offset: usize) -> (value: u64)
    requires
        offset + 8 <= bytes.len(),
    ensures
        value == le_u64(bytes@, offset as int),
{
    (bytes[offset] as u64) | (bytes[offset + 1] as u64) << 8 | (bytes[offset + 2] as u64) << 16 | (
    bytes[offset + 3] as u64) << 24 | (bytes[offset + 4] as u64) << 32 | (bytes[offset + 5] as u64)
        << 40 | (bytes[offset + 6] as u64) << 48 | (bytes[offset + 7] as u64) << 56
}

/// Copies `bytes[from..to]`.
pub fn copy_range(bytes: &Vec<u8>, from: usize, to: usize) -> (part: Vec<u8>)
    requires
        from <= to <= bytes.len(),
    ensures
        part@ == bytes@.subrange(from as int, to as int),
{
    let mut part: Vec<u8> = Vec::new();
    let mut i: usize = from;
    while i < to
        invariant
            from <= i <= to <= bytes.len(),
            part@ == bytes@.subrange(from as int, i as int),
        decreases to - i,
    {
        part.push(bytes[i]);
        i += 1;
    }
    part
}

/// The work of `Hash`: draws a round count and a 32-byte state, hashes the
/// state that many times over, and reads the output at a drawn offset of the
/// last digest.
pub fn do_hash(seed: u64) -> (output: u64)
    ensures
        output == hash_output(seed),
{
    let mut rng = seed_stream(seed);
    let rounds: usize = draw_below(&mut rng, MIN_ROUNDS, MAX_ROUNDS);
    let mut state: Vec<u8> = draw_bytes(&mut rng, SHA256_LEN);
    let ghost initial = state@;
    let mut i: usize = 0;
    while i < rounds
        invariant
            i <= rounds,
            state@.len() == SHA256_LEN,
            state@ == sha256_rounds(initial, i as nat),
        decreases rounds - i,
    {
        state = sha256_digest(&state);
        i += 1;
    }
    let take_from: usize = draw_below(&mut rng, 0, SHA256_LEN - 8);
    read_u64_le(&state, take_from)
}

/// The work of `Derive`: draws a 64-byte state and a round count, derives a
/// 64-byte key with the first half of the state as salt and the second as
/// secret, and reads the output at a drawn offset of the key.
pub fn do_derive(seed: u64) -> (output: u64)
    ensures
        output == derive_output(seed),
{
    let mut rng = seed_stream(seed);
    let state: Vec<u8> = draw_bytes(&mut rng, DERIVE_LEN);
    let rounds: u32 = draw_below_u32(&mut rng, MIN_ROUNDS as u32, MAX_ROUNDS as u32);
    let salt = copy_range(&state, 0, DERIVE_LEN / 2);
    let secret = copy_range(&state, DERIVE_LEN / 2, DERIVE_LEN);
    let out: Vec<u8> = pbkdf2_derive(rounds, &salt, &secret, DERIVE_LEN);
    let take_from: usize = draw_below(&mut rng, 0, DERIVE_LEN - 8);
    read_u64_le(&out, take_from)
}

/// The work of `Random`: draws a round count, throws that many words of the
/// stream away, and returns the next one.
pub fn do_random(seed: u64) -> (output: u64)
    ensures
        output == random_output(seed),
{
    let mut rng = seed_stream(seed);
    let rounds: usize = draw_below(&mut rng, MIN_ROUNDS, MAX_ROUNDS);
    let ghost drawn = rng;
    let mut i: usize = 0;
    while i < rounds
        invariant
            i <= rounds,
            rng == skip_words(drawn, i as nat),
        decreases rounds - i,
    {
        let _ = draw_word(&mut rng);
        i += 1;
    }
    draw_word(&mut rng)
}

/// The work of `kind`.
pub fn do_work(kind: TaskType, seed: u64) -> (output: u64)
    ensures
        output == work_output(kind, seed),
{
    match kind {
        TaskType::Hash => do_hash(seed),
        TaskType::Derive => do_derive(seed),
        TaskType::Random => do_random(seed),
    }
}

} // verus!
