//! The pseudo-random stream that drives generation and work.
//!
//! A stream is a `ChaCha20Rng`. Verus sees it as an abstract value, the state
//! of the generator. Every draw is a function of that state: it yields a value
//! and leaves a new state. The functions without a body below name those
//! functions, one for each kind of draw, and the executable wrappers are
//! trusted to return exactly what they name.

use rand::Rng;
use rand::RngCore;
use rand::SeedableRng;
use rand_chacha::ChaCha20Rng;
use vstd::prelude::*;

verus! {

/// `rand_chacha::ChaCha20Rng`, carried through as an opaque value.
#[verifier::external_type_specification]
#[verifier::external_body]
pub struct ExChaCha20Rng(ChaCha20Rng);

/// The generator that `seed_from_u64` builds from `seed`.
pub uninterp spec fn seeded(seed: u64) -> ChaCha20Rng;

/// What drawing a `usize` uniformly from `low..=high` yields in state `rng`,
/// and the state it leaves. `rand` samples a `usize` at the width of the
/// target, so this is the draw at the width that `usize` has.
pub uninterp spec fn range_draw(rng: ChaCha20Rng, low: usize, high: usize) -> (usize, ChaCha20Rng);

/// What drawing a `u32` uniformly from `low..=high` yields in state `rng`, and
/// the state it leaves.
pub uninterp spec fn range_draw_u32(rng: ChaCha20Rng, low: u32, high: u32) -> (u32, ChaCha20Rng);

/// The next 64-bit word in state `rng`, and the state after it.
pub uninterp spec fn word_draw(rng: ChaCha20Rng) -> (u64, ChaCha20Rng);

/// The next `len` bytes in state `rng`, and the state after them.
pub uninterp spec fn bytes_draw(rng: ChaCha20Rng, len: nat) -> (Seq<u8>, ChaCha20Rng);

/// The value of a draw from `low..=high`, kept inside the range.
///
/// Every executable draw lands in its range, so this is what
/// [`draw_through`] and [`draw_below`] return; unlike the bare name it is
/// known to lie in the range wherever `low <= high`.
pub open spec fn pick(rng: ChaCha20Rng, low: usize, high: usize) -> usize {
    let value = range_draw(rng, low, high).0;
    if low <= value <= high {
        value
    } else {
        low
    }
}

/// The state that a draw from `low..=high` leaves.
pub open spec fn after_pick(rng: ChaCha20Rng, low: usize, high: usize) -> ChaCha20Rng {
    range_draw(rng, low, high).1
}

/// The value of a `u32` draw from `low..=high`, kept inside the range.
pub open spec fn pick_u32(rng: ChaCha20Rng, low: u32, high: u32) -> u32 {
    let value = range_draw_u32(rng, low, high).0;
    if low <= value <= high {
        value
    } else {
        low
    }
}

/// The state that a `u32` draw from `low..=high` leaves.
pub open spec fn after_pick_u32(rng: ChaCha20Rng, low: u32, high: u32) -> ChaCha20Rng {
    range_draw_u32(rng, low, high).1
}

/// The state after `count` 64-bit words have been drawn and thrown away.
pub open spec fn skip_words(rng: ChaCha20Rng, count: nat) -> ChaCha20Rng
    decreases count,
{
    if count == 0 {
        rng
    } else {
        word_draw(skip_words(rng, (count - 1) as nat)).1
    }
}

/// `SeedableRng::seed_from_u64` for `ChaCha20Rng`: the generator is a
/// function of the seed alone.
#[verifier::external_body]
pub(crate) fn seed_stream(seed: u64) -> (rng: ChaCha20Rng)
    ensures
        rng == seeded(seed),
{
    ChaCha20Rng::seed_from_u64(seed)
}

/// `Clone::clone` of `ChaCha20Rng`: the copy is in the state of the stream it
/// was made from.
#[verifier::external_body]
pub(crate) fn clone_stream(rng: &ChaCha20Rng) -> (copy: ChaCha20Rng)
    ensures
        copy == *rng,
{
    rng.clone()
}

/// `Rng::gen_range` on the inclusive range `low..=high` of `usize`: the value
/// lies in the range, and value and next state are functions of the state, of
/// `low` and of `high`. An empty range makes `rand` panic, so it is left out.
#[verifier::external_body]
pub(crate) fn draw_through(rng: &mut ChaCha20Rng, low: usize, high: usize) -> (value: usize)
    requires
        low <= high,
    ensures
        low <= value <= high,
        value == range_draw(*old(rng), low, high).0,
        *final(rng) == range_draw(*old(rng), low, high).1,
{
    rng.gen_range(low..=high)
}

/// `Rng::gen_range` on the half-open range `low..high` of `usize`, which
/// `rand` samples as `low..=high - 1`. An empty range makes `rand` panic, so
/// it is left out.
#[verifier::external_body]
pub(crate) fn draw_below(rng: &mut ChaCha20Rng, low: usize, high: usize) -> (value: usize)
    requires
        low < high,
    ensures
        low <= value < high,
        value == range_draw(*old(rng), low, (high - 1) as usize).0,
        *final(rng) == range_draw(*old(rng), low, (high - 1) as usize).1,
{
    rng.gen_range(low..high)
}

/// `Rng::gen_range` on the half-open range `low..high` of `u32`, which `rand`
/// samples as `low..=high - 1`. An empty range makes `rand` panic, so it is
/// left out.
#[verifier::external_body]
pub(crate) fn draw_below_u32(rng: &mut ChaCha20Rng, low: u32, high: u32) -> (value: u32)
    requires
        low < high,
    ensures
        low <= value < high,
        value == range_draw_u32(*old(rng), low, (high - 1) as u32).0,
        *final(rng) == range_draw_u32(*old(rng), low, (high - 1) as u32).1,
{
    rng.gen_range(low..high)
}

/// `Rng::gen::<u64>`, which is `RngCore::next_u64`: value and next state are
/// functions of the state.
#[verifier::external_body]
pub(crate) fn draw_word(rng: &mut ChaCha20Rng) -> (value: u64)
    ensures
        value == word_draw(*old(rng)).0,
        *final(rng) == word_draw(*old(rng)).1,
{
    rng.gen()
}

/// `RngCore::fill_bytes` on a fresh buffer of `len` bytes: the buffer comes
/// back full, and bytes and next state are functions of the state and of
/// `len`.
#[verifier::external_body]
pub(crate) fn draw_bytes(rng: &mut ChaCha20Rng, len: usize) -> (bytes: Vec<u8>)
    ensures
        bytes@.len() == len,
        bytes@ == bytes_draw(*old(rng), len as nat).0,
        *final(rng) == bytes_draw(*old(rng), len as nat).1,
{
    let mut bytes = vec![0u8; len];
    rng.fill_bytes(&mut bytes);
    bytes
}

} // verus!
