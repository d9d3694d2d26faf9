//! Random numbers.
//!
//! The system's generator is chance, so its contract says only what holds of every
//! outcome. `StdRng` is a generator with a state: what it yields next follows from the
//! state, and the contracts name it.

use rand::rngs::StdRng;
use rand::{Rng, SeedableRng};
use rand_core::{OsRng, RngCore};
use vstd::prelude::*;

verus! {

/// `rand::rngs::StdRng`: a deterministic generator. Nothing here looks inside.
#[verifier::external_type_specification]
#[verifier::external_body]
pub struct ExStdRng(StdRng);

/// The next 64-bit word of a generator, and the generator behind it.
pub uninterp spec fn std_rng_word(rng: StdRng) -> (u64, StdRng);

/// The next number in `lo..=hi` of a generator, and the generator behind it.
pub uninterp spec fn std_rng_range(rng: StdRng, lo: u64, hi: u64) -> (u64, StdRng);

/// Draws `count` bytes with `rand_core::OsRng::fill_bytes`, which fills the whole
/// buffer that it is given from the generator of the operating system. Nothing is
/// said of their values. (`fill_bytes` panics where the system has no generator.)
#[verifier::external_body]
pub(crate) fn os_random(count: usize) -> (bytes: Vec<u8>)
    requires
        count <= 0xffff,
    ensures
        bytes@.len() == count,
{
    let mut bytes = vec![0u8; count];
    OsRng.fill_bytes(&mut bytes);
    bytes
}

/// A generator seeded by the operating system, with `StdRng::from_entropy`. Nothing is
/// said of its state.
#[verifier::external_body]
pub(crate) fn seeded_by_system() -> StdRng {
    StdRng::from_entropy()
}

/// Draws a word with `StdRng::next_u64`, a function of the generator's state.
#[verifier::external_body]
pub(crate) fn draw_word(rng: &mut StdRng) -> (word: u64)
    ensures
        (word, *final(rng)) == std_rng_word(*old(rng)),
{
    rng.next_u64()
}

/// Draws a number with `Rng::gen_range(lo..=hi)`, a function of the generator's state
/// and the bounds, between them. (`gen_range` panics on an empty range.)
#[verifier::external_body]
pub(crate) fn draw_range(rng: &mut StdRng, lo: u64, hi: u64) -> (x: u64)
    requires
        lo <= hi,
    ensures
        (x, *final(rng)) == std_rng_range(*old(rng), lo, hi),
        lo <= x <= hi,
{
    rng.gen_range(lo..=hi)
}

/// Draws a number below `bound` with `Rng::gen_range(0..bound)` of `rand::thread_rng`,
/// whose state the system seeds: any number below the bound may come.
#[verifier::external_body]
pub(crate) fn draw_below(bound: u64) -> (x: u64)
    requires
        bound > 0,
    ensures
        x < bound,
{
    rand::thread_rng().gen_range(0..bound)
}

} // verus!
