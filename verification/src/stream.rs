//! The seeded random word stream that feeds the simulation engine.
//!
//! Each worker owns one generator value exclusively and passes it by
//! mutable reference into every function that consumes randomness; no
//! ambient or global generator exists.  The generator is `rand`'s
//! standard one, a seeded 256-bit counter-based stream, modelled here as
//! a pure function `stream_word(seed, i)` of the seed bytes and the
//! number of words already drawn.  Everything downstream of the raw
//! words is verified, including the clamp that keeps uniform deviates
//! strictly inside the open unit interval.

use vstd::prelude::*;

use crate::fixed::{Fixed, SCALE};

verus! {

#[verifier::external_type_specification]
#[verifier::external_body]
pub struct ExStdRng(rand::rngs::StdRng);

/// The 32 seed bytes a generator state was built from; the standard
/// generator keeps them (as its cipher key) for the life of the state.
pub uninterp spec fn rng_seed(r: rand::rngs::StdRng) -> Seq<u8>;

/// How many 64-bit words the state has produced so far; the standard
/// generator carries this as its block counter and buffer index.
pub uninterp spec fn rng_pos(r: rand::rngs::StdRng) -> int;

/// The word the seeded stream yields at position `i`: a pure function of
/// the seed bytes and the position alone.
pub uninterp spec fn stream_word(seed: Seq<u8>, i: int) -> u64;

/// Relies on `rand::rngs::StdRng::from_seed`: building the standard
/// generator from 32 seed bytes is deterministic, and a fresh state has
/// produced no words yet.
#[verifier::external_body]
pub fn rng_from_seed(seed: &[u8; 32]) -> (r: rand::rngs::StdRng)
    ensures
        rng_seed(r) == seed@,
        rng_pos(r) == 0,
{
    <rand::rngs::StdRng as rand::SeedableRng>::from_seed(*seed)
}

/// Relies on `rand::RngCore::next_u64` for `StdRng`: each call returns
/// the next 64-bit word of the seeded counter-based stream and advances
/// the state by exactly one word.
#[verifier::external_body]
pub fn rng_next_word(rng: &mut rand::rngs::StdRng) -> (w: u64)
    ensures
        w == stream_word(rng_seed(*old(rng)), rng_pos(*old(rng))),
        rng_seed(*final(rng)) == rng_seed(*old(rng)),
        rng_pos(*final(rng)) == rng_pos(*old(rng)) + 1,
{
    rand::RngCore::next_u64(rng)
}

/// A uniform deviate derived from one stream word: the top 32 bits as a
/// Q32.32 fraction, with an exact zero clamped up to the smallest
/// positive value so the result never reaches either bound.
pub open spec fn s_uniform(w: u64) -> int {
    let hi = (w as int) / (SCALE as int);
    if hi == 0 {
        1
    } else {
        hi
    }
}

/// Draw one uniform deviate strictly inside the open unit interval.
///
/// A stream word whose top half is zero would map to an exact 0.0, which
/// the downstream logarithm cannot take; it is clamped to the smallest
/// representable positive value instead, so the returned deviate always
/// satisfies `0 < u < 1`.
pub fn next_uniform(rng: &mut rand::rngs::StdRng) -> (u: Fixed)
    ensures
        rng_seed(*final(rng)) == rng_seed(*old(rng)),
        rng_pos(*final(rng)) == rng_pos(*old(rng)) + 1,
        u@ == s_uniform(stream_word(rng_seed(*old(rng)), rng_pos(*old(rng)))),
        !u.neg,
        1 <= u.mag < SCALE,
{
    let w = rng_next_word(rng);
    let hi: u64 = w / SCALE;
    proof {
        assert(hi < SCALE) by {
            vstd::arithmetic::div_mod::lemma_div_is_ordered(
                w as int,
                u64::MAX as int,
                SCALE as int,
            );
            assert((u64::MAX as int) / (SCALE as int) < SCALE as int);
        }
    }
    if hi == 0 {
        Fixed::from_parts(false, 1)
    } else {
        Fixed::from_parts(false, hi)
    }
}

} // verus!
