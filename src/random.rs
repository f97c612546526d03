//! The seeded pseudo-random stream that the generator draws from: rand's
//! `StdRng`, seen through its seed and the number of words drawn so far.
use vstd::prelude::*;
use rand::rngs::StdRng;
use rand::{Rng, SeedableRng};

verus! {

#[verifier::external_type_specification]
#[verifier::external_body]
pub struct ExStdRng(rand::rngs::StdRng);

/// Where a stream stands: the seed it was made from, and how many 32-bit
/// words have been drawn from it since.
pub uninterp spec fn stream_of(r: StdRng) -> (u64, nat);

/// The 32-bit word at position `k` of the stream seeded with `seed`.
pub uninterp spec fn draw_at(seed: u64, k: nat) -> u32;

/// Relies on rand's `SeedableRng::seed_from_u64` for `StdRng`: a fresh
/// stream, determined by the seed alone, with nothing drawn from it yet.
#[verifier::external_body]
pub(crate) fn seeded(seed: u64) -> (r: StdRng)
    ensures
        stream_of(r) == (seed, 0nat),
{
    StdRng::seed_from_u64(seed)
}

/// Relies on rand's `Rng::random::<u32>` on `StdRng` (one `next_u32`): the
/// word at the stream's position, which then moves on by one.
#[verifier::external_body]
pub(crate) fn next_draw(rng: &mut StdRng) -> (r: u32)
    ensures
        r == draw_at(stream_of(*old(rng)).0, stream_of(*old(rng)).1),
        stream_of(*final(rng)) == (stream_of(*old(rng)).0, stream_of(*old(rng)).1 + 1),
{
    rng.random::<u32>()
}

} // verus!
