//! Random numbers. The game takes them from the `rand` crate; what it does
//! with them is decided elsewhere, for every number that may come back.

use vstd::prelude::*;
use vstd::bytes::{spec_u32_to_le_bytes, spec_u64_to_le_bytes, u32_to_le_bytes, u64_to_le_bytes};
use vstd::std_specs::hash::DefaultHasherAdditionalSpecFns;
use std::collections::hash_map::DefaultHasher;
use std::hash::Hasher;
use rand::{Rng, SeedableRng};
use rand::rngs::StdRng;
use crate::types::Coord;

verus! {

/// The first number below 8 that `rand`'s standard generator yields after it
/// has been seeded with `seed`.
pub uninterp spec fn seeded_draw(seed: u64) -> u32;

/// Calls `StdRng::seed_from_u64(seed)` and draws once from the new generator
/// with `gen_range(0..8u32)`. The generator is a deterministic stream cipher,
/// and a range of `u32` is sampled alike on every machine, so the draw is a
/// function of the seed; `gen_range` stays inside its range. Neither is
/// proved here.
#[verifier::external_body]
fn draw_from_seed(seed: u64) -> (n: u32)
    ensures
        n == seeded_draw(seed),
        n < 8,
{
    StdRng::seed_from_u64(seed).gen_range(0..8u32)
}

/// Calls `rand::thread_rng().gen_range(low..high)`, which yields a number of
/// the range and panics on an empty one. Which number comes is left open.
#[verifier::external_body]
pub(crate) fn random_range(low: usize, high: usize) -> (n: usize)
    requires
        low < high,
    ensures
        low <= n < high,
{
    rand::thread_rng().gen_range(low..high)
}

/// Calls `rand::thread_rng().gen()` for a `u32`. Any value may come.
#[verifier::external_body]
pub(crate) fn random_u32() -> u32 {
    rand::thread_rng().gen()
}

/// A random number of `0..100`: the roll that decides whether a seed grows
/// or spreads on this tick.
pub fn roll_percent() -> (roll: usize)
    ensures
        roll < 100,
{
    random_range(0, 100)
}

/// What is hashed for a cell's draw: the column, the row and the frame
/// number as 8 bytes each and the salt as 4 bytes, all least byte first.
pub open spec fn seed_input(coord: Coord, frame_num: usize, salt: u32) -> Seq<Seq<u8>> {
    seq![
        spec_u64_to_le_bytes(coord.x as u64),
        spec_u64_to_le_bytes(coord.y as u64),
        spec_u64_to_le_bytes(frame_num as u64),
        spec_u32_to_le_bytes(salt),
    ]
}

/// The seed of a cell's generator on a frame: the default hash of its
/// `seed_input`.
pub open spec fn cell_seed(coord: Coord, frame_num: usize, salt: u32) -> u64 {
    DefaultHasher::spec_finish(seed_input(coord, frame_num, salt))
}

/// The neighbour that the cell at `coord` picks on frame `frame_num`: a
/// number below 8 that depends on nothing but the three arguments. It is the
/// draw that belongs to the cell's seed. That draw is below 8, so taking its
/// remainder changes nothing; it makes the bound known wherever the pick is
/// spoken of.
pub open spec fn draw_of(coord: Coord, frame_num: usize, salt: u32) -> usize {
    (seeded_draw(cell_seed(coord, frame_num, salt)) % 8) as usize
}

/// Hashes a cell's place, the frame number and the salt into a seed.
pub fn local_seed(coord: Coord, frame_num: usize, salt: u32) -> (seed: u64)
    ensures
        seed == cell_seed(coord, frame_num, salt),
{
    let x = u64_to_le_bytes(coord.x as u64);
    let y = u64_to_le_bytes(coord.y as u64);
    let frame = u64_to_le_bytes(frame_num as u64);
    let salt_bytes = u32_to_le_bytes(salt);
    let mut hasher = DefaultHasher::new();
    hasher.write(x.as_slice());
    hasher.write(y.as_slice());
    hasher.write(frame.as_slice());
    hasher.write(salt_bytes.as_slice());
    proof {
        assert(hasher@ =~= seed_input(coord, frame_num, salt));
    }
    hasher.finish()
}

/// The draw that belongs to `seed`.
pub fn draw_with_seed(seed: u64) -> (n: usize)
    ensures
        n == seeded_draw(seed),
        n < 8,
{
    draw_from_seed(seed) as usize
}

/// The neighbour that the cell at `coord` picks on frame `frame_num`. Any
/// caller that knows the three arguments gets the same number, so a cell can
/// work out the picks of its neighbours without asking them.
pub fn local_draw(coord: Coord, frame_num: usize, salt: u32) -> (n: usize)
    ensures
        n == draw_of(coord, frame_num, salt),
        n < 8,
{
    draw_with_seed(local_seed(coord, frame_num, salt))
}

} // verus!
