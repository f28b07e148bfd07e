//! Random choices of the wandering path generator.
use vstd::prelude::*;
use rand::rngs::{StdRng, ThreadRng};
use rand::{Rng, SeedableRng};

verus! {

/// The seed of a random choice: fixed, or drawn from the thread's generator.
#[derive(Debug, Clone, Copy, PartialEq, Eq, Structural)]
pub enum NoiseSeed {
    SetSeed(u64),
    NoSeed,
}

#[verifier::external_type_specification]
#[verifier::external_body]
pub struct ExStdRng(StdRng);

#[verifier::external_type_specification]
#[verifier::external_body]
pub struct ExThreadRng(ThreadRng);

/// `rand::rngs::StdRng::seed_from_u64`: a generator seeded with `seed`.
/// Nothing is claimed of its state.
#[verifier::external_body]
fn seeded_rng(seed: u64) -> StdRng {
    StdRng::seed_from_u64(seed)
}

/// `rand::thread_rng`: the thread's lazily seeded generator.
/// Nothing is claimed of its state.
#[verifier::external_body]
fn thread_rng() -> ThreadRng {
    rand::thread_rng()
}

/// `rand::Rng::gen_range` over `0..len` on a seeded generator: it panics on an
/// empty range, else returns an index below `len`. Which one is left to chance.
#[verifier::external_body]
fn seeded_index(rng: &mut StdRng, len: usize) -> (r: usize)
    requires
        len > 0,
    ensures
        r < len,
{
    rng.gen_range(0..len)
}

/// `rand::Rng::gen_range` over `0..len` on the thread's generator: it panics on
/// an empty range, else returns an index below `len`. Which one is left to chance.
#[verifier::external_body]
fn thread_index(rng: &mut ThreadRng, len: usize) -> (r: usize)
    requires
        len > 0,
    ensures
        r < len,
{
    rng.gen_range(0..len)
}

/// Whether step `i` of a walk under `seed` can derive its generator's seed:
/// a fixed seed is offset by the step number, which must not overflow.
pub open spec fn seed_offset_fits(seed: NoiseSeed, i: u64) -> bool {
    match seed {
        NoiseSeed::SetSeed(s) => s + i <= u64::MAX,
        NoiseSeed::NoSeed => true,
    }
}

/// The seed of the generator for step `i`: a fixed seed offset by the step
/// number; `None` when the thread's generator is used.
pub fn step_seed(seed: NoiseSeed, i: u64) -> (r: Option<u64>)
    requires
        seed_offset_fits(seed, i),
    ensures
        r == match seed {
            NoiseSeed::SetSeed(s) => Some((s + i) as u64),
            NoiseSeed::NoSeed => None::<u64>,
        },
{
    match seed {
        NoiseSeed::SetSeed(s) => Some(s + i),
        NoiseSeed::NoSeed => None,
    }
}

/// One element of `elements` drawn at random: with a fixed seed from a
/// generator seeded with `seed + i`, else from the thread's generator.
pub fn get_random_element<T: Copy>(elements: &Vec<T>, seed: NoiseSeed, i: u64) -> (r: T)
    requires
        elements@.len() > 0,
        seed_offset_fits(seed, i),
    ensures
        elements@.contains(r),
{
    let random_index = match step_seed(seed, i) {
        None => {
            let mut rng = thread_rng();
            thread_index(&mut rng, elements.len())
        },
        Some(s) => {
            let mut rng = seeded_rng(s);
            seeded_index(&mut rng, elements.len())
        },
    };
    elements[random_index]
}

} // verus!
