//! Randomized sampling over an explicit, seedable generator.
//!
//! Every random draw goes through a deterministic-interface wrapper around
//! `rand`'s `StdRng`, so the caller owns and seeds the source; nothing here
//! touches ambient process-wide randomness. Contracts promise only what holds
//! of every possible outcome (ranges, membership, permutation).
use vstd::prelude::*;
use rand::Rng;
use rand::SeedableRng;
use rand::seq::SliceRandom;
use crate::mathutil::{CAP, SCALE};

verus! {

#[verifier::external_type_specification]
#[verifier::external_body]
pub struct ExStdRng(rand::rngs::StdRng);

/// Relies on `rand::SeedableRng::seed_from_u64`: builds a generator from the
/// given seed, so runs with the same seed draw the same sequence.
#[verifier::external_body]
pub fn rng_from_seed(seed: u64) -> rand::rngs::StdRng {
    rand::rngs::StdRng::seed_from_u64(seed)
}

/// Relies on `rand::Rng::gen_range` over `0..n`: returns a value of that
/// half-open range, and panics only when the range is empty.
#[verifier::external_body]
pub fn rand_below(rng: &mut rand::rngs::StdRng, n: u64) -> (r: u64)
    requires
        n >= 1,
    ensures
        r < n,
{
    rng.gen_range(0..n)
}

/// Relies on `rand::seq::SliceRandom::shuffle`: permutes the elements in
/// place and neither adds nor removes any.
#[verifier::external_body]
pub fn shuffle<T>(items: &mut Vec<T>, rng: &mut rand::rngs::StdRng)
    ensures
        final(items)@.len() == old(items)@.len(),
        final(items)@.to_multiset() == old(items)@.to_multiset(),
{
    items.as_mut_slice().shuffle(rng)
}

/// A uniform draw from `[0, 1)` of the simulated reals, in micro-units.
pub fn random_float(rng: &mut rand::rngs::StdRng) -> (r: i64)
    ensures
        0 <= r < SCALE,
{
    rand_below(rng, SCALE as u64) as i64
}

/// A uniform draw from the half-open interval `[min, max)` of micro-units.
pub fn random_range(min: i64, max: i64, rng: &mut rand::rngs::StdRng) -> (r: i64)
    requires
        -CAP <= min < max <= CAP,
    ensures
        min <= r < max,
{
    let span: u64 = (max - min) as u64;
    let k = rand_below(rng, span);
    min + k as i64
}

/// A uniform draw from the closed interval `[min, max]`.
pub fn random_int(min: i32, max: i32, rng: &mut rand::rngs::StdRng) -> (r: i32)
    requires
        min <= max,
    ensures
        min <= r <= max,
{
    let span: u64 = (max as i64 - min as i64) as u64 + 1;
    let k = rand_below(rng, span);
    (min as i64 + k as i64) as i32
}

/// A uniform coin flip.
pub fn random_bool(rng: &mut rand::rngs::StdRng) -> bool {
    rand_below(rng, 2) == 1
}

/// A uniformly chosen element of the slice, or `None` when it is empty.
pub fn random_choice<'a, T>(items: &'a [T], rng: &mut rand::rngs::StdRng) -> (r: Option<
    &'a T,
>)
    ensures
        r is None <==> items@.len() == 0,
        r matches Some(x) ==> exists|i: int| 0 <= i < items@.len() && *x == items@[i],
{
    if items.len() == 0 {
        None
    } else {
        let k = rand_below(rng, items.len() as u64) as usize;
        Some(&items[k])
    }
}

/// A point of the rectangle `[0, width) x [0, height)`.
pub fn random_vector_in_rect(width: i64, height: i64, rng: &mut rand::rngs::StdRng) -> (r: (
    i64,
    i64,
))
    requires
        0 < width <= CAP,
        0 < height <= CAP,
    ensures
        0 <= r.0 < width,
        0 <= r.1 < height,
{
    let x = random_range(0, width, rng);
    let y = random_range(0, height, rng);
    (x, y)
}

/// A point of the closed disk of the given radius around the origin: sampled
/// by rejection from the bounding square, falling back to the center if no
/// draw lands inside.
pub fn random_vector_in_circle(radius: i64, rng: &mut rand::rngs::StdRng) -> (r: (i64, i64))
    requires
        0 < radius <= CAP,
    ensures
        -radius <= r.0 <= radius,
        -radius <= r.1 <= radius,
        r.0 * r.0 + r.1 * r.1 <= radius * radius,
{
    let mut tries: u8 = 0;
    while tries < 64
        invariant
            0 < radius <= CAP,
        decreases 64 - tries,
    {
        let x = random_range(-radius, radius, rng);
        let y = random_range(-radius, radius, rng);
        proof {
            assert(0 <= (x as i128) * (x as i128) <= CAP as int * CAP as int
                && 0 <= (y as i128) * (y as i128) <= CAP as int * CAP as int)
                by (nonlinear_arith)
                requires
                    -(CAP as int) <= x as int <= CAP as int,
                    -(CAP as int) <= y as int <= CAP as int,
            ;
            assert(0 <= (radius as i128) * (radius as i128) <= CAP as int * CAP as int)
                by (nonlinear_arith)
                requires
                    0 < radius as int <= CAP as int,
            ;
        }
        if (x as i128) * (x as i128) + (y as i128) * (y as i128)
            <= (radius as i128) * (radius as i128) {
            proof {
                assert(x as int * x as int == (x as i128) * (x as i128)
                    && y as int * y as int == (y as i128) * (y as i128)
                    && radius as int * radius as int == (radius as i128) * (radius as i128));
            }
            return (x, y);
        }
        tries = tries + 1;
    }
    proof {
        assert(0 * 0 + 0 * 0 <= radius as int * radius as int) by (nonlinear_arith)
            requires
                radius as int > 0,
        ;
    }
    (0, 0)
}

} // verus!
