//! Draws from the seeded random generator used for radio chatter.

use vstd::prelude::*;
use rand::Rng;
use rand::SeedableRng;
use rand::rngs::StdRng;

verus! {

/// rand's seeded generator; what it holds is opaque to the proofs.
#[verifier::external_type_specification]
#[verifier::external_body]
pub struct ExStdRng(StdRng);

/// `rand::SeedableRng::seed_from_u64`: a generator seeded from `seed`. Nothing about the
/// draws it will give is stated.
#[verifier::external_body]
pub(crate) fn seeded_rng(seed: u64) -> StdRng {
    StdRng::seed_from_u64(seed)
}

/// `rand::Rng::gen_ratio`: `true` with probability `numerator / denominator`. The call
/// panics when `denominator` is 0 or `numerator` exceeds it, which `requires` excludes;
/// its documentation guarantees `false` for a zero numerator and `true` when the two
/// are equal. Otherwise the outcome depends on the generator's state and is not stated.
#[verifier::external_body]
pub(crate) fn draw_ratio(rng: &mut StdRng, numerator: u32, denominator: u32) -> (r: bool)
    requires
        0 < denominator,
        numerator <= denominator,
    ensures
        numerator == 0 ==> !r,
        numerator == denominator ==> r,
{
    rng.gen_ratio(numerator, denominator)
}

/// `rand::Rng::gen_range` over `lo..hi` with `u64` bounds: a value in the half-open range.
#[verifier::external_body]
pub(crate) fn draw_u64(rng: &mut StdRng, lo: u64, hi: u64) -> (r: u64)
    requires
        lo < hi,
    ensures
        lo <= r < hi,
{
    rng.gen_range(lo..hi)
}

/// `rand::Rng::gen_range` over `lo..hi` with `usize` bounds: a value in the half-open
/// range (the call panics on an empty range, which `requires` excludes). Which value
/// comes back depends on the generator's state and is not stated.
#[verifier::external_body]
pub(crate) fn draw_usize(rng: &mut StdRng, lo: usize, hi: usize) -> (r: usize)
    requires
        lo < hi,
    ensures
        lo <= r < hi,
{
    rng.gen_range(lo..hi)
}

/// `rand::Rng::gen_range` over `lo..hi` with `u32` bounds: a value in the half-open range.
#[verifier::external_body]
pub(crate) fn draw_u32(rng: &mut StdRng, lo: u32, hi: u32) -> (r: u32)
    requires
        lo < hi,
    ensures
        lo <= r < hi,
{
    rng.gen_range(lo..hi)
}

/// `rand::Rng::gen_range` over `lo..hi` with `u8` bounds: a value in the half-open range.
#[verifier::external_body]
pub(crate) fn draw_u8(rng: &mut StdRng, lo: u8, hi: u8) -> (r: u8)
    requires
        lo < hi,
    ensures
        lo <= r < hi,
{
    rng.gen_range(lo..hi)
}

/// `rand::Rng::gen_range` over `lo..hi` with `u16` bounds: a value in the half-open range.
#[verifier::external_body]
pub(crate) fn draw_u16(rng: &mut StdRng, lo: u16, hi: u16) -> (r: u16)
    requires
        lo < hi,
    ensures
        lo <= r < hi,
{
    rng.gen_range(lo..hi)
}

/// `rand::Rng::gen_range` over `lo..hi` with `i32` bounds: a value in the half-open range.
#[verifier::external_body]
pub(crate) fn draw_i32(rng: &mut StdRng, lo: i32, hi: i32) -> (r: i32)
    requires
        lo < hi,
    ensures
        lo <= r < hi,
{
    rng.gen_range(lo..hi)
}

} // verus!
