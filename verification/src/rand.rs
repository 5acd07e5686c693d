//! The deterministic pseudo-random stream: a 16-bit linear-congruential
//! generator with an explicit, settable seed, consumed in a fixed order each
//! tick so runs are reproducible.

use vstd::prelude::*;

verus! {

/// The generator state.
#[derive(Clone, Copy, Debug, PartialEq, Eq, Structural)]
pub struct Rand8 {
    /// Current seed; set it explicitly for a reproducible run.
    pub seed: u16,
}

/// The seed after one step of the linear-congruential update.
pub open spec fn spec_rand8_next(s: u16) -> u16 {
    vstd::wrapping::u16_specs::wrapping_add(vstd::wrapping::u16_specs::wrapping_mul(s, 2053), 13849)
}

/// The byte a seed yields: its low byte plus its high byte, wrapping.
pub open spec fn spec_rand8_out(s: u16) -> u8 {
    vstd::wrapping::u8_specs::wrapping_add((s % 256) as u8, (s / 256) as u8)
}

/// The byte `random8lim` derives from a raw byte: scaled below `lim`.
pub open spec fn spec_rand8_lim(r: u8, lim: u8) -> u8 {
    (((r as int) * (lim as int)) / 256) as u8
}

/// The seed after `n` draws.
pub open spec fn spec_rand8_iter(s: u16, n: int) -> u16
    decreases n,
{
    if n <= 0 {
        s
    } else {
        spec_rand8_next(spec_rand8_iter(s, n - 1))
    }
}

impl Rand8 {
    /// A generator starting from `seed`.
    pub fn new(seed: u16) -> (r: Rand8)
        ensures
            r.seed == seed,
    {
        Rand8 { seed }
    }
}

/// Draw the next byte of the stream, advancing the seed once.
pub fn random8(rng: &mut Rand8) -> (r: u8)
    ensures
        final(rng).seed == spec_rand8_next(old(rng).seed),
        r == spec_rand8_out(final(rng).seed),
{
    rng.seed = rng.seed.wrapping_mul(2053).wrapping_add(13849);
    ((rng.seed % 256) as u8).wrapping_add((rng.seed / 256) as u8)
}

/// Draw a byte below `lim` (and below 255 even for `lim == 0`), advancing
/// the seed once.
pub fn random8lim(rng: &mut Rand8, lim: u8) -> (r: u8)
    ensures
        final(rng).seed == spec_rand8_next(old(rng).seed),
        r == spec_rand8_lim(spec_rand8_out(final(rng).seed), lim),
        lim > 0 ==> r < lim,
{
    let raw = random8(rng);
    proof {
        assert((raw as int) * (lim as int) <= 255 * (lim as int)) by (nonlinear_arith)
            requires 0 <= raw <= 255 && 0 <= lim;
        if lim > 0 {
            assert(255 * (lim as int) < 256 * (lim as int)) by (nonlinear_arith)
                requires lim > 0;
            assert(256 * (lim as int) / 256 == lim as int) by (nonlinear_arith)
                requires lim > 0;
            vstd::arithmetic::div_mod::lemma_div_is_ordered(
                (raw as int) * (lim as int),
                256 * (lim as int),
                256,
            );
        }
        assert(0 <= (raw as int) * (lim as int)) by (nonlinear_arith)
            requires 0 <= raw && 0 <= lim;
    }
    (((raw as u32) * (lim as u32)) / 256) as u8
}

/// Draw a byte in `min..lim` (wrapping when `lim < min`), advancing the seed
/// once.
pub fn random8minlim(rng: &mut Rand8, min: u8, lim: u8) -> (r: u8)
    ensures
        final(rng).seed == spec_rand8_next(old(rng).seed),
        r == vstd::wrapping::u8_specs::wrapping_add(
            spec_rand8_lim(
                spec_rand8_out(final(rng).seed),
                vstd::wrapping::u8_specs::wrapping_sub(lim, min),
            ),
            min,
        ),
{
    let delta = lim.wrapping_sub(min);
    random8lim(rng, delta).wrapping_add(min)
}

} // verus!
