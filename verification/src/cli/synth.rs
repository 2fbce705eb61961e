//! Deterministic pseudo-random source of the synthetic dataset generator.

use vstd::prelude::*;

verus! {

/// One xorshift step of the generator state.
pub open spec fn xorshift(s: u64) -> u64 {
    let a = s ^ (s >> 12u64);
    let b = a ^ (a << 25u64);
    b ^ (b >> 27u64)
}

/// The state a seed starts the generator in.
pub open spec fn seeded(seed: u64) -> u64 {
    seed.wrapping_mul(6364136223846793005u64).wrapping_add(1442695040888963407u64)
}

/// The 32 output bits drawn from the state `s` reached by a step.
pub open spec fn output_bits(s: u64) -> u32 {
    (s.wrapping_mul(0x2545_F491_4F6C_DD1Du64) >> 32u64) as u32
}

/// Simple deterministic PRNG (xorshift*).
#[derive(Debug)]
pub struct Prng(u64);

impl Prng {
    /// The generator's state.
    pub closed spec fn state(&self) -> u64 {
        self.0
    }

    /// A generator seeded with `seed`.
    pub fn new(seed: u64) -> (r: Self)
        ensures
            r.state() == seeded(seed),
    {
        Prng(seed.wrapping_mul(6364136223846793005).wrapping_add(1442695040888963407))
    }

    /// Advance the state one step and draw 32 bits; `next_bits() / u32::MAX`
    /// is the generator's uniform draw in `[0, 1]`.
    pub fn next_bits(&mut self) -> (r: u32)
        ensures
            final(self).state() == xorshift(old(self).state()),
            r == output_bits(final(self).state()),
    {
        let mut s = self.0;
        s = s ^ (s >> 12u64);
        s = s ^ (s << 25u64);
        s = s ^ (s >> 27u64);
        self.0 = s;
        let v = s.wrapping_mul(0x2545_F491_4F6C_DD1D);
        (v >> 32u64) as u32
    }
}

} // verus!
