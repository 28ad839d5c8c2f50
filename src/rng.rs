use vstd::prelude::*;

verus! {

pub const LCG_MULTIPLIER: u64 = 6364136223846793005;

pub const LCG_INCREMENT: u64 = 1442695040888963407;

/// One step of the linear-congruential generator: `seed * A + C` modulo 2^64.
pub open spec fn lcg_next(seed: u64) -> u64 {
    ((seed as int * LCG_MULTIPLIER as int + LCG_INCREMENT as int) % 0x1_0000_0000_0000_0000int) as u64
}

/// The value that a draw in `[min, max)` from a generator in state `seed` yields.
pub open spec fn draw_in_range(seed: u64, min: u64, max: u64) -> int {
    min as int + (lcg_next(seed) as int) % (max as int - min as int)
}

/// The candidate index that a random mint with `seed` picks among `n` candidates.
pub open spec fn random_index(seed: u64, n: nat) -> int {
    draw_in_range(seed, 0, n as u64)
}

/// A seeded pseudo-random generator; identical seeds yield identical draws.
pub struct RandomNumGen {
    pub seed: u64,
}

impl RandomNumGen {
    pub fn new(seed: u64) -> (r: RandomNumGen)
        ensures
            r.seed == seed,
    {
        RandomNumGen { seed }
    }

    /// Advances the generator one step and returns its new state.
    pub fn next_u64(&mut self) -> (r: u64)
        ensures
            final(self).seed == lcg_next(old(self).seed),
            r == final(self).seed,
    {
        let s = self.seed as u128;
        assert(s * (LCG_MULTIPLIER as u128) < 0x8000_0000_0000_0000_0000_0000_0000_0000) by (nonlinear_arith)
            requires
                s < 0x1_0000_0000_0000_0000,
        ;
        let wide = s * (LCG_MULTIPLIER as u128) + (LCG_INCREMENT as u128);
        let next = (wide % 0x1_0000_0000_0000_0000u128) as u64;
        self.seed = next;
        next
    }

    /// Draws a value in `[min, max)`.
    pub fn generate_range(&mut self, min: u64, max: u64) -> (r: u64)
        requires
            min < max,
        ensures
            final(self).seed == lcg_next(old(self).seed),
            r == draw_in_range(old(self).seed, min, max),
            min <= r < max,
    {
        let x = self.next_u64();
        min + x % (max - min)
    }
}

/// The index that a random mint with `seed` picks among `n` candidates.
pub fn pick_random_index(seed: u64, n: usize) -> (r: usize)
    requires
        n > 0,
    ensures
        r == random_index(seed, n as nat),
        r < n,
{
    let mut rng = RandomNumGen::new(seed);
    rng.generate_range(0, n as u64) as usize
}

/// The pick of a random mint depends on nothing but the seed and the number of
/// candidates, so the same seed over the same candidate list always picks the same
/// candidate, and the pick is always a valid index.
pub proof fn lemma_random_pick_deterministic<T>(seed: u64, a: Seq<T>, b: Seq<T>)
    requires
        a == b,
        a.len() > 0,
        a.len() <= u64::MAX,
    ensures
        random_index(seed, a.len()) == random_index(seed, b.len()),
        0 <= random_index(seed, a.len()) < a.len(),
        a[random_index(seed, a.len())] == b[random_index(seed, b.len())],
{
}

} // verus!
