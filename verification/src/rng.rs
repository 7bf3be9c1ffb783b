//! Seedable random source for the charge trigger.
//!
//! The behavior engine never reaches for an ambient generator: the host
//! seeds one of these and the engine draws from it, so a frame is a
//! deterministic function of its input buffers and the seed, and tests can
//! replay any roll sequence.

use vstd::prelude::*;

verus! {

/// The linear-congruential successor of a generator state.
pub open spec fn lcg_next(s: u64) -> u64 {
    vstd::wrapping::u64_specs::wrapping_add(
        vstd::wrapping::u64_specs::wrapping_mul(s, 6364136223846793005),
        1442695040888963407,
    )
}

/// The milli roll a state yields, in `[0, 1000)`.
pub open spec fn roll_of(s: u64) -> int {
    ((lcg_next(s) >> 33) % 1000) as int
}

/// The state after `k` draws from state `s`.
pub open spec fn lcg_state(s: u64, k: nat) -> u64
    decreases k,
{
    if k == 0 {
        s
    } else {
        lcg_next(lcg_state(s, (k - 1) as nat))
    }
}

/// Seedable linear-congruential random source.
pub struct Rng {
    pub state: u64,
}

impl Rng {
    /// A generator at the given seed.
    pub fn new(seed: u64) -> (r: Rng)
        ensures
            r.state == seed,
    {
        Rng { state: seed }
    }

    /// Draws one roll in `[0, 1000)` and advances the state.
    pub fn next_milli(&mut self) -> (r: i64)
        ensures
            final(self).state == lcg_next(old(self).state),
            r as int == roll_of(old(self).state),
            0 <= r < 1000,
    {
        let next: u64 = self.state.wrapping_mul(6364136223846793005).wrapping_add(
            1442695040888963407,
        );
        self.state = next;
        let r: u64 = (next >> 33) % 1000;
        proof {
            assert((next >> 33) % 1000 < 1000) by (bit_vector);
        }
        r as i64
    }
}

} // verus!
