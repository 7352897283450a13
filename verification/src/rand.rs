use vstd::prelude::*;

verus! {

/// What one xorshift step yields for a given internal state.
pub open spec fn spec_xorshift64(s: u64) -> u64 {
    let a = s ^ (s << 13);
    let b = a ^ (a >> 7);
    b ^ (b << 17)
}

/// The seed stored for a requested seed: zero is replaced, since the
/// xorshift orbit of zero is stuck at zero.
pub open spec fn spec_stored_seed(seed: u64) -> u64 {
    if seed == 0 {
        0x9e3779b97f4a7c15u64
    } else {
        seed
    }
}

/// A deterministic pseudo-random number generator (64-bit xorshift).
/// All randomness of the core flows from here, so a run is reproducible
/// from the seed alone.
#[derive(Clone, Debug)]
pub struct StdRand {
    pub seed: u64,
}

impl StdRand {
    /// Creates a generator from a seed; a zero seed is replaced by a
    /// fixed odd constant so the generator cannot get stuck.
    pub fn with_seed(seed: u64) -> (r: Self)
        ensures
            r.seed == spec_stored_seed(seed),
    {
        if seed == 0 {
            StdRand { seed: 0x9e3779b97f4a7c15u64 }
        } else {
            StdRand { seed }
        }
    }

    /// The current internal state.
    pub fn state(&self) -> (r: u64)
        ensures
            r == self.seed,
    {
        self.seed
    }

    /// Draws the next 64-bit value and advances the state.
    pub fn next_u64(&mut self) -> (r: u64)
        ensures
            final(self).seed == spec_xorshift64(old(self).seed),
            r == final(self).seed,
    {
        let s = self.seed;
        let a = s ^ (s << 13u64);
        let b = a ^ (a >> 7u64);
        let c = b ^ (b << 17u64);
        self.seed = c;
        c
    }

    /// Draws a value uniformly below `n`.
    pub fn below(&mut self, n: u64) -> (r: u64)
        requires
            n > 0,
        ensures
            r < n,
            r == spec_xorshift64(old(self).seed) % n,
            final(self).seed == spec_xorshift64(old(self).seed),
    {
        let v = self.next_u64();
        v % n
    }

    /// Draws a value uniformly below `n`, as a usize.
    pub fn below_usize(&mut self, n: usize) -> (r: usize)
        requires
            n > 0,
        ensures
            r < n,
            r == spec_xorshift64(old(self).seed) % (n as u64),
            final(self).seed == spec_xorshift64(old(self).seed),
    {
        let v = self.below(n as u64);
        v as usize
    }
}

} // verus!
