//! xorshift32 pseudo-random numbers.
use vstd::prelude::*;

verus! {

/// One step of xorshift32: `x ^= x << 13; x ^= x >> 17; x ^= x << 5`.
pub open spec fn xorshift(x: u32) -> u32 {
    let a = x ^ (x << 13u32);
    let b = a ^ (a >> 17u32);
    b ^ (b << 5u32)
}

/// The value `rand_bounded(n)` derives from a raw output `x`:
/// the top 16 bits scaled to `0..n`.
pub open spec fn bounded_value(x: u32, n: u32) -> int {
    ((x as int / 65536) * n) / 65536
}

/// The state a seed is turned into: zero would make every output zero, so it
/// becomes one.
pub open spec fn seed_state(seed: u32) -> u32 {
    if seed == 0 {
        1
    } else {
        seed
    }
}

/// xorshift32 never maps a non-zero state to zero.
pub proof fn lemma_xorshift_nonzero(x: u32)
    requires
        x != 0,
    ensures
        xorshift(x) != 0,
{
    let a = x ^ (x << 13u32);
    let b = a ^ (a >> 17u32);
    assert(x != 0 ==> x ^ (x << 13u32) != 0) by (bit_vector);
    assert(a != 0 ==> a ^ (a >> 17u32) != 0) by (bit_vector);
    assert(b != 0 ==> b ^ (b << 5u32) != 0) by (bit_vector);
}

/// xorshift32 generator. Its state is never zero.
#[derive(Debug, Clone, Copy, PartialEq, Eq)]
pub struct Rng {
    state: u32,
}

impl Rng {
    #[verifier::type_invariant]
    spec fn inv(self) -> bool {
        self.state != 0
    }

    /// The current internal state.
    pub closed spec fn state(self) -> u32 {
        self.state
    }

    /// Creates a generator from a seed; seed 0 is replaced by 1.
    pub fn new(seed: u32) -> (r: Rng)
        ensures
            r.state() == seed_state(seed),
    {
        let state = if seed == 0 {
            1
        } else {
            seed
        };
        Rng { state }
    }

    /// Advances the state and returns the new state.
    pub fn next_u32(&mut self) -> (r: u32)
        ensures
            r == xorshift(old(self).state()),
            final(self).state() == r,
            r != 0,
    {
        proof {
            use_type_invariant(&*self);
            lemma_xorshift_nonzero(self.state);
        }
        let mut x = self.state;
        x ^= x << 13u32;
        x ^= x >> 17u32;
        x ^= x << 5u32;
        self.state = x;
        x
    }

    /// A value in `0..n` taken from the next output: `((x >> 16) * n) >> 16`.
    pub fn bounded(&mut self, n: u32) -> (r: u32)
        requires
            1 <= n <= 65536,
        ensures
            r == bounded_value(xorshift(old(self).state()), n),
            r < n,
            final(self).state() == xorshift(old(self).state()),
    {
        let x = self.next_u32();
        let hi = x >> 16u32;
        assert(hi == x / 65536) by (bit_vector)
            requires
                hi == x >> 16u32,
        ;
        assert(hi < 65536) by (bit_vector)
            requires
                hi == x / 65536,
        ;
        assert(hi * n <= 65535 * 65536) by (nonlinear_arith)
            requires
                hi < 65536,
                n <= 65536,
        ;
        let p = hi * n;
        let r = p >> 16u32;
        assert(r == p / 65536) by (bit_vector)
            requires
                r == p >> 16u32,
        ;
        assert(p / 65536 < n) by (nonlinear_arith)
            requires
                p == hi * n,
                hi < 65536,
                n >= 1,
        ;
        r
    }
}

} // verus!
