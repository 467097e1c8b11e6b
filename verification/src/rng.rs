//! Deterministic xorshift64* PRNG. Small, fast, reproducible across platforms.

use vstd::prelude::*;

verus! {

/// One xorshift round on the state.
pub open spec fn xorshift(x: u64) -> u64 {
    let a = x ^ (x >> 12u64);
    let b = a ^ (a << 25u64);
    b ^ (b >> 27u64)
}

/// The output drawn from a freshly advanced state.
pub open spec fn scramble(x: u64) -> u64 {
    x.wrapping_mul(0x2545_F491_4F6C_DD1Du64)
}

/// The state a seed starts from: the seed itself, with zero replaced by one.
pub open spec fn seed_state(seed: u64) -> u64 {
    if seed == 0 { 1 } else { seed }
}

/// State after `n` draws from `s`.
pub open spec fn state_after(s: u64, n: nat) -> u64
    decreases n,
{
    if n == 0 { s } else { xorshift(state_after(s, (n - 1) as nat)) }
}

/// The `n`-th output (0-based) of a generator whose state is `s`.
pub open spec fn nth_output(s: u64, n: nat) -> u64 {
    scramble(state_after(s, n + 1))
}

/// Deterministic xorshift64* PRNG.
pub struct Rng(u64);

impl View for Rng {
    type V = u64;

    closed spec fn view(&self) -> u64 {
        self.0
    }
}

impl Rng {
    /// The generator never sits on the all-zero fixed point.
    #[verifier::type_invariant]
    spec fn nonzero(self) -> bool {
        self.0 != 0
    }

    pub fn new(seed: u64) -> (r: Self)
        ensures
            r@ == seed_state(seed),
    {
        // Avoid the all-zero fixed point.
        if seed == 0 { Rng(1) } else { Rng(seed) }
    }

    pub fn next_u64(&mut self) -> (out: u64)
        ensures
            final(self)@ == xorshift(old(self)@),
            out == scramble(final(self)@),
    {
        proof { use_type_invariant(&*self); }
        let mut x = self.0;
        let ghost x0 = x;
        proof { lemma_xorshift_nonzero(x0); }
        x ^= x >> 12;
        x ^= x << 25;
        x ^= x >> 27;
        self.0 = x;
        x.wrapping_mul(0x2545_F491_4F6C_DD1D)
    }
}

/// A nonzero state never steps to zero: each xorshift round is invertible.
pub proof fn lemma_xorshift_nonzero(x: u64)
    requires
        x != 0,
    ensures
        xorshift(x) != 0,
{
    let a = x ^ (x >> 12u64);
    let b = a ^ (a << 25u64);
    assert(a != 0) by (bit_vector)
        requires
            x != 0,
            a == x ^ (x >> 12u64),
    ;
    assert(b != 0) by (bit_vector)
        requires
            a != 0,
            b == a ^ (a << 25u64),
    ;
    assert(b ^ (b >> 27u64) != 0) by (bit_vector)
        requires
            b != 0,
    ;
}

/// Starting from any seed, the generator state never reaches the all-zero
/// fixed point, however many values are drawn.
pub proof fn lemma_state_never_zero(seed: u64, n: nat)
    ensures
        state_after(seed_state(seed), n) != 0,
    decreases n,
{
    if n > 0 {
        lemma_state_never_zero(seed, (n - 1) as nat);
        lemma_xorshift_nonzero(state_after(seed_state(seed), (n - 1) as nat));
    }
}

/// Two generators in the same state produce the same output stream, so a
/// `(seed, inputs)` pair always reproduces the same run.
pub proof fn lemma_stream_reproducible(a: Rng, b: Rng, n: nat)
    requires
        a@ == b@,
    ensures
        nth_output(a@, n) == nth_output(b@, n),
        state_after(a@, n) == state_after(b@, n),
{
}

} // verus!
