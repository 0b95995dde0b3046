//! An explicit pseudorandom-number generator, threaded as an argument through
//! generation, so that a fixed seed reproduces a world exactly.
//!
//! The generator is a 64-bit xorshift. Its whole behaviour is pinned by the
//! contracts: every draw is a function of the seed alone.

use vstd::prelude::*;

verus! {

/// The constant mixed into the seed, so that a zero seed does not start the
/// shift register at its one fixed point.
pub const SEED_MIX: u64 = 0x9E3779B97F4A7C15;

/// One xorshift step of the 64-bit state.
pub open spec fn spec_step(s: u64) -> u64 {
    let a = s ^ (s << 13);
    let b = a ^ (a >> 7);
    b ^ (b << 17)
}

/// The state after `n` steps.
pub open spec fn spec_state_after(s: u64, n: nat) -> u64
    decreases n,
{
    if n == 0 {
        s
    } else {
        spec_step(spec_state_after(s, (n - 1) as nat))
    }
}

/// The draw below `m` produced by one step from state `s`.
pub open spec fn spec_roll(s: u64, m: u32) -> u32 {
    (spec_step(s) % (m as u64)) as u32
}

/// The sequence of `n` one-in-`m` outcomes drawn from state `s`: entry `i`
/// is true when the `i`-th draw below `m` lands on zero.
pub open spec fn spec_rolls(s: u64, n: nat, m: u32) -> Seq<bool>
    decreases n,
{
    if n == 0 {
        Seq::empty()
    } else {
        spec_rolls(s, (n - 1) as nat, m).push(
            spec_roll(spec_state_after(s, (n - 1) as nat), m) == 0,
        )
    }
}

/// A seeded xorshift generator.
pub struct Rng {
    state: u64,
}

impl View for Rng {
    type V = u64;

    closed spec fn view(&self) -> u64 {
        self.state
    }
}

impl Rng {
    /// Builds the generator from a seed.
    pub fn new(seed: u64) -> (r: Rng)
        ensures
            r@ == seed ^ SEED_MIX,
    {
        Rng { state: seed ^ SEED_MIX }
    }

    /// Advances the state by one step and returns it.
    pub fn next_state(&mut self) -> (r: u64)
        ensures
            final(self)@ == spec_step(old(self)@),
            r == spec_step(old(self)@),
    {
        let mut x = self.state;
        x = x ^ (x << 13);
        x = x ^ (x >> 7);
        x = x ^ (x << 17);
        self.state = x;
        x
    }

    /// Draws a value uniformly below `m`.
    pub fn roll(&mut self, m: u32) -> (r: u32)
        requires
            m >= 1,
        ensures
            final(self)@ == spec_step(old(self)@),
            r == spec_roll(old(self)@, m),
            r < m,
    {
        let x = self.next_state();
        let v = x % (m as u64);
        assert(v < m as u64);
        v as u32
    }
}

/// The number of outcomes drawn is the number asked for.
pub proof fn lemma_spec_rolls_len(s: u64, n: nat, m: u32)
    ensures
        spec_rolls(s, n, m).len() == n,
    decreases n,
{
    if n > 0 {
        lemma_spec_rolls_len(s, (n - 1) as nat, m);
    }
}

/// Draws `n` one-in-`m` outcomes in order: entry `i` is true when the `i`-th
/// draw lands on zero.
pub fn fill_rolls(rng: &mut Rng, n: usize, m: u32) -> (v: Vec<bool>)
    requires
        m >= 1,
    ensures
        v@ == spec_rolls(old(rng)@, n as nat, m),
        v@.len() == n,
        final(rng)@ == spec_state_after(old(rng)@, n as nat),
{
    proof {
        lemma_spec_rolls_len(old(rng)@, n as nat, m);
    }
    let ghost s0 = rng@;
    let mut v: Vec<bool> = Vec::new();
    for i in 0..n
        invariant
            m >= 1,
            v@ == spec_rolls(s0, i as nat, m),
            rng@ == spec_state_after(s0, i as nat),
    {
        let r = rng.roll(m);
        v.push(r == 0);
        assert(spec_state_after(s0, (i + 1) as nat) == spec_step(spec_state_after(s0, i as nat)));
        assert(spec_rolls(s0, (i + 1) as nat, m) == spec_rolls(s0, i as nat, m).push(
            spec_roll(spec_state_after(s0, i as nat), m) == 0,
        ));
    }
    v
}

} // verus!
