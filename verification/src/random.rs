//! Deterministic seeded pseudo-random sampling.
//!
//! The generator's whole behaviour must be a pure function of `(seed,
//! parameters)`, reproducible across platforms.  The word stream is
//! therefore produced by a fixed, fully specified algorithm
//! (xoshiro256++ seeded through splitmix64): every drawn word is pinned by
//! the contracts to `spec_stream(seed, n)`, the `n`-th word of the seed's
//! stream, so two runs from the same seed can be proved to take the same
//! decisions.

use vstd::prelude::*;

verus! {

/// A 64-bit generation seed.
pub type Seed = u64;

/// Probabilities are fixed-point fractions of this scale: a probability
/// `p` is represented by the integer `p * PROB_SCALE`.
pub const PROB_SCALE: u32 = 1_000_000;

/// The splitmix64 increment.
pub const SM_GAMMA: u64 = 0x9E3779B97F4A7C15;

/// The first splitmix64 multiplier.
pub const SM_MUL_1: u64 = 0xBF58476D1CE4E5B9;

/// The second splitmix64 multiplier.
pub const SM_MUL_2: u64 = 0x94D049BB133111EB;

/// The splitmix64 finalizer: the bit mix each seeding step applies.
pub open spec fn spec_mix64(z: u64) -> u64 {
    let z1 = (z ^ (z >> 30)).wrapping_mul(SM_MUL_1);
    let z2 = (z1 ^ (z1 >> 27)).wrapping_mul(SM_MUL_2);
    z2 ^ (z2 >> 31)
}

/// A 64-bit left rotation by 23.
pub open spec fn spec_rotl23(x: u64) -> u64 {
    (x << 23) | (x >> 41)
}

/// A 64-bit left rotation by 45.
pub open spec fn spec_rotl45(x: u64) -> u64 {
    (x << 45) | (x >> 19)
}

/// The four state words the seed expands to (four splitmix64 steps).
pub open spec fn spec_seed_state(seed: u64) -> (u64, u64, u64, u64) {
    let z0 = seed.wrapping_add(SM_GAMMA);
    let z1 = z0.wrapping_add(SM_GAMMA);
    let z2 = z1.wrapping_add(SM_GAMMA);
    let z3 = z2.wrapping_add(SM_GAMMA);
    (spec_mix64(z0), spec_mix64(z1), spec_mix64(z2), spec_mix64(z3))
}

/// The word a state emits (the xoshiro256++ output function).
pub open spec fn spec_output(s: (u64, u64, u64, u64)) -> u64 {
    spec_rotl23(s.0.wrapping_add(s.3)).wrapping_add(s.0)
}

/// The successor of a state (the xoshiro256++ transition).
pub open spec fn spec_next_state(s: (u64, u64, u64, u64)) -> (u64, u64, u64, u64) {
    let t = s.1 << 17;
    let c = s.2 ^ s.0;
    let d = s.3 ^ s.1;
    let b = s.1 ^ c;
    let a = s.0 ^ d;
    let c2 = c ^ t;
    let d2 = spec_rotl45(d);
    (a, b, c2, d2)
}

/// The state after `n` draws from the stream of `seed`.
pub open spec fn spec_state_at(seed: u64, n: nat) -> (u64, u64, u64, u64)
    decreases n,
{
    if n == 0 {
        spec_seed_state(seed)
    } else {
        spec_next_state(spec_state_at(seed, (n - 1) as nat))
    }
}

/// The `n`-th word of the stream of `seed`.  The word stream is a pure
/// function of the seed: this is the heart of the determinism contract.
pub open spec fn spec_stream(seed: u64, n: nat) -> u64 {
    spec_output(spec_state_at(seed, n))
}

/// The threshold a word is compared against by a biased coin flip with
/// fixed-point probability `p`.
pub open spec fn spec_prob_threshold(p: u32) -> u64 {
    (((u64::MAX as int) * (p as int)) / (PROB_SCALE as int)) as u64
}

/// What a biased coin flip answers for a given stream word.
pub open spec fn spec_gen_bool(word: u64, p: u32) -> bool {
    if p == 0 {
        false
    } else if p >= PROB_SCALE {
        true
    } else {
        word < spec_prob_threshold(p)
    }
}

/// The deterministic word source.  `seed` and the ghost draw counter pin
/// the concrete state words to `spec_state_at`, so every draw is provably
/// the next word of the seed's stream.
#[derive(Clone)]
pub struct Random {
    pub s0: u64,
    pub s1: u64,
    pub s2: u64,
    pub s3: u64,
    pub seed: Seed,
    pub count: Ghost<nat>,
}

impl Random {
    /// The state words match the seed's stream position.
    pub open spec fn wf(self) -> bool {
        (self.s0, self.s1, self.s2, self.s3) == spec_state_at(self.seed, self.count@)
    }

    /// A fresh source positioned at the start of the seed's stream.
    pub fn new(seed: Seed) -> (r: Self)
        ensures
            r.wf(),
            r.seed == seed,
            r.count@ == 0,
    {
        let z0 = seed.wrapping_add(SM_GAMMA);
        let z1 = z0.wrapping_add(SM_GAMMA);
        let z2 = z1.wrapping_add(SM_GAMMA);
        let z3 = z2.wrapping_add(SM_GAMMA);
        Random {
            s0: mix64(z0),
            s1: mix64(z1),
            s2: mix64(z2),
            s3: mix64(z3),
            seed,
            count: Ghost(0),
        }
    }

    /// The next word of the stream.
    pub fn gen_u64(&mut self) -> (r: u64)
        requires
            old(self).wf(),
        ensures
            final(self).wf(),
            final(self).seed == old(self).seed,
            final(self).count@ == old(self).count@ + 1,
            r == spec_stream(old(self).seed, old(self).count@),
    {
        let r = rotl23(self.s0.wrapping_add(self.s3)).wrapping_add(self.s0);
        let t = self.s1 << 17;
        self.s2 = self.s2 ^ self.s0;
        self.s3 = self.s3 ^ self.s1;
        self.s1 = self.s1 ^ self.s2;
        self.s0 = self.s0 ^ self.s3;
        self.s2 = self.s2 ^ t;
        self.s3 = rotl45(self.s3);
        proof {
            self.count@ = self.count@ + 1;
            assert(spec_state_at(self.seed, self.count@) == spec_next_state(
                spec_state_at(self.seed, (self.count@ - 1) as nat),
            ));
        }
        r
    }

    /// Consume one word without returning it; keeps the sampling cadence
    /// stable across configuration branches.
    pub fn skip(&mut self)
        requires
            old(self).wf(),
        ensures
            final(self).wf(),
            final(self).seed == old(self).seed,
            final(self).count@ == old(self).count@ + 1,
    {
        let _ = self.gen_u64();
    }

    /// Consume `n` words without returning them.
    pub fn skip_n(&mut self, n: usize)
        requires
            old(self).wf(),
        ensures
            final(self).wf(),
            final(self).seed == old(self).seed,
            final(self).count@ == old(self).count@ + n,
    {
        let mut i: usize = 0;
        while i < n
            invariant
                i <= n,
                self.wf(),
                self.seed == old(self).seed,
                self.count@ == old(self).count@ + i,
            decreases n - i,
        {
            self.skip();
            i = i + 1;
        }
    }

    /// A biased coin flip with fixed-point probability `p` (in units of
    /// `PROB_SCALE`).  Always consumes exactly one word, also on the
    /// degenerate probabilities.
    pub fn gen_bool(&mut self, p: u32) -> (r: bool)
        requires
            old(self).wf(),
        ensures
            final(self).wf(),
            final(self).seed == old(self).seed,
            final(self).count@ == old(self).count@ + 1,
            r == spec_gen_bool(spec_stream(old(self).seed, old(self).count@), p),
    {
        let w = self.gen_u64();
        if p == 0 {
            false
        } else if p >= PROB_SCALE {
            true
        } else {
            assert((u64::MAX as u128) * (p as u128) < 0x1_0000_0000_0000_0000_0000_0000u128)
                by (nonlinear_arith)
                requires
                    p < 0x1_0000_0000u128,
            ;
            let threshold: u64 = (((u64::MAX as u128) * (p as u128)) / (PROB_SCALE as u128)) as u64;
            assert(threshold == spec_prob_threshold(p));
            w < threshold
        }
    }

    /// A uniformly distributed value in `[lo, hi)`, from one word.
    pub fn in_range(&mut self, lo: usize, hi: usize) -> (r: usize)
        requires
            old(self).wf(),
            lo < hi,
        ensures
            final(self).wf(),
            final(self).seed == old(self).seed,
            final(self).count@ == old(self).count@ + 1,
            lo <= r < hi,
            r == lo + spec_stream(old(self).seed, old(self).count@) as int % (hi - lo),
    {
        let w = self.gen_u64();
        let span: u64 = (hi - lo) as u64;
        let off: u64 = w % span;
        lo + (off as usize)
    }

    /// A uniformly chosen element of a non-empty list, from one word.
    pub fn pick<'a, T>(&mut self, values: &'a Vec<T>) -> (r: &'a T)
        requires
            old(self).wf(),
            values@.len() > 0,
        ensures
            final(self).wf(),
            final(self).seed == old(self).seed,
            final(self).count@ == old(self).count@ + 1,
            *r == values@[spec_stream(old(self).seed, old(self).count@) as int % values@.len() as int],
    {
        let i = self.in_range(0, values.len());
        &values[i]
    }
}

/// Determinism of the word source: two sources with the same seed at
/// the same stream position hold identical state, so every decision
/// drawn from them is identical.  Together with the contracts that pin
/// each drawn word to `spec_stream`, generation from a fixed seed and
/// fixed parameters is a pure function of the inputs.
pub proof fn lemma_same_seed_same_state(a: Random, b: Random)
    requires
        a.wf(),
        b.wf(),
        a.seed == b.seed,
        a.count@ == b.count@,
    ensures
        a.s0 == b.s0 && a.s1 == b.s1 && a.s2 == b.s2 && a.s3 == b.s3,
{
}

/// The splitmix64 finalizer.
fn mix64(z: u64) -> (r: u64)
    ensures
        r == spec_mix64(z),
{
    let z1 = (z ^ (z >> 30)).wrapping_mul(SM_MUL_1);
    let z2 = (z1 ^ (z1 >> 27)).wrapping_mul(SM_MUL_2);
    z2 ^ (z2 >> 31)
}

/// A 64-bit left rotation by 23.
fn rotl23(x: u64) -> (r: u64)
    ensures
        r == spec_rotl23(x),
{
    (x << 23) | (x >> 41)
}

/// A 64-bit left rotation by 45.
fn rotl45(x: u64) -> (r: u64)
    ensures
        r == spec_rotl45(x),
{
    (x << 45) | (x >> 19)
}

/// The seed a string maps to.  Stable: the same characters give the same
/// seed in every process and on every machine.
pub uninterp spec fn string_seed_of(s: Seq<char>) -> u64;

/// Relies on seahash::hash: a portable, stable hash of the string's
/// bytes, whose result depends on the characters alone.
#[verifier::external_body]
pub fn seed_from_str(seed: &str) -> (r: Seed)
    ensures
        r == string_seed_of(seed@),
{
    seahash::hash(seed.as_bytes())
}

pub assume_specification<T>[ rand::random::<T> ]() -> (r: T)
    where
        rand::distributions::Standard: rand::distributions::Distribution<T>,
;

/// A non-deterministic seed drawn from the operating environment.
/// Nothing is promised of the value; generation from it is deterministic
/// once it is fixed.  The underlying generator aborts the process if the
/// operating environment cannot supply entropy at all.
pub fn random_seed() -> Seed {
    rand::random::<u64>()
}

} // verus!
