//! The generator core: one state word, its transition and the output finalizer.

use vstd::prelude::*;

use crate::primes::{prime, prime_at, PRIME_COUNT};
use crate::wipe::wipe_word;

verus! {

/// Rotation of a word left by 17 bits.
pub open spec fn rotl17(s: u64) -> u64 {
    (s << 17u64) | (s >> 47u64)
}

/// Index into the prime table chosen by state `s` and entropy sample `e`.
pub open spec fn prime_index(s: u64, e: u64) -> int {
    let m = s ^ e;
    ((m ^ (m >> 32u64)) % (PRIME_COUNT as u64)) as int
}

/// The state transition: rotate, multiply by the selected prime, fold in the
/// sample again.
pub open spec fn next_state(s: u64, e: u64) -> u64 {
    rotl17(s).wrapping_mul(prime_at(prime_index(s, e))) ^ e
}

/// The two-round avalanche finalizer applied to a state before output.
pub open spec fn finalize(x: u64) -> u64 {
    let z1 = (x ^ (x >> 30u64)).wrapping_mul(0xbf58476d1ce4e5b9u64);
    let z2 = (z1 ^ (z1 >> 27u64)).wrapping_mul(0x94d049bb133111ebu64);
    z2 ^ (z2 >> 31u64)
}

/// The generator core: one evolving state word.
pub struct Rand {
    state: u64,
}

impl View for Rand {
    type V = u64;

    closed spec fn view(&self) -> u64 {
        self.state
    }
}

/// Applies the finalizer to a state word.
pub fn finalize_word(x: u64) -> (r: u64)
    ensures
        r == finalize(x),
{
    let z1 = (x ^ (x >> 30u64)).wrapping_mul(0xbf58476d1ce4e5b9u64);
    let z2 = (z1 ^ (z1 >> 27u64)).wrapping_mul(0x94d049bb133111ebu64);
    z2 ^ (z2 >> 31u64)
}

impl Rand {
    /// A generator whose state is seeded from one entropy sample.
    pub fn new(seed: u64) -> (r: Rand)
        ensures
            r@ == seed,
    {
        Rand { state: seed }
    }

    /// The current state word.
    pub fn state(&self) -> (s: u64)
        ensures
            s == self@,
    {
        self.state
    }

    /// Folds one entropy sample into the state and returns the finalized new
    /// state.
    pub fn mix(&mut self, sample: u64) -> (out: u64)
        ensures
            final(self)@ == next_state(old(self)@, sample),
            out == finalize(final(self)@),
    {
        let s = self.state;
        let m = s ^ sample;
        let idx = ((m ^ (m >> 32u64)) % (PRIME_COUNT as u64)) as usize;
        let rotated = (s << 17u64) | (s >> 47u64);
        let next = rotated.wrapping_mul(prime(idx)) ^ sample;
        self.state = next;
        finalize_word(next)
    }

    /// Overwrites the state with zero by a write the compiler cannot elide.
    pub fn zeroize_state(&mut self)
        ensures
            final(self)@ == 0,
    {
        wipe_word(&mut self.state);
    }
}

proof fn lemma_xorshift_injective(x: u64, y: u64, k: u64)
    requires
        0 < k < 64,
        x ^ (x >> k) == y ^ (y >> k),
    ensures
        x == y,
{
    assert(x ^ (x >> k) == y ^ (y >> k) ==> x == y) by (bit_vector)
        requires
            0 < k < 64,
    ;
}

proof fn lemma_mul_first_injective(x: u64, y: u64)
    requires
        x.wrapping_mul(0xbf58476d1ce4e5b9u64) == y.wrapping_mul(0xbf58476d1ce4e5b9u64),
    ensures
        x == y,
{
    assert(((x as u128 * 0xbf58476d1ce4e5b9u128) as u64 as u128 * 0x96de1b173f119089u128) as u64
        == x) by (bit_vector);
    assert(((y as u128 * 0xbf58476d1ce4e5b9u128) as u64 as u128 * 0x96de1b173f119089u128) as u64
        == y) by (bit_vector);
    assert(x.wrapping_mul(0xbf58476d1ce4e5b9u64) == (x as u128 * 0xbf58476d1ce4e5b9u128) as u64)
        by (bit_vector);
    assert(y.wrapping_mul(0xbf58476d1ce4e5b9u64) == (y as u128 * 0xbf58476d1ce4e5b9u128) as u64)
        by (bit_vector);
}

proof fn lemma_mul_second_injective(x: u64, y: u64)
    requires
        x.wrapping_mul(0x94d049bb133111ebu64) == y.wrapping_mul(0x94d049bb133111ebu64),
    ensures
        x == y,
{
    assert(((x as u128 * 0x94d049bb133111ebu128) as u64 as u128 * 0x319642b2d24d8ec3u128) as u64
        == x) by (bit_vector);
    assert(((y as u128 * 0x94d049bb133111ebu128) as u64 as u128 * 0x319642b2d24d8ec3u128) as u64
        == y) by (bit_vector);
    assert(x.wrapping_mul(0x94d049bb133111ebu64) == (x as u128 * 0x94d049bb133111ebu128) as u64)
        by (bit_vector);
    assert(y.wrapping_mul(0x94d049bb133111ebu64) == (y as u128 * 0x94d049bb133111ebu128) as u64)
        by (bit_vector);
}

/// The finalizer is one-to-one: two calls of `get` give equal outputs only
/// when they leave equal states.
pub proof fn lemma_finalize_injective(x: u64, y: u64)
    ensures
        finalize(x) == finalize(y) ==> x == y,
{
    if finalize(x) == finalize(y) {
        let a1 = (x ^ (x >> 30u64)).wrapping_mul(0xbf58476d1ce4e5b9u64);
        let b1 = (y ^ (y >> 30u64)).wrapping_mul(0xbf58476d1ce4e5b9u64);
        let a2 = (a1 ^ (a1 >> 27u64)).wrapping_mul(0x94d049bb133111ebu64);
        let b2 = (b1 ^ (b1 >> 27u64)).wrapping_mul(0x94d049bb133111ebu64);
        lemma_xorshift_injective(a2, b2, 31);
        lemma_mul_second_injective(a1 ^ (a1 >> 27u64), b1 ^ (b1 >> 27u64));
        lemma_xorshift_injective(a1, b1, 27);
        lemma_mul_first_injective(x ^ (x >> 30u64), y ^ (y >> 30u64));
        lemma_xorshift_injective(x, y, 30);
    }
}

} // verus!
