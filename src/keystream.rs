//! The linear-congruential keystream generator.
use vstd::prelude::*;

verus! {

/// Multiplier of the recurrence.
pub const LCG_A: u64 = 1103515245;

/// Increment of the recurrence.
pub const LCG_C: u64 = 12345;

/// Modulus of the recurrence, `2^32`.
pub const LCG_M: u64 = 0x1_0000_0000;

/// One step of the recurrence `s' = (s * A + C) mod 2^32`.
#[verifier::opaque]
pub open spec fn lcg_next(s: int) -> int {
    (s * LCG_A + LCG_C) % (LCG_M as int)
}

/// The state after `n` steps from `seed`.
pub open spec fn state_after(seed: u64, n: nat) -> int
    decreases n,
{
    if n == 0 {
        seed as int
    } else {
        lcg_next(state_after(seed, (n - 1) as nat))
    }
}

/// The byte that a step yields: the low eight bits of the new state.
pub open spec fn output_byte(state: int) -> u8 {
    (state % 256) as u8
}

/// The first `n` bytes that a generator in state `seed` hands out.
pub open spec fn keystream_bytes(seed: u64, n: nat) -> Seq<u8> {
    Seq::new(n, |i: int| output_byte(state_after(seed, (i + 1) as nat)))
}

/// Every state reached after at least one step lies below `2^32`.
pub proof fn lemma_state_after_bound(seed: u64, n: nat)
    ensures
        0 <= state_after(seed, n),
        n > 0 ==> state_after(seed, n) < LCG_M,
    decreases n,
{
    reveal(lcg_next);
    if n > 0 {
        lemma_state_after_bound(seed, (n - 1) as nat);
    }
}

/// One step from the seed is one application of the recurrence.
pub proof fn lemma_state_after_one(seed: u64)
    ensures
        state_after(seed, 1) == lcg_next(seed as int),
{
    assert(state_after(seed, 0) == seed as int);
}

/// A generator whose whole state is one integer, seeded once from a shared
/// secret. Only `next_byte` changes it.
pub struct KeystreamGenerator {
    pub state: u64,
}

/// One step of the recurrence, computed in 128 bits.
fn lcg_step(state: u64) -> (r: u64)
    ensures
        r as int == lcg_next(state as int),
{
    reveal(lcg_next);
    assert(state as u128 * LCG_A as u128 <= 0xffff_ffff_ffff_ffff * 1103515245u128)
        by (nonlinear_arith);
    ((state as u128 * LCG_A as u128 + LCG_C as u128) % LCG_M as u128) as u64
}

/// The low eight bits of a state.
fn low_byte(state: u64) -> (r: u8)
    ensures
        r == output_byte(state as int),
{
    assert((state & 0xff) as u8 == (state % 256) as u8) by (bit_vector);
    (state & 0xFF) as u8
}

impl KeystreamGenerator {
    /// One step from the seed is one application of the recurrence.
pub proof fn lemma_state_after_one(seed: u64)
    ensures
        state_after(seed, 1) == lcg_next(seed as int),
{
    assert(state_after(seed, 0) == seed as int);
}

/// A generator whose state is the seed, taken whole.
    pub fn new(seed: u64) -> (g: KeystreamGenerator)
        ensures
            g.state == seed,
    {
        KeystreamGenerator { state: seed }
    }

    /// Advances the state by one step and returns the low byte of the new state.
    pub fn next_byte(&mut self) -> (r: u8)
        ensures
            final(self).state as int == lcg_next(old(self).state as int),
            final(self).state as int == state_after(old(self).state, 1),
            r == output_byte(final(self).state as int),
            r == keystream_bytes(old(self).state, 1)[0],
    {
        proof {
            lemma_state_after_one(self.state);
        }
        self.state = lcg_step(self.state);
        low_byte(self.state)
    }

    /// The bytes that the next `count` calls of `next_byte` would return; the
    /// generator itself is left as it is.
    pub fn peek_bytes(&self, count: usize) -> (r: Vec<u8>)
        ensures
            r@ == keystream_bytes(self.state, count as nat),
    {
        let mut temp_state: u64 = self.state;
        let mut bytes: Vec<u8> = Vec::new();
        let mut i: usize = 0;
        while i < count
            invariant
                i <= count,
                temp_state as int == state_after(self.state, i as nat),
                bytes@ =~= keystream_bytes(self.state, i as nat),
            decreases count - i,
        {
            temp_state = lcg_step(temp_state);
            bytes.push(low_byte(temp_state));
            i = i + 1;
        }
        bytes
    }
}

/// Two generators that start from the same state hand out the same bytes,
/// call for call, for any number of calls; and the first `k` of them do not
/// depend on how many more are drawn later.
pub proof fn lemma_same_seed_same_stream(a: KeystreamGenerator, b: KeystreamGenerator, n: nat, k: nat)
    requires
        a.state == b.state,
        k <= n,
    ensures
        keystream_bytes(a.state, n) == keystream_bytes(b.state, n),
        keystream_bytes(a.state, n).subrange(0, k as int) == keystream_bytes(b.state, k),
{
    assert(keystream_bytes(a.state, n).subrange(0, k as int) =~= keystream_bytes(b.state, k));
}

/// Looking ahead does not move the stream: the first byte of any look-ahead is
/// the byte that the next step returns.
pub proof fn lemma_peek_matches_next(g: KeystreamGenerator, n: nat)
    requires
        n > 0,
    ensures
        keystream_bytes(g.state, n)[0] == output_byte(lcg_next(g.state as int)),
        keystream_bytes(g.state, n)[0] == keystream_bytes(g.state, 1)[0],
{
    lemma_state_after_one(g.state);
}

} // verus!
