//! Pseudo-random buffer contents.
//!
//! A block that repeats, or that is all zeros, may be shrunk by compression or
//! deduplication on its way to the device, and the benchmark would then
//! measure something else. Refilling the buffer from this generator before
//! each write gives every write the next stretch of one pseudo-random stream.
//!
//! The generator is a 64-bit xorshift with the shifts 13, 7 and 17. It is
//! not fit for cryptography.

use crate::config::FillPolicy;
use vstd::prelude::*;

verus! {

/// The state a zero seed is replaced with: the generator must not start at
/// zero, which it would never leave.
pub const DEFAULT_SEED: u64 = 0x9E37_79B9_7F4A_7C15;

/// One round of the generator.
pub open spec fn scramble(x: u64) -> u64 {
    let a = x ^ (x << 13);
    let b = a ^ (a >> 7);
    b ^ (b << 17)
}

/// The state `rounds` rounds after `state`.
pub open spec fn state_after(state: u64, rounds: nat) -> u64
    decreases rounds,
{
    if rounds == 0 {
        state
    } else {
        scramble(state_after(state, (rounds - 1) as nat))
    }
}

/// Byte number `k` of `word`, counted from the least significant.
pub open spec fn byte_of(word: u64, k: nat) -> u8 {
    ((word >> ((8 * k) as u64)) & 0xff) as u8
}

/// Byte number `i` of the stream that a generator in `state` gives out: every
/// round yields eight bytes, least significant first.
pub open spec fn stream_byte(state: u64, i: nat) -> u8 {
    byte_of(state_after(state, i / 8 + 1), i % 8)
}

/// Rounds that `len` bytes of stream take.
pub open spec fn rounds_for(len: nat) -> nat {
    (len + 7) / 8
}

/// A round never gives zero from a state that is not zero, and gives
/// different states from different states.
pub proof fn lemma_scramble_is_one_to_one(x: u64, y: u64)
    ensures
        x != 0 ==> scramble(x) != 0,
        scramble(x) == scramble(y) ==> x == y,
{
    assert(x != 0 ==> scramble(x) != 0) by (bit_vector);
    let ax = x ^ (x << 13);
    let ay = y ^ (y << 13);
    let bx = ax ^ (ax >> 7);
    let by = ay ^ (ay >> 7);
    assert(bx ^ (bx << 17) == by ^ (by << 17) ==> bx == by) by (bit_vector);
    assert(ax ^ (ax >> 7) == ay ^ (ay >> 7) ==> ax == ay) by (bit_vector);
    assert(x ^ (x << 13) == y ^ (y << 13) ==> x == y) by (bit_vector);
}

/// The generator never reaches zero.
pub proof fn lemma_state_stays_nonzero(state: u64, rounds: nat)
    requires
        state != 0,
    ensures
        state_after(state, rounds) != 0,
    decreases rounds,
{
    if rounds > 0 {
        lemma_state_stays_nonzero(state, (rounds - 1) as nat);
        lemma_scramble_is_one_to_one(state_after(state, (rounds - 1) as nat), 0);
    }
}

/// A source of pseudo-random bytes.
#[derive(Debug)]
pub struct Generator {
    state: u64,
}

impl Generator {
    pub closed spec fn spec_state(&self) -> u64 {
        self.state
    }

    /// The generator's invariant: its state is not zero.
    pub open spec fn wf(&self) -> bool {
        self.state() != 0
    }

    /// The current state.
    #[verifier::when_used_as_spec(spec_state)]
    pub fn state(&self) -> (r: u64)
        ensures
            r == self.state(),
    {
        self.state
    }

    /// A generator that starts from `seed`, or from `DEFAULT_SEED` when the
    /// seed is zero.
    pub fn new(seed: u64) -> (g: Generator)
        ensures
            g.wf(),
            g.state() == (if seed == 0 {
                DEFAULT_SEED
            } else {
                seed
            }),
    {
        Generator {
            state: if seed == 0 {
                DEFAULT_SEED
            } else {
                seed
            },
        }
    }

    /// The generator that `policy` calls for, if it calls for one.
    pub fn for_policy(policy: FillPolicy) -> (g: Option<Generator>)
        ensures
            match policy {
                FillPolicy::Keep => g is None,
                FillPolicy::Random { seed } => {
                    &&& g matches Some(made)
                    &&& made.wf()
                    &&& made.state() == (if seed == 0 {
                        DEFAULT_SEED
                    } else {
                        seed
                    })
                },
            },
    {
        match policy {
            FillPolicy::Keep => None,
            FillPolicy::Random { seed } => Some(Generator::new(seed)),
        }
    }

    /// Runs one round and returns the new state.
    pub fn next_word(&mut self) -> (word: u64)
        requires
            old(self).wf(),
        ensures
            final(self).wf(),
            word == scramble(old(self).state()),
            final(self).state() == word,
    {
        proof {
            lemma_scramble_is_one_to_one(self.state, 0);
        }
        let a: u64 = self.state ^ (self.state << 13);
        let b: u64 = a ^ (a >> 7);
        self.state = b ^ (b << 17);
        self.state
    }

    /// Overwrites all of `buf` with the next bytes of the stream.
    pub fn fill(&mut self, buf: &mut [u8])
        requires
            old(self).wf(),
        ensures
            final(self).wf(),
            final(self).state() == state_after(old(self).state(), rounds_for(old(buf)@.len())),
            final(buf)@.len() == old(buf)@.len(),
            forall|i: int|
                0 <= i < final(buf)@.len() ==> final(buf)@[i] == stream_byte(
                    old(self).state(),
                    i as nat,
                ),
    {
        let n: usize = buf.len();
        let ghost start: u64 = self.state;
        let mut i: usize = 0;
        while i < n
            invariant
                i <= n,
                n == buf@.len(),
                self.wf(),
                self.state() == state_after(start, rounds_for(i as nat)),
                forall|j: int| 0 <= j < i ==> buf@[j] == stream_byte(start, j as nat),
            decreases n - i,
        {
            let k: usize = i % 8;
            if k == 0 {
                self.next_word();
            }
            let shift: u64 = 8 * (k as u64);
            let word: u64 = self.state;
            assert((word >> shift) & 0xff <= 0xff) by (bit_vector);
            buf[i] = ((word >> shift) & 0xff) as u8;
            i += 1;
        }
    }
}

} // verus!
