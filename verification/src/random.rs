//! The generator behind shuffled playback, and picks from it without bias.

use vstd::prelude::*;

verus! {

/// The state of a generator that has not been seeded.
pub const RNG_DEFAULT_SEED: u64 = 88172645463325252;

/// The step of the underlying counter.
pub const RNG_INCREMENT: u64 = 0x9E37_79B9_7F4A_7C15;

/// The seed that stands in for one that must not be used.
pub const RNG_FALLBACK_SEED: u64 = 0xD1B5_4A32_D192_ED03;

/// The scrambling of the counter into an output.
pub open spec fn scrambled(z: u64) -> u64 {
    let a = (z ^ (z >> 30)).wrapping_mul(0xBF58_476D_1CE4_E5B9);
    let b = (a ^ (a >> 27)).wrapping_mul(0x94D0_49BB_1331_11EB);
    b ^ (b >> 31)
}

fn scramble(z: u64) -> (r: u64)
    ensures
        r == scrambled(z),
{
    let a: u64 = (z ^ (z >> 30)).wrapping_mul(0xBF58_476D_1CE4_E5B9);
    let b: u64 = (a ^ (a >> 27)).wrapping_mul(0x94D0_49BB_1331_11EB);
    b ^ (b >> 31)
}

/// The seed made of some entropy: neither zero nor the unseeded state.
pub open spec fn seed_of(entropy: u64) -> u64 {
    let seed = scrambled(entropy.wrapping_add(RNG_INCREMENT));
    if seed == 0 || seed == RNG_DEFAULT_SEED {
        RNG_FALLBACK_SEED
    } else {
        seed
    }
}

/// The counter from which the next number is drawn.
pub open spec fn seeded(state: u64, entropy: u64) -> u64 {
    if state == RNG_DEFAULT_SEED {
        seed_of(entropy)
    } else {
        state
    }
}

/// The counter after one draw.
pub open spec fn next_state(state: u64, entropy: u64) -> u64 {
    seeded(state, entropy).wrapping_add(RNG_INCREMENT)
}

/// The least output that a draw below `bound` accepts: below it the residues
/// are not equally likely.
pub open spec fn rejection_threshold(bound: u64) -> u64 {
    ((0x1_0000_0000_0000_0000 - bound) % bound as int) as u64
}

/// The pick below `bound` that the first accepted output gives, and the counter
/// after it. When `tries` outputs were turned down, the last one is taken.
pub open spec fn draw_below(state: u64, entropy: u64, bound: u64, tries: nat) -> (u64, u64)
    decreases tries,
{
    let next = next_state(state, entropy);
    let value = scrambled(next);
    if value >= rejection_threshold(bound) || tries == 0 {
        ((value % bound) as u64, next)
    } else {
        draw_below(next, entropy, bound, (tries - 1) as nat)
    }
}

/// The outputs that a draw turns down at most.
pub const MAX_REJECTIONS: u64 = 0xffff_ffff_ffff_fffe;

/// A generator of random numbers.
pub struct Rng {
    pub state: u64,
}

impl Rng {
    /// A generator that seeds itself at its first use.
    pub fn new() -> (r: Rng)
        ensures
            r.state == RNG_DEFAULT_SEED,
    {
        Rng { state: RNG_DEFAULT_SEED }
    }

    /// The next number. `entropy` seeds a generator that has not been seeded.
    pub fn next_rand_u64(&mut self, entropy: u64) -> (r: u64)
        ensures
            final(self).state == next_state(old(self).state, entropy),
            r == scrambled(final(self).state),
    {
        if self.state == RNG_DEFAULT_SEED {
            let mut seed: u64 = scramble(entropy.wrapping_add(RNG_INCREMENT));
            if seed == 0 || seed == RNG_DEFAULT_SEED {
                seed = RNG_FALLBACK_SEED;
            }
            self.state = seed;
        }
        self.state = self.state.wrapping_add(RNG_INCREMENT);
        scramble(self.state)
    }

    /// A number below `limit`, all equally likely; zero where there is no choice.
    pub fn random_below(&mut self, entropy: u64, limit: usize) -> (r: usize)
        ensures
            limit <= 1 ==> r == 0 && final(self).state == old(self).state,
            limit > 1 ==> r < limit && (r as u64, final(self).state) == draw_below(
                old(self).state,
                entropy,
                limit as u64,
                MAX_REJECTIONS as nat,
            ),
    {
        if limit <= 1 {
            return 0;
        }
        let bound: u64 = limit as u64;
        let threshold: u64 = (u64::MAX - bound + 1) % bound;
        assert(threshold == rejection_threshold(bound));
        let mut left: u64 = MAX_REJECTIONS;
        let ghost start = self.state;
        loop
            invariant
                bound == limit as u64,
                limit > 1,
                threshold == rejection_threshold(bound),
                draw_below(start, entropy, bound, MAX_REJECTIONS as nat) == draw_below(
                    self.state,
                    entropy,
                    bound,
                    left as nat,
                ),
                start == old(self).state,
            decreases left,
        {
            let value: u64 = self.next_rand_u64(entropy);
            if value >= threshold || left == 0 {
                return (value % bound) as usize;
            }
            left -= 1;
        }
    }

    /// A place in a list of `len` other than `current_idx`; zero where there is
    /// no other.
    pub fn random_index_excluding(&mut self, entropy: u64, current_idx: usize, len: usize) -> (r:
        usize)
        ensures
            len <= 1 ==> r == 0 && final(self).state == old(self).state,
            len > 1 ==> r < len && r != current_idx && ({
                let cur = if current_idx < len {
                    current_idx as int
                } else {
                    len - 1
                };
                let pick = if len == 2 {
                    0int
                } else {
                    draw_below(
                        old(self).state,
                        entropy,
                        (len - 1) as u64,
                        MAX_REJECTIONS as nat,
                    ).0 as int
                };
                r == if pick >= cur {
                    pick + 1
                } else {
                    pick
                }
            }),
            len == 2 ==> final(self).state == old(self).state,
            len > 2 ==> final(self).state == draw_below(
                old(self).state,
                entropy,
                (len - 1) as u64,
                MAX_REJECTIONS as nat,
            ).1,
    {
        if len <= 1 {
            return 0;
        }
        let cur: usize = if current_idx < len {
            current_idx
        } else {
            len - 1
        };
        let pick: usize = self.random_below(entropy, len - 1);
        if pick >= cur {
            pick + 1
        } else {
            pick
        }
    }
}

/// A seeded generator never looks unseeded again because of its seed.
pub proof fn law_seed_is_a_seed(entropy: u64)
    ensures
        seed_of(entropy) != RNG_DEFAULT_SEED,
        seed_of(entropy) != 0,
{
}

/// The outputs that a draw accepts fall into whole rounds of `bound`: that many
/// numbers, each residue equally often.
pub proof fn law_accepted_outputs_are_whole_rounds(bound: u64)
    requires
        bound > 0,
    ensures
        (0x1_0000_0000_0000_0000 - rejection_threshold(bound)) % bound as int == 0,
        rejection_threshold(bound) < bound,
{
    let n = 0x1_0000_0000_0000_0000int;
    let b = bound as int;
    let t = (n - b) % b;
    assert((n - t) % b == 0) by (nonlinear_arith)
        requires
            b > 0,
            t == (n - b) % b,
    {
        let q = (n - b) / b;
        assert(n - b == b * q + t);
        assert(n - t == b * (q + 1));
        assert((b * (q + 1)) % b == 0);
    }
}

/// The state of the noise after one step.
pub open spec fn shifted(x: u64) -> u64 {
    let a = x ^ (x << 13);
    let b = a ^ (a >> 7);
    b ^ (b << 17)
}

/// The low 52 bits of a number: a fraction of one, in steps of the smallest.
pub open spec fn fraction_bits(x: u64) -> u64 {
    x & 0xf_ffff_ffff_ffff
}

/// The noise that is added to samples before they are rounded.
pub struct DitherNoise {
    pub state: u64,
}

impl DitherNoise {
    /// Noise from its start.
    pub fn new() -> (r: DitherNoise)
        ensures
            r.state == RNG_DEFAULT_SEED,
    {
        DitherNoise { state: RNG_DEFAULT_SEED }
    }

    /// The next fraction of one, in parts of two to the power of 52.
    pub fn next_fraction(&mut self) -> (r: u64)
        ensures
            final(self).state == shifted(old(self).state),
            r == fraction_bits(final(self).state),
    {
        let mut x: u64 = self.state;
        x = x ^ (x << 13);
        x = x ^ (x >> 7);
        x = x ^ (x << 17);
        self.state = x;
        x & 0xf_ffff_ffff_ffff
    }
}

/// The noise never stops, and every fraction is less than one.
pub proof fn law_noise_never_stops(x: u64)
    requires
        x != 0,
    ensures
        shifted(x) != 0,
        fraction_bits(shifted(x)) < 0x10_0000_0000_0000,
{
    assert(shifted(x) != 0) by (bit_vector)
        requires
            x != 0,
    ;
    let y = shifted(x);
    assert((y & 0xf_ffff_ffff_ffff) < 0x10_0000_0000_0000) by (bit_vector);
}

/// A draw gives a number below its bound, from the first number that is not rejected: one that
/// is taken at once is the rest of the number by the bound.
pub proof fn law_draw_is_below_its_bound(state: u64, entropy: u64, bound: u64, tries: nat)
    requires
        bound > 0,
    ensures
        draw_below(state, entropy, bound, tries).0 < bound,
        scrambled(next_state(state, entropy)) >= rejection_threshold(bound) ==> draw_below(
            state,
            entropy,
            bound,
            tries,
        ) == (
            (scrambled(next_state(state, entropy)) % bound) as u64,
            next_state(state, entropy),
        ),
        tries > 0 && scrambled(next_state(state, entropy)) < rejection_threshold(bound)
            ==> draw_below(state, entropy, bound, tries) == draw_below(
            next_state(state, entropy),
            entropy,
            bound,
            (tries - 1) as nat,
        ),
    decreases tries,
{
    if tries > 0 {
        law_draw_is_below_its_bound(
            next_state(state, entropy),
            entropy,
            bound,
            (tries - 1) as nat,
        );
    }
}

/// The state goes on by the same step from wherever it is, and is seeded once: from then on
/// what is mixed in does not count.
pub proof fn law_state_goes_on_by_its_step(state: u64, entropy: u64, other: u64)
    ensures
        state != RNG_DEFAULT_SEED ==> next_state(state, entropy) == state.wrapping_add(
            0x9E37_79B9_7F4A_7C15,
        ),
        state != RNG_DEFAULT_SEED ==> next_state(state, entropy) == next_state(state, other),
        seeded(RNG_DEFAULT_SEED, entropy) == seed_of(entropy),
{
}

/// The noise is mixed from its state by three shifts, and the part of it that is used is the
/// low 52 bits.
pub proof fn law_noise_is_the_low_bits(x: u64)
    ensures
        fraction_bits(x) == x % 0x10_0000_0000_0000,
        fraction_bits(x) <= x,
{
    assert(x & 0xf_ffff_ffff_ffff == x % 0x10_0000_0000_0000) by (bit_vector);
}

} // verus!
