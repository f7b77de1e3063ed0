//! A pseudo-random generator with its state in the caller's hands: SplitMix
//! to spread a seed over four registers, xoshiro256** to step them. All
//! arithmetic wraps.

use vstd::prelude::*;

verus! {

/// The state of the generator: the seed as SplitMix left it, and the four
/// registers.
#[derive(Clone, Copy, Debug, PartialEq, Eq, Structural)]
pub struct Generator {
    pub seed: u128,
    pub x0: u128,
    pub x1: u128,
    pub x2: u128,
    pub x3: u128,
}

/// The increment of SplitMix.
pub const GOLDEN: u128 = 0x9e3779b97f4a7c15;

/// The first multiplier of SplitMix.
pub const MIX_A: u128 = 0xbf58476d1ce4e5b9;

/// The second multiplier of SplitMix.
pub const MIX_B: u128 = 0x94d049bb133111eb;

/// `number` with its bits moved left by `rotation` places, those that leave
/// at the top coming back in at the bottom. The places count modulo 128.
pub open spec fn rotated(number: u128, rotation: u32) -> u128 {
    let k = rotation % 128;
    if k == 0 {
        number
    } else {
        (number << k) | (number >> ((128 - k) as u32))
    }
}

/// The number that SplitMix makes of a seed.
pub open spec fn mixed(seed: u128) -> u128 {
    let s0 = seed.wrapping_add(GOLDEN);
    let s1 = (s0 ^ (s0 >> 30u32)).wrapping_mul(MIX_A);
    let s2 = (s1 ^ (s1 >> 27u32)).wrapping_mul(MIX_B);
    s2 ^ (s2 >> 31u32)
}

/// The state after seeding with a non-zero seed: every register holds the
/// number that SplitMix makes of the seed.
pub open spec fn seeded(seed: u128) -> Generator {
    Generator {
        seed: seed.wrapping_add(GOLDEN),
        x0: mixed(seed),
        x1: mixed(seed),
        x2: mixed(seed),
        x3: mixed(seed),
    }
}

/// The number that a state gives out.
pub open spec fn output(g: Generator) -> u128 {
    rotated(g.x1.wrapping_mul(5), 7).wrapping_mul(9)
}

/// The state after a number was given out.
pub open spec fn advanced(g: Generator) -> Generator {
    let t = g.x1 << 17u32;
    let s2 = g.x2 ^ g.x0;
    let s3 = g.x3 ^ g.x1;
    let s1 = g.x1 ^ s2;
    let s0 = g.x0 ^ s3;
    Generator { seed: g.seed, x0: s0, x1: s1, x2: s2 ^ t, x3: rotated(s3, 45) }
}

/// A state's output moved right by `64 - bits` places, cut to a machine
/// word.
pub open spec fn drawn(g: Generator, bits: u8) -> usize {
    (output(g) >> ((64 - bits) as u8)) as usize
}

/// Rotates the bits of `number` to the left.
pub fn rotate(number: u128, rotation: i32) -> (r: u128)
    ensures
        r == rotated(number, rotation as u32),
{
    let k: u32 = (#[verifier::truncate] (rotation as u32)) % 128;
    if k == 0 {
        number
    } else {
        (number << k) | (number >> (128 - k))
    }
}

impl Generator {
    /// A generator that was never seeded: all registers are zero.
    pub fn new() -> (g: Self)
        ensures
            g == (Generator { seed: 0, x0: 0, x1: 0, x2: 0, x3: 0 }),
    {
        Generator { seed: 0, x0: 0, x1: 0, x2: 0, x3: 0 }
    }

    fn seed_get(&self) -> (seed: u128)
        ensures
            seed == self.seed,
    {
        self.seed
    }

    fn seed_put(&mut self, seed: u128)
        ensures
            *final(self) == (Generator { seed, ..*old(self) }),
    {
        self.seed = seed;
    }

    fn put(&mut self, seeds: &[u128; 4])
        ensures
            *final(self) == (Generator {
                seed: old(self).seed,
                x0: seeds[0],
                x1: seeds[1],
                x2: seeds[2],
                x3: seeds[3],
            }),
    {
        self.x0 = seeds[0];
        self.x1 = seeds[1];
        self.x2 = seeds[2];
        self.x3 = seeds[3];
    }

    /// Fills the registers from the stored seed.
    fn reset(&mut self)
        ensures
            *final(self) == seeded(old(self).seed),
    {
        let seed = self.seed_get();
        let a = split(self, seed);
        let b = split(self, seed);
        let c = split(self, seed);
        let d = split(self, seed);
        let s = [a, b, c, d];
        self.put(&s);
    }
}

/// SplitMix: stores the seed moved on by the increment, and returns the
/// number made of the seed.
pub fn split(state: &mut Generator, seed: u128) -> (r: u128)
    ensures
        r == mixed(seed),
        *final(state) == (Generator { seed: seed.wrapping_add(GOLDEN), ..*old(state) }),
{
    let mut s = seed.wrapping_add(GOLDEN);
    state.seed_put(s);
    s = (s ^ (s >> 30u32)).wrapping_mul(MIX_A);
    s = (s ^ (s >> 27u32)).wrapping_mul(MIX_B);
    s ^ (s >> 31u32)
}

/// Seeds the generator. A seed of zero is ignored.
pub fn set_seed(state: &mut Generator, seed: u128)
    ensures
        *final(state) == (if seed == 0 {
            *old(state)
        } else {
            seeded(seed)
        }),
{
    if seed == 0 {
        return ;
    }
    state.seed_put(seed);
    state.reset();
}

/// Gives out the next number, moved right by `64 - bits` places and cut to a
/// machine word, and steps the registers.
pub fn randomize(state: &mut Generator, bits: u8) -> (r: usize)
    requires
        bits <= 64,
    ensures
        r == drawn(*old(state), bits),
        *final(state) == advanced(*old(state)),
{
    let mut seeds = [state.x0, state.x1, state.x2, state.x3];
    let result = rotate(seeds[1].wrapping_mul(5), 7).wrapping_mul(9);
    let t = seeds[1] << 17u32;
    let s2 = seeds[2] ^ seeds[0];
    let s3 = seeds[3] ^ seeds[1];
    let s1 = seeds[1] ^ s2;
    let s0 = seeds[0] ^ s3;
    seeds = [s0, s1, s2 ^ t, rotate(s3, 45)];
    state.put(&seeds);
    #[verifier::truncate]
    ((result >> (64 - bits)) as usize)
}

/// The number between `min_value` and `max_value` that a drawn number
/// stands for.
pub open spec fn ranged(drawn: usize, min_value: usize, max_value: usize) -> int {
    drawn as int % (1 + (max_value - min_value)) + min_value
}

/// A number from `min_value` to `max_value`, both included.
pub fn rand(state: &mut Generator, min_value: usize, max_value: usize) -> (r: usize)
    requires
        min_value <= max_value,
        max_value - min_value < usize::MAX,
    ensures
        r == ranged(drawn(*old(state), 8), min_value, max_value),
        min_value <= r <= max_value,
        *final(state) == advanced(*old(state)),
{
    let span = 1 + (max_value - min_value);
    let d = randomize(state, 8);
    d % span + min_value
}

} // verus!
