use vstd::prelude::*;

verus! {

/// A xorshift128+ pseudorandom generator.
pub struct Rng {
    state: (u64, u64),
}

/// The seed word: the bitwise or of the seed shifted left by 0, 8, 16, … 56 bits (for a seed
/// below 256, its byte repeated over all eight bytes).
pub open spec fn spread_seed(s: u64) -> u64 {
    (s << 56u64) | (s << 48u64) | (s << 40u64) | (s << 32u64) | (s << 24u64) | (s << 16u64) | (
    s << 8u64) | s
}

/// One xorshift128+ step: the next state.
pub open spec fn next_state(s: (u64, u64)) -> (u64, u64) {
    let x = s.0 ^ (s.0 << 23u64);
    (s.1, x ^ s.1 ^ (x >> 17u64) ^ (s.1 >> 26u64))
}

/// One xorshift128+ step: the number drawn.
pub open spec fn next_output(s: (u64, u64)) -> u64 {
    next_state(s).1.wrapping_add(s.1)
}

/// The smallest draw accepted by the rejection sampling of a bound `m`.
pub open spec fn threshold(m: u64) -> u64
    recommends
        m > 0,
{
    ((0x1_0000_0000_0000_0000int - m) % (m as int)) as u64
}

/// How many draws a bounded draw makes at most before it takes the last one as it is.
pub const MAX_TRIES: u64 = 64;

/// The result and the final state of a bounded draw with `tries` draws left.
pub open spec fn bounded_draw(s: (u64, u64), m: u64, tries: nat) -> (u64, (u64, u64))
    decreases tries,
{
    let r = next_output(s);
    if tries <= 1 || r >= threshold(m) {
        ((r % m) as u64, next_state(s))
    } else {
        bounded_draw(next_state(s), m, (tries - 1) as nat)
    }
}

impl Rng {
    pub closed spec fn state(&self) -> (u64, u64) {
        self.state
    }

    pub fn new(random_seed: u64) -> (r: Rng)
        ensures
            r.state() == (spread_seed(random_seed) ^ 0xf4dbdf2183dcefb7u64, spread_seed(random_seed)
                ^ 0x1ad5be0d6dd28e9bu64),
    {
        let mut seed: u64 = 0;
        seed = seed | (random_seed << 56u64);
        seed = seed | (random_seed << 48u64);
        seed = seed | (random_seed << 40u64);
        seed = seed | (random_seed << 32u64);
        seed = seed | (random_seed << 24u64);
        seed = seed | (random_seed << 16u64);
        seed = seed | (random_seed << 8u64);
        seed = seed | random_seed;
        assert(seed == spread_seed(random_seed)) by (bit_vector)
            requires
                seed == 0u64 | (random_seed << 56u64) | (random_seed << 48u64) | (random_seed << 40u64) | (random_seed << 32u64) | (random_seed << 24u64) | (random_seed << 16u64) | (random_seed << 8u64) | random_seed,
        ;
        Rng { state: (seed ^ 0xf4dbdf2183dcefb7u64, seed ^ 0x1ad5be0d6dd28e9bu64) }
    }

    /// Draws a uniformly distributed 64-bit number.
    pub fn rand_u64(&mut self) -> (r: u64)
        ensures
            final(self).state() == next_state(old(self).state()),
            r == next_output(old(self).state()),
    {
        let (x0, y) = self.state;
        let x = x0 ^ (x0 << 23u64);
        let n = x ^ y ^ (x >> 17u64) ^ (y >> 26u64);
        self.state = (y, n);
        n.wrapping_add(y)
    }

    /// Draws a number of the machine's word size.
    pub fn rand_usize(&mut self) -> (r: usize)
        ensures
            final(self).state() == next_state(old(self).state()),
            r == next_output(old(self).state()) as usize,
    {
        self.rand_u64() as usize
    }

    /// Draws a number below `m` by rejection sampling, so that every value below `m` is
    /// equally likely; after `MAX_TRIES` rejected draws the last one is reduced as it is.
    pub fn rand_bounded_u64(&mut self, m: u64) -> (r: u64)
        requires
            m > 0,
        ensures
            (r, final(self).state()) == bounded_draw(old(self).state(), m, MAX_TRIES as nat),
            r < m,
    {
        let limit = (u64::MAX - m + 1) % m;
        assert(limit == threshold(m));
        let mut tries: u64 = MAX_TRIES;
        loop
            invariant
                1 <= tries <= MAX_TRIES,
                m > 0,
                limit == threshold(m),
                bounded_draw(self.state(), m, tries as nat) == bounded_draw(
                    old(self).state(),
                    m,
                    MAX_TRIES as nat,
                ),
            decreases tries,
        {
            let ghost s = self.state();
            let r = self.rand_u64();
            if tries == 1 || r >= limit {
                return r % m;
            }
            tries = tries - 1;
        }
    }

    /// Draws a number below `m` of the machine's word size.
    pub fn rand_bounded_usize(&mut self, m: usize) -> (r: usize)
        requires
            m > 0,
        ensures
            (r as u64, final(self).state()) == bounded_draw(old(self).state(), m as u64, MAX_TRIES as nat),
            r < m,
    {
        self.rand_bounded_u64(m as u64) as usize
    }

    /// Draws a number in `a..b`.
    pub fn rand_range_i64(&mut self, a: i64, b: i64) -> (r: i64)
        requires
            a < b,
            b - a <= i64::MAX,
        ensures
            r == a + bounded_draw(old(self).state(), (b - a) as u64, MAX_TRIES as nat).0,
            final(self).state() == bounded_draw(old(self).state(), (b - a) as u64, MAX_TRIES as nat).1,
            a <= r < b,
    {
        let d = self.rand_bounded_u64((b - a) as u64);
        a + d as i64
    }
}

} // verus!
