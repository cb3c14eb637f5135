use vstd::prelude::*;

verus! {

/// A small wyrand generator that draws the rotation offsets of a merge.
/// It is seeded by its owner and is not meant for anything but spreading
/// the first probe across sources.
#[derive(Debug)]
pub struct RandomGenerator {
    state: u64,
}

/// The generator's state after one draw from state `s`.
pub open spec fn next_state(s: u64) -> u64 {
    ((s as int + 0xA0761D6478BD642F) % 0x1_0000_0000_0000_0000) as u64
}

/// The number below `n` drawn from the (already advanced) state `s`: the
/// 128-bit product of `s` and `s ^ 0xE7037ED1A0B428DB`, its high and low
/// halves xor-ed, and the low 32 bits of that scaled into `0..n`.
pub open spec fn draw(s: u64, n: u32) -> u32 {
    let t = (s as u128) as int * ((s ^ 0xE7037ED1A0B428DBu64) as u128) as int;
    let x: u64 = ((t / 0x1_0000_0000_0000_0000) as u64) ^ ((t % 0x1_0000_0000_0000_0000) as u64);
    (((x % 0x1_0000_0000) as int * n as int) / 0x1_0000_0000) as u32
}

impl RandomGenerator {
    pub closed spec fn state_spec(&self) -> u64 {
        self.state
    }

    pub fn new(seed: u64) -> (r: RandomGenerator)
        ensures
            r.state_spec() == seed,
    {
        RandomGenerator { state: seed }
    }

    /// Advances the state and draws a number below `n`; zero when `n` is
    /// zero.
    pub fn random(&mut self, n: u32) -> (r: u32)
        ensures
            final(self).state_spec() == next_state(old(self).state_spec()),
            r == draw(final(self).state_spec(), n),
            n > 0 ==> r < n,
            n == 0 ==> r == 0,
    {
        let s: u64 = self.state.wrapping_add(0xA0761D6478BD642Fu64);
        self.state = s;
        let a: u128 = s as u128;
        let b: u128 = (s ^ 0xE7037ED1A0B428DBu64) as u128;
        assert(a * b <= u128::MAX) by (nonlinear_arith)
            requires
                a <= u64::MAX,
                b <= u64::MAX,
        ;
        let t: u128 = a * b;
        let high: u64 = (t >> 64u32) as u64;
        let low_half: u64 = #[verifier::truncate] (t as u64);
        assert(high == t / 0x1_0000_0000_0000_0000) by (bit_vector)
            requires
                high == (t >> 64u32) as u64,
        ;
        assert(low_half == t % 0x1_0000_0000_0000_0000) by (bit_vector)
            requires
                low_half == #[verifier::truncate] (t as u64),
        ;
        let x: u64 = high ^ low_half;
        let low: u64 = (#[verifier::truncate] (x as u32)) as u64;
        assert(low == x % 0x1_0000_0000) by (bit_vector)
            requires
                low == (#[verifier::truncate] (x as u32)) as u64,
        ;
        assert(low * (n as u64) < 0x1_0000_0000 * 0x1_0000_0000) by (nonlinear_arith)
            requires
                low < 0x1_0000_0000,
                n < 0x1_0000_0000,
        ;
        let scaled: u64 = low * (n as u64);
        let r: u64 = scaled / 0x1_0000_0000u64;
        assert((n > 0 ==> r < n) && (n == 0 ==> r == 0)) by (nonlinear_arith)
            requires
                low < 0x1_0000_0000,
                scaled == low * n,
                r == scaled / 0x1_0000_0000,
        ;
        r as u32
    }
}

} // verus!
