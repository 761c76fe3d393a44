//! The random numbers by which a worker picks whom to steal from first.

use vstd::prelude::*;

verus! {

/// A generator of 32-bit numbers: algorithm "xor" from p. 4 of Marsaglia, "Xorshift RNGs".
#[derive(Clone, Copy, Debug)]
pub struct XorShift32 {
    pub state: u32,
}

/// The number after `x`.
pub open spec fn xorshift(x: u32) -> u32 {
    let a = x ^ (x << 13u32);
    let b = a ^ (a >> 17u32);
    b ^ (b << 5u32)
}

/// The share of `n` that a 32-bit number is of all of them.
pub open spec fn scaled(x: u32, n: u32) -> int {
    (x * n) / 0x1_0000_0000
}

/// The share of `n` is below `n`.
pub proof fn scaled_below(x: u32, n: u32)
    ensures
        0 <= scaled(x, n),
        n > 0 ==> scaled(x, n) < n,
        n == 0 ==> scaled(x, n) == 0,
{
    assert(0 <= x * n) by (nonlinear_arith)
        requires
            0 <= x,
            0 <= n,
    ;
    assert(x * n < 0x1_0000_0000 * n || n == 0) by (nonlinear_arith)
        requires
            0 <= x < 0x1_0000_0000,
            0 <= n,
    ;
    assert(n == 0 ==> x * n == 0) by (nonlinear_arith);
}

impl XorShift32 {
    /// A generator with a fixed seed, pi in fixed point.
    pub fn new() -> (rng: Self)
        ensures
            rng.state == 0x517cc1b7,
    {
        XorShift32 { state: 0x517cc1b7 }
    }

    /// A generator with the given seed.
    pub fn from_seed(seed: u32) -> (rng: Self)
        ensures
            rng.state == seed,
    {
        XorShift32 { state: seed }
    }

    /// The next number.
    pub fn next(&mut self) -> (x: u32)
        ensures
            x == xorshift(old(self).state),
            final(self).state == x,
    {
        let mut x: u32 = self.state;
        x = x ^ (x << 13u32);
        x = x ^ (x >> 17u32);
        x = x ^ (x << 5u32);
        self.state = x;
        x
    }

    /// A number below `n`, or zero if `n` is.
    pub fn next_n(&mut self, n: u32) -> (r: u32)
        ensures
            final(self).state == xorshift(old(self).state),
            r == scaled(final(self).state, n),
            n > 0 ==> r < n,
            n == 0 ==> r == 0,
    {
        let x: u32 = self.next();
        assert(0 <= x * n <= 0xffff_ffff * 0xffff_ffff) by (nonlinear_arith)
            requires
                0 <= x <= 0xffff_ffff,
                0 <= n <= 0xffff_ffff,
        ;
        let product: u64 = x as u64 * n as u64;
        assert(product >> 32u64 == product / 0x1_0000_0000) by (bit_vector);
        proof {
            scaled_below(x, n);
        }
        (product >> 32u64) as u32
    }
}

/// Different numbers are followed by different numbers.
pub proof fn xorshift_injective(x: u32, y: u32)
    requires
        xorshift(x) == xorshift(y),
    ensures
        x == y,
{
    assert((({
        let a = x ^ (x << 13u32);
        let b = a ^ (a >> 17u32);
        b ^ (b << 5u32)
    }) == ({
        let a = y ^ (y << 13u32);
        let b = a ^ (a >> 17u32);
        b ^ (b << 5u32)
    })) ==> x == y) by (bit_vector);
}

/// A generator that was not seeded with zero never gets stuck there.
pub proof fn xorshift_nonzero(x: u32)
    requires
        x != 0,
    ensures
        xorshift(x) != 0,
{
    assert(({
        let a = 0u32 ^ (0u32 << 13u32);
        let b = a ^ (a >> 17u32);
        b ^ (b << 5u32)
    }) == 0u32) by (bit_vector);
    if xorshift(x) == 0 {
        xorshift_injective(x, 0);
    }
}

/// The numbers that follow mix as the numbers themselves do: the generator is linear over single bits.
pub proof fn xorshift_linear(x: u32, y: u32)
    ensures
        xorshift(x ^ y) == xorshift(x) ^ xorshift(y),
{
    let z = x ^ y;
    assert(({
        let a = z ^ (z << 13u32);
        let b = a ^ (a >> 17u32);
        b ^ (b << 5u32)
    }) == ({
        let a = x ^ (x << 13u32);
        let b = a ^ (a >> 17u32);
        b ^ (b << 5u32)
    }) ^ ({
        let a = y ^ (y << 13u32);
        let b = a ^ (a >> 17u32);
        b ^ (b << 5u32)
    })) by (bit_vector)
        requires
            z == x ^ y,
    ;
}

/// What each bit of a number does to the next one: it stays, and it goes up by five, thirteen, and
/// eighteen places. From the seventeenth place on, it also goes down by seventeen and by twelve; and
/// if it is not lost on its way up by thirteen places, it goes on from there in the same way.
pub proof fn xorshift_of_bits(x: u32)
    ensures
        xorshift(x) == x ^ (x << 5u32) ^ (x << 13u32) ^ (x << 18u32) ^ (x >> 17u32) ^ ((x >> 17u32)
            << 5u32) ^ ((x << 13u32) >> 17u32) ^ (((x << 13u32) >> 17u32) << 5u32),
{
    assert(({
        let a = x ^ (x << 13u32);
        let b = a ^ (a >> 17u32);
        b ^ (b << 5u32)
    }) == x ^ (x << 5u32) ^ (x << 13u32) ^ (x << 18u32) ^ (x >> 17u32) ^ ((x >> 17u32) << 5u32) ^ ((x
        << 13u32) >> 17u32) ^ (((x << 13u32) >> 17u32) << 5u32)) by (bit_vector);
}

/// Every number below `n` is the share of some 32-bit number, and shares grow with the numbers.
pub proof fn scaled_reaches_all(n: u32, worker: u32) -> (x: u32)
    requires
        worker < n,
    ensures
        scaled(x, n) == worker,
        forall|y: u32| y <= x ==> #[trigger] scaled(y, n) <= worker,
        forall|y: u32| x <= y ==> worker <= #[trigger] scaled(y, n),
{
    let m = 0x1_0000_0000int;
    let x = (worker * m + n - 1) / (n as int);
    assert(x * n >= worker * m && x * n < worker * m + n) by (nonlinear_arith)
        requires
            x == (worker * m + n - 1) / (n as int),
            n > 0,
            worker >= 0,
            m == 0x1_0000_0000int,
    ;
    assert(x < m) by (nonlinear_arith)
        requires
            x * n < worker * m + n,
            worker < n,
            n <= m,
            m == 0x1_0000_0000int,
    ;
    assert(x >= 0) by (nonlinear_arith)
        requires
            x * n >= worker * m,
            n > 0,
            worker >= 0,
            m > 0,
    ;
    let x = x as u32;
    assert forall|y: u32| y <= x implies #[trigger] scaled(y, n) <= worker by {
        assert(y * n <= x * n) by (nonlinear_arith)
            requires
                y <= x,
                n >= 0,
        ;
    }
    assert forall|y: u32| x <= y implies worker <= #[trigger] scaled(y, n) by {
        assert(x * n <= y * n) by (nonlinear_arith)
            requires
                x <= y,
                n >= 0,
        ;
    }
    x
}

/// The share is the part of `n` in whole numbers.
pub proof fn scaled_is_a_share(x: u32, n: u32)
    ensures
        scaled(x, n) * 0x1_0000_0000 <= x * n < (scaled(x, n) + 1) * 0x1_0000_0000,
{
}

} // verus!
