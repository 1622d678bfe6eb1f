//! Random numbers that depend on a seed alone.
use vstd::prelude::*;

verus! {

/// The number that follows another one: three shifts, each mixed in.
pub open spec fn xorshift(x: u64) -> u64 {
    let a = x ^ (x << 13);
    let b = a ^ (a >> 7);
    b ^ (b << 17)
}

/// A source of random numbers.
#[derive(Debug, Clone, Copy)]
pub struct Rng(pub u64);

impl Rng {
    /// The next number.
    pub fn next(&mut self) -> (r: u64)
        ensures
            r == xorshift(old(self).0),
            final(self).0 == r,
    {
        let x: u64 = self.0;
        let a: u64 = x ^ (x << 13);
        let b: u64 = a ^ (a >> 7);
        let c: u64 = b ^ (b << 17);
        self.0 = c;
        c
    }

    /// The next number, brought below a bound.
    pub fn below(&mut self, n: u32) -> (r: u32)
        requires
            n > 0,
        ensures
            r == xorshift(old(self).0) % (n as u64),
            r < n,
            final(self).0 == xorshift(old(self).0),
    {
        (self.next() % (n as u64)) as u32
    }
}

/// No number but zero is followed by zero, so a source with a seed that is not
/// zero does not run dry.
pub proof fn numbers_stay_above_zero(x: u64)
    requires
        x != 0,
    ensures
        xorshift(x) != 0,
{
    let a = x ^ (x << 13);
    let b = a ^ (a >> 7);
    let c = b ^ (b << 17);
    assert(a != 0) by (bit_vector)
        requires
            x != 0,
            a == x ^ (x << 13),
    ;
    assert(b != 0) by (bit_vector)
        requires
            a != 0,
            b == a ^ (a >> 7),
    ;
    assert(c != 0) by (bit_vector)
        requires
            b != 0,
            c == b ^ (b << 17),
    ;
}

/// A seed that is made odd is not zero.
pub proof fn an_odd_seed_is_not_zero(seed: u64)
    ensures
        seed | 1 != 0,
{
    assert(seed | 1 != 0) by (bit_vector);
}

} // verus!
