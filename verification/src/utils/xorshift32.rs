//! A 32-bit xorshift generator.

use vstd::prelude::*;
use crate::arithmetic::Arithmetic;
use crate::binary32::Binary32;

verus! {

/// One step of the generator: shifts of 13 to the left, 17 to the right and
/// 5 to the left, each folded back in with exclusive or.
pub open spec fn step(x: u32) -> u32 {
    let a = x ^ (x << 13);
    let b = a ^ (a >> 17);
    b ^ (b << 5)
}

/// `r` may be `x` over the greatest 32-bit number: a number from zero to
/// one, both included.
pub open spec fn is_share<O: Arithmetic>(ops: &O, x: u32, r: Binary32) -> bool {
    exists|drawn: Binary32, greatest: Binary32|
        #![trigger ops.is_quotient(drawn, greatest, r)]
        {
            &&& ops.is_conversion(x as usize, drawn)
            &&& ops.is_conversion(u32::MAX as usize, greatest)
            &&& ops.is_quotient(drawn, greatest, r)
        }
}

/// `r` may be the share `unit` of the way from `min` to `max`:
/// `unit * (max - min) + min`.
pub open spec fn is_between<O: Arithmetic>(
    ops: &O,
    unit: Binary32,
    min: Binary32,
    max: Binary32,
    r: Binary32,
) -> bool {
    exists|span: Binary32, scaled: Binary32|
        #![trigger ops.is_product(unit, span, scaled), ops.is_sum(scaled, min, r)]
        {
            &&& ops.is_difference(max, min, span)
            &&& ops.is_product(unit, span, scaled)
            &&& ops.is_sum(scaled, min, r)
        }
}

/// Marsaglia's xorshift generator on 32 bits of state.
pub struct XorShift32 {
    state: u32,
}

impl View for XorShift32 {
    type V = u32;

    /// The state: the number that was given out last, or the seed.
    closed spec fn view(&self) -> u32 {
        self.state
    }
}

impl XorShift32 {
    /// A generator that starts from `seed`.
    pub fn new(seed: u32) -> (g: Self)
        ensures
            g@ == seed,
    {
        Self { state: seed }
    }

    /// Advances the state by one step and gives the new state out.
    pub fn next(&mut self) -> (x: u32)
        ensures
            x == step(old(self)@),
            final(self)@ == x,
    {
        let mut x: u32 = self.state;
        x ^= x << 13;
        x ^= x >> 17;
        x ^= x << 5;
        self.state = x;
        x
    }

    /// Advances the state by one step and gives the new state out as a
    /// share of the greatest 32-bit number.
    pub fn next_float<O: Arithmetic>(&mut self, ops: &O) -> (r: Binary32)
        ensures
            final(self)@ == step(old(self)@),
            is_share(ops, step(old(self)@), r),
    {
        let rand_int = self.next();
        let drawn = ops.from_count(rand_int as usize);
        let greatest = ops.from_count(u32::MAX as usize);
        let r = ops.div(drawn, greatest);
        r
    }

    /// Advances the state by one step and gives out a number that lies as
    /// far between `min` and `max` as the new state lies between zero and
    /// the greatest 32-bit number.
    pub fn next_float_range<O: Arithmetic>(&mut self, min: Binary32, max: Binary32, ops: &O) -> (r:
        Binary32)
        ensures
            final(self)@ == step(old(self)@),
            exists|unit: Binary32|
                #![trigger is_share(ops, step(old(self)@), unit)]
                is_share(ops, step(old(self)@), unit) && is_between(ops, unit, min, max, r),
    {
        let unit = self.next_float(ops);
        let span = ops.sub(max, min);
        let scaled = ops.mul(unit, span);
        let r = ops.add(scaled, min);
        r
    }
}

} // verus!
