//! IEEE 754 single-precision numbers as 32-bit encodings, and the operations
//! on them that the encoding alone decides.

use vstd::arithmetic::power2::{lemma2_to64, lemma_pow2_unfold, pow2};
use vstd::prelude::*;

verus! {

/// An IEEE 754 single-precision number, held as its encoding: sign in bit 31,
/// exponent in bits 30 to 23, fraction in bits 22 to 0.
///
/// `==` between two of them compares encodings: a NaN equals itself and the
/// two zeros differ. The numeric order is [`less`].
pub type Binary32 = u32;

/// `+0.0`.
pub const ZERO: Binary32 = 0;

/// `1.0`.
pub const ONE: Binary32 = 0x3f80_0000;

/// `-1.0`.
pub const MINUS_ONE: Binary32 = 0xbf80_0000;

/// `1e-12`, rounded to the nearest single-precision number.
pub const TINY: Binary32 = 0x2b8c_bccc;

/// `255.0`.
pub const FULL_SCALE: Binary32 = 0x437f_0000;

/// The encoding with the sign bit cleared.
pub open spec fn magnitude(x: Binary32) -> int {
    if x >= 0x8000_0000 {
        x - 0x8000_0000
    } else {
        x as int
    }
}

/// Whether `x` is a NaN: exponent all ones, fraction not zero.
pub open spec fn nan(x: Binary32) -> bool {
    magnitude(x) > 0x7f80_0000
}

/// Position of a non-NaN value on the number line, up to a strictly
/// increasing map: both zeros sit at 0, values with the sign bit set below.
pub open spec fn rank(x: Binary32) -> int {
    if x >= 0x8000_0000 {
        -magnitude(x)
    } else {
        magnitude(x)
    }
}

/// The IEEE 754 `a < b`: false as soon as one side is a NaN.
pub open spec fn less(a: Binary32, b: Binary32) -> bool {
    !nan(a) && !nan(b) && rank(a) < rank(b)
}

/// Whether `x` is a NaN.
pub fn is_nan(x: Binary32) -> (r: bool)
    ensures
        r == nan(x),
{
    let m: u32 = if x >= 0x8000_0000 {
        x - 0x8000_0000
    } else {
        x
    };
    m > 0x7f80_0000
}

fn rank_of(x: Binary32) -> (r: i64)
    ensures
        r == rank(x),
{
    if x >= 0x8000_0000 {
        let m: u32 = x - 0x8000_0000;
        let wide: i64 = m as i64;
        -wide
    } else {
        x as i64
    }
}

/// `a < b` as IEEE 754 defines it.
pub fn lt(a: Binary32, b: Binary32) -> (r: bool)
    ensures
        r == less(a, b),
{
    !is_nan(a) && !is_nan(b) && rank_of(a) < rank_of(b)
}

/// `a > b` as IEEE 754 defines it.
pub fn gt(a: Binary32, b: Binary32) -> (r: bool)
    ensures
        r == less(b, a),
{
    lt(b, a)
}

/// `x` held between `lo` and `hi`: `lo` where `x` is less, `hi` where `x` is
/// greater, and `x` itself otherwise, a NaN included.
pub open spec fn clamped(x: Binary32, lo: Binary32, hi: Binary32) -> Binary32 {
    if less(x, lo) {
        lo
    } else if less(hi, x) {
        hi
    } else {
        x
    }
}

/// `x` held between `lo` and `hi`. A number comes out within the bounds, a
/// NaN comes out as it went in.
pub fn clamp(x: Binary32, lo: Binary32, hi: Binary32) -> (r: Binary32)
    requires
        !nan(lo),
        !nan(hi),
        !less(hi, lo),
    ensures
        r == clamped(x, lo, hi),
        nan(x) ==> r == x,
        !nan(x) ==> !nan(r) && !less(r, lo) && !less(hi, r),
{
    if lt(x, lo) {
        lo
    } else if gt(x, hi) {
        hi
    } else {
        x
    }
}

/// `x` with its sign bit flipped.
pub open spec fn negated(x: Binary32) -> Binary32 {
    if x >= 0x8000_0000 {
        (x - 0x8000_0000) as u32
    } else {
        (x + 0x8000_0000) as u32
    }
}

/// `-x`: the same magnitude with the other sign, for every encoding.
pub fn neg(x: Binary32) -> (r: Binary32)
    ensures
        r == negated(x),
        magnitude(r) == magnitude(x),
        (r >= 0x8000_0000) != (x >= 0x8000_0000),
{
    if x >= 0x8000_0000 {
        x - 0x8000_0000
    } else {
        x + 0x8000_0000
    }
}

/// `r` is the number `k / 2^24`, for `k` below `2^24`. Zero is `+0.0`. Any
/// other `k` gives a normal number: with `e` its exponent field and `m` its
/// 24-bit significand, which stand for `m * 2^(e - 150)`, the significand is
/// `k` shifted up by `126 - e` places.
pub open spec fn is_unit_fraction(k: int, r: Binary32) -> bool {
    if k == 0 {
        r == ZERO
    } else {
        let e = r / 0x80_0000;
        let m = r % 0x80_0000 + 0x80_0000;
        103 <= e <= 126 && m == k * pow2((126 - e) as nat)
    }
}

/// The number in `[0, 1)` that the upper 24 bits of `word` select: those
/// bits, read as an integer, over `2^24`. No rounding takes place.
pub fn unit_interval(word: u32) -> (r: Binary32)
    ensures
        is_unit_fraction((word >> 8) as int, r),
        r < ONE,
{
    let k: u32 = word >> 8;
    assert(k < 0x100_0000) by (bit_vector)
        requires
            k == word >> 8,
    ;
    if k == 0 {
        return ZERO;
    }
    let mut m: u32 = k;
    let mut e: u32 = 126;
    proof {
        lemma2_to64();
        assert(k * pow2(0) == k) by (nonlinear_arith)
            requires
                pow2(0) == 1,
        ;
    }
    while m < 0x80_0000
        invariant
            1 <= k < 0x100_0000,
            0 < m < 0x100_0000,
            103 <= e <= 126,
            m == k * pow2((126 - e) as nat),
            pow2(23) == 0x80_0000,
        decreases e,
    {
        proof {
            let s = (126 - e) as nat;
            lemma_pow2_unfold(s + 1);
            assert(k * (2 * pow2(s)) == 2 * (k * pow2(s))) by (nonlinear_arith);
            if e == 103 {
                assert(k * pow2(23) >= pow2(23)) by (nonlinear_arith)
                    requires
                        k >= 1,
                ;
            }
        }
        m = m * 2;
        e = e - 1;
    }
    e * 0x80_0000 + (m - 0x80_0000)
}

} // verus!
