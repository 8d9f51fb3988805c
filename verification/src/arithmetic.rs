//! The rounding operations, as a parameter of the library.

use vstd::prelude::*;
use crate::binary32::Binary32;

verus! {

/// The operations of single-precision arithmetic that round.
///
/// Each operation comes with a relation that says which results it may give;
/// nothing else is known of it. A result need not be determined by the
/// operands: the contracts of this crate hold for every outcome.
pub trait Arithmetic {
    /// `r` may be the result of `a + b`.
    spec fn is_sum(&self, a: Binary32, b: Binary32, r: Binary32) -> bool;

    /// `r` may be the result of `a - b`.
    spec fn is_difference(&self, a: Binary32, b: Binary32, r: Binary32) -> bool;

    /// `r` may be the result of `a * b`.
    spec fn is_product(&self, a: Binary32, b: Binary32, r: Binary32) -> bool;

    /// `r` may be the result of `a / b`.
    spec fn is_quotient(&self, a: Binary32, b: Binary32, r: Binary32) -> bool;

    /// `r` may be the result of raising e to the power `a`.
    spec fn is_exp(&self, a: Binary32, r: Binary32) -> bool;

    /// `r` may be the natural logarithm of `a`.
    spec fn is_ln(&self, a: Binary32, r: Binary32) -> bool;

    /// `r` may be the result of converting the integer `n`.
    spec fn is_conversion(&self, n: usize, r: Binary32) -> bool;

    fn add(&self, a: Binary32, b: Binary32) -> (r: Binary32)
        ensures
            self.is_sum(a, b, r),
    ;

    fn sub(&self, a: Binary32, b: Binary32) -> (r: Binary32)
        ensures
            self.is_difference(a, b, r),
    ;

    fn mul(&self, a: Binary32, b: Binary32) -> (r: Binary32)
        ensures
            self.is_product(a, b, r),
    ;

    fn div(&self, a: Binary32, b: Binary32) -> (r: Binary32)
        ensures
            self.is_quotient(a, b, r),
    ;

    fn exp(&self, a: Binary32) -> (r: Binary32)
        ensures
            self.is_exp(a, r),
    ;

    fn ln(&self, a: Binary32) -> (r: Binary32)
        ensures
            self.is_ln(a, r),
    ;

    fn from_count(&self, n: usize) -> (r: Binary32)
        ensures
            self.is_conversion(n, r),
    ;
}

/// An [`Arithmetic`] made of one function per operation.
pub struct Primitives<
    Add: Fn(Binary32, Binary32) -> Binary32,
    Sub: Fn(Binary32, Binary32) -> Binary32,
    Mul: Fn(Binary32, Binary32) -> Binary32,
    Div: Fn(Binary32, Binary32) -> Binary32,
    Exp: Fn(Binary32) -> Binary32,
    Ln: Fn(Binary32) -> Binary32,
    Cnt: Fn(usize) -> Binary32,
> {
    add: Add,
    sub: Sub,
    mul: Mul,
    div: Div,
    exp: Exp,
    ln: Ln,
    from_count: Cnt,
}

impl<
    Add: Fn(Binary32, Binary32) -> Binary32,
    Sub: Fn(Binary32, Binary32) -> Binary32,
    Mul: Fn(Binary32, Binary32) -> Binary32,
    Div: Fn(Binary32, Binary32) -> Binary32,
    Exp: Fn(Binary32) -> Binary32,
    Ln: Fn(Binary32) -> Binary32,
    Cnt: Fn(usize) -> Binary32,
> Primitives<Add, Sub, Mul, Div, Exp, Ln, Cnt> {
    /// Every function accepts every argument.
    #[verifier::type_invariant]
    spec fn total(self) -> bool {
        &&& forall|a: Binary32, b: Binary32| self.add.requires((a, b))
        &&& forall|a: Binary32, b: Binary32| self.sub.requires((a, b))
        &&& forall|a: Binary32, b: Binary32| self.mul.requires((a, b))
        &&& forall|a: Binary32, b: Binary32| self.div.requires((a, b))
        &&& forall|a: Binary32| self.exp.requires((a,))
        &&& forall|a: Binary32| self.ln.requires((a,))
        &&& forall|n: usize| self.from_count.requires((n,))
    }

    /// Bundles seven functions, each of which accepts every argument. The
    /// relations of the bundle are the postconditions of the functions.
    pub fn new(add: Add, sub: Sub, mul: Mul, div: Div, exp: Exp, ln: Ln, from_count: Cnt) -> (p:
        Self)
        requires
            forall|a: Binary32, b: Binary32| add.requires((a, b)),
            forall|a: Binary32, b: Binary32| sub.requires((a, b)),
            forall|a: Binary32, b: Binary32| mul.requires((a, b)),
            forall|a: Binary32, b: Binary32| div.requires((a, b)),
            forall|a: Binary32| exp.requires((a,)),
            forall|a: Binary32| ln.requires((a,)),
            forall|n: usize| from_count.requires((n,)),
        ensures
            forall|a: Binary32, b: Binary32, r: Binary32|
                p.is_sum(a, b, r) == add.ensures((a, b), r),
            forall|a: Binary32, b: Binary32, r: Binary32|
                p.is_difference(a, b, r) == sub.ensures((a, b), r),
            forall|a: Binary32, b: Binary32, r: Binary32|
                p.is_product(a, b, r) == mul.ensures((a, b), r),
            forall|a: Binary32, b: Binary32, r: Binary32|
                p.is_quotient(a, b, r) == div.ensures((a, b), r),
            forall|a: Binary32, r: Binary32| p.is_exp(a, r) == exp.ensures((a,), r),
            forall|a: Binary32, r: Binary32| p.is_ln(a, r) == ln.ensures((a,), r),
            forall|n: usize, r: Binary32| p.is_conversion(n, r) == from_count.ensures((n,), r),
    {
        Primitives { add, sub, mul, div, exp, ln, from_count }
    }
}

impl<
    Add: Fn(Binary32, Binary32) -> Binary32,
    Sub: Fn(Binary32, Binary32) -> Binary32,
    Mul: Fn(Binary32, Binary32) -> Binary32,
    Div: Fn(Binary32, Binary32) -> Binary32,
    Exp: Fn(Binary32) -> Binary32,
    Ln: Fn(Binary32) -> Binary32,
    Cnt: Fn(usize) -> Binary32,
> Arithmetic for Primitives<Add, Sub, Mul, Div, Exp, Ln, Cnt> {
    closed spec fn is_sum(&self, a: Binary32, b: Binary32, r: Binary32) -> bool {
        self.add.ensures((a, b), r)
    }

    closed spec fn is_difference(&self, a: Binary32, b: Binary32, r: Binary32) -> bool {
        self.sub.ensures((a, b), r)
    }

    closed spec fn is_product(&self, a: Binary32, b: Binary32, r: Binary32) -> bool {
        self.mul.ensures((a, b), r)
    }

    closed spec fn is_quotient(&self, a: Binary32, b: Binary32, r: Binary32) -> bool {
        self.div.ensures((a, b), r)
    }

    closed spec fn is_exp(&self, a: Binary32, r: Binary32) -> bool {
        self.exp.ensures((a,), r)
    }

    closed spec fn is_ln(&self, a: Binary32, r: Binary32) -> bool {
        self.ln.ensures((a,), r)
    }

    closed spec fn is_conversion(&self, n: usize, r: Binary32) -> bool {
        self.from_count.ensures((n,), r)
    }

    fn add(&self, a: Binary32, b: Binary32) -> (r: Binary32) {
        proof {
            use_type_invariant(self);
        }
        (self.add)(a, b)
    }

    fn sub(&self, a: Binary32, b: Binary32) -> (r: Binary32) {
        proof {
            use_type_invariant(self);
        }
        (self.sub)(a, b)
    }

    fn mul(&self, a: Binary32, b: Binary32) -> (r: Binary32) {
        proof {
            use_type_invariant(self);
        }
        (self.mul)(a, b)
    }

    fn div(&self, a: Binary32, b: Binary32) -> (r: Binary32) {
        proof {
            use_type_invariant(self);
        }
        (self.div)(a, b)
    }

    fn exp(&self, a: Binary32) -> (r: Binary32) {
        proof {
            use_type_invariant(self);
        }
        (self.exp)(a)
    }

    fn ln(&self, a: Binary32) -> (r: Binary32) {
        proof {
            use_type_invariant(self);
        }
        (self.ln)(a)
    }

    fn from_count(&self, n: usize) -> (r: Binary32) {
        proof {
            use_type_invariant(self);
        }
        (self.from_count)(n)
    }
}

} // verus!
