//! Dense vectors of single-precision numbers with strict shape checking.

use vstd::prelude::*;
use crate::arithmetic::Arithmetic;
use crate::binary32::{less, nan, Binary32, ZERO};
use crate::failure::Failure;

verus! {

/// A dense vector of single-precision numbers of fixed length.
pub struct Vector {
    data: Vec<Binary32>,
    size: usize,
}

impl View for Vector {
    type V = Seq<Binary32>;

    /// The elements in order.
    closed spec fn view(&self) -> Seq<Binary32> {
        self.data@
    }
}

/// The four elementwise operations.
enum Operation {
    Sum,
    Difference,
    Product,
    Quotient,
}

/// `r` may be the result of the operation on `a` and `b`.
spec fn relates<O: Arithmetic>(ops: &O, op: Operation, a: Binary32, b: Binary32, r: Binary32) -> bool {
    match op {
        Operation::Sum => ops.is_sum(a, b, r),
        Operation::Difference => ops.is_difference(a, b, r),
        Operation::Product => ops.is_product(a, b, r),
        Operation::Quotient => ops.is_quotient(a, b, r),
    }
}

fn apply<O: Arithmetic>(ops: &O, op: &Operation, a: Binary32, b: Binary32) -> (r: Binary32)
    ensures
        relates(ops, *op, a, b, r),
{
    match op {
        Operation::Sum => ops.add(a, b),
        Operation::Difference => ops.sub(a, b),
        Operation::Product => ops.mul(a, b),
        Operation::Quotient => ops.div(a, b),
    }
}

/// `r` may be the sum of the elements of `v`, added one by one from the
/// first to the last onto `+0.0`.
pub open spec fn is_total<O: Arithmetic>(ops: &O, v: Seq<Binary32>, r: Binary32) -> bool
    decreases v.len(),
{
    if v.len() == 0 {
        r == ZERO
    } else {
        exists|before: Binary32|
            #![trigger ops.is_sum(before, v.last(), r)]
            is_total(ops, v.drop_last(), before) && ops.is_sum(before, v.last(), r)
    }
}

/// `r` may be the dot product of `a` and `b`: the products of the elements,
/// added one by one from the first to the last onto `+0.0`.
pub open spec fn is_dot<O: Arithmetic>(ops: &O, a: Seq<Binary32>, b: Seq<Binary32>, r: Binary32) -> bool
    decreases a.len(),
{
    if a.len() == 0 {
        r == ZERO
    } else {
        exists|before: Binary32, term: Binary32|
            #![trigger ops.is_sum(before, term, r)]
            is_dot(ops, a.drop_last(), b.drop_last(), before) && ops.is_product(
                a.last(),
                b.last(),
                term,
            ) && ops.is_sum(before, term, r)
    }
}

/// `i` is where a scan from the front finds the maximum of `v`: no element
/// is greater than `v[i]`, and every number before it is less. A NaN in
/// front wins the scan, a NaN elsewhere is passed over.
pub open spec fn is_argmax(v: Seq<Binary32>, i: int) -> bool {
    &&& 0 <= i < v.len()
    &&& nan(v[0]) ==> i == 0
    &&& !nan(v[0]) ==> {
        &&& !nan(v[i])
        &&& forall|j: int| 0 <= j < v.len() ==> !less(v[i], #[trigger] v[j])
        &&& forall|j: int| 0 <= j < i && !nan(v[j]) ==> less(#[trigger] v[j], v[i])
    }
}

/// The index that [`is_argmax`] singles out.
pub open spec fn argmax_of(v: Seq<Binary32>) -> int {
    choose|i: int| is_argmax(v, i)
}

/// A scan settles on one index only.
pub proof fn lemma_argmax_unique(v: Seq<Binary32>, i: int, j: int)
    requires
        is_argmax(v, i),
        is_argmax(v, j),
    ensures
        i == j,
        i == argmax_of(v),
{
}

impl Vector {
    #[verifier::type_invariant]
    spec fn consistent(self) -> bool {
        self.size == self.data.len()
    }

    /// The vector of the given data.
    pub(crate) fn from_data(data: Vec<Binary32>) -> (v: Vector)
        ensures
            v@ == data@,
    {
        let size = data.len();
        Vector { data, size }
    }

    /// The vector of `size` zeros.
    pub(crate) fn zeroed(size: usize) -> (v: Vector)
        ensures
            v@ == Seq::new(size as nat, |i: int| ZERO),
    {
        let data = vec![ZERO; size];
        Vector { data, size }
    }

    /// A vector of the given data, or of `size` zeros where no data is
    /// given. Fails where neither is given, and where both are given and the
    /// data is not of that size.
    pub fn new(data: Option<Vec<Binary32>>, size: Option<usize>) -> (r: Result<Vector, Failure>)
        ensures
            match (data, size) {
                (None, None) => r == Err::<Vector, Failure>(Failure::ConstructionError),
                (Some(d), Some(n)) => if d.len() == n {
                    r is Ok && r->Ok_0@ == d@
                } else {
                    r == Err::<Vector, Failure>(Failure::ConstructionError)
                },
                (Some(d), None) => r is Ok && r->Ok_0@ == d@,
                (None, Some(n)) => r is Ok && r->Ok_0@ == Seq::new(n as nat, |i: int| ZERO),
            },
    {
        match (data, size) {
            (None, None) => Err(Failure::ConstructionError),
            (Some(d), Some(n)) => {
                if d.len() != n {
                    Err(Failure::ConstructionError)
                } else {
                    Ok(Vector { data: d, size: n })
                }
            },
            (Some(d), None) => Ok(Vector::from_data(d)),
            (None, Some(n)) => Ok(Vector::zeroed(n)),
        }
    }

    /// The number of elements.
    pub fn len(&self) -> (n: usize)
        ensures
            n == self@.len(),
    {
        proof {
            use_type_invariant(self);
        }
        self.size
    }

    /// Always false: a vector is never reported empty, whatever its length.
    pub fn is_empty(&self) -> (r: bool)
        ensures
            !r,
    {
        false
    }

    /// The elements, as the vector holds them.
    pub fn to_vec(&self) -> (r: &Vec<Binary32>)
        ensures
            r@ == self@,
    {
        &self.data
    }

    /// The element at `index`.
    pub fn get(&self, index: usize) -> (r: Result<Binary32, Failure>)
        ensures
            index < self@.len() ==> r == Ok::<Binary32, Failure>(self@[index as int]),
            index >= self@.len() ==> r == Err::<Binary32, Failure>(Failure::IndexOutOfRange),
    {
        if index < self.data.len() {
            Ok(self.data[index])
        } else {
            Err(Failure::IndexOutOfRange)
        }
    }

    /// Puts `value` at `index`; changes nothing where the index is out of
    /// range.
    pub fn set(&mut self, index: usize, value: Binary32) -> (r: Result<(), Failure>)
        ensures
            index < old(self)@.len() ==> r.is_ok() && final(self)@ == old(self)@.update(
                index as int,
                value,
            ),
            index >= old(self)@.len() ==> r == Err::<(), Failure>(Failure::IndexOutOfRange)
                && final(self)@ == old(self)@,
    {
        proof {
            use_type_invariant(&*self);
        }
        if index < self.data.len() {
            self.data[index] = value;
            Ok(())
        } else {
            Err(Failure::IndexOutOfRange)
        }
    }

    /// The operation applied to the elements of `self` and `other` pair by
    /// pair.
    fn pointwise<O: Arithmetic>(&self, other: &Vector, op: Operation, ops: &O) -> (r: Result<
        Vector,
        Failure,
    >)
        ensures
            self@.len() != other@.len() ==> r == Err::<Vector, Failure>(Failure::ShapeMismatch),
            self@.len() == other@.len() ==> r is Ok && r->Ok_0@.len() == self@.len() && forall|
                i: int,
            |
                0 <= i < self@.len() ==> relates(ops, op, self@[i], other@[i], #[trigger] r->Ok_0@[i]),
    {
        if self.data.len() != other.data.len() {
            return Err(Failure::ShapeMismatch);
        }
        let n = self.data.len();
        let mut data: Vec<Binary32> = Vec::with_capacity(n);
        let mut i: usize = 0;
        while i < n
            invariant
                n == self.data.len(),
                n == other.data.len(),
                i <= n,
                data.len() == i,
                forall|j: int|
                    0 <= j < i ==> relates(ops, op, self.data@[j], other.data@[j], #[trigger] data@[j]),
            decreases n - i,
        {
            let value = apply(ops, &op, self.data[i], other.data[i]);
            data.push(value);
            i += 1;
        }
        Ok(Vector::from_data(data))
    }

    /// The operation applied to each element of `self` and to `scalar`.
    fn broadcast<O: Arithmetic>(&self, scalar: Binary32, op: Operation, ops: &O) -> (r: Vector)
        ensures
            r@.len() == self@.len(),
            forall|i: int|
                0 <= i < self@.len() ==> relates(ops, op, self@[i], scalar, #[trigger] r@[i]),
    {
        let n = self.data.len();
        let mut data: Vec<Binary32> = Vec::with_capacity(n);
        let mut i: usize = 0;
        while i < n
            invariant
                n == self.data.len(),
                i <= n,
                data.len() == i,
                forall|j: int|
                    0 <= j < i ==> relates(ops, op, self.data@[j], scalar, #[trigger] data@[j]),
            decreases n - i,
        {
            let value = apply(ops, &op, self.data[i], scalar);
            data.push(value);
            i += 1;
        }
        Vector::from_data(data)
    }

    /// The products of the elements of `self` and `other`, pair by pair.
    pub fn multiply<O: Arithmetic>(&self, other: &Vector, ops: &O) -> (r: Result<Vector, Failure>)
        ensures
            self@.len() != other@.len() ==> r == Err::<Vector, Failure>(Failure::ShapeMismatch),
            self@.len() == other@.len() ==> r is Ok && r->Ok_0@.len() == self@.len() && forall|
                i: int,
            |
                0 <= i < self@.len() ==> ops.is_product(self@[i], other@[i], #[trigger] r->Ok_0@[i]),
    {
        self.pointwise(other, Operation::Product, ops)
    }

    /// Each element of `self` times `scalar`.
    pub fn multiply_scalar<O: Arithmetic>(&self, scalar: Binary32, ops: &O) -> (r: Vector)
        ensures
            r@.len() == self@.len(),
            forall|i: int| 0 <= i < self@.len() ==> ops.is_product(self@[i], scalar, #[trigger] r@[i]),
    {
        self.broadcast(scalar, Operation::Product, ops)
    }

    /// The quotients of the elements of `self` by those of `other`, pair by
    /// pair. A division by zero is no failure: it gives what the arithmetic
    /// gives.
    pub fn divide<O: Arithmetic>(&self, other: &Vector, ops: &O) -> (r: Result<Vector, Failure>)
        ensures
            self@.len() != other@.len() ==> r == Err::<Vector, Failure>(Failure::ShapeMismatch),
            self@.len() == other@.len() ==> r is Ok && r->Ok_0@.len() == self@.len() && forall|
                i: int,
            |
                0 <= i < self@.len() ==> ops.is_quotient(self@[i], other@[i], #[trigger] r->Ok_0@[i]),
    {
        self.pointwise(other, Operation::Quotient, ops)
    }

    /// Each element of `self` divided by `scalar`.
    pub fn divide_scalar<O: Arithmetic>(&self, scalar: Binary32, ops: &O) -> (r: Vector)
        ensures
            r@.len() == self@.len(),
            forall|i: int| 0 <= i < self@.len() ==> ops.is_quotient(self@[i], scalar, #[trigger] r@[i]),
    {
        self.broadcast(scalar, Operation::Quotient, ops)
    }

    /// The sums of the elements of `self` and `other`, pair by pair.
    pub fn add<O: Arithmetic>(&self, other: &Vector, ops: &O) -> (r: Result<Vector, Failure>)
        ensures
            self@.len() != other@.len() ==> r == Err::<Vector, Failure>(Failure::ShapeMismatch),
            self@.len() == other@.len() ==> r is Ok && r->Ok_0@.len() == self@.len() && forall|
                i: int,
            |
                0 <= i < self@.len() ==> ops.is_sum(self@[i], other@[i], #[trigger] r->Ok_0@[i]),
    {
        self.pointwise(other, Operation::Sum, ops)
    }

    /// Each element of `self` plus `scalar`.
    pub fn add_scalar<O: Arithmetic>(&self, scalar: Binary32, ops: &O) -> (r: Vector)
        ensures
            r@.len() == self@.len(),
            forall|i: int| 0 <= i < self@.len() ==> ops.is_sum(self@[i], scalar, #[trigger] r@[i]),
    {
        self.broadcast(scalar, Operation::Sum, ops)
    }

    /// The differences of the elements of `self` and `other`, pair by pair.
    pub fn subtract<O: Arithmetic>(&self, other: &Vector, ops: &O) -> (r: Result<Vector, Failure>)
        ensures
            self@.len() != other@.len() ==> r == Err::<Vector, Failure>(Failure::ShapeMismatch),
            self@.len() == other@.len() ==> r is Ok && r->Ok_0@.len() == self@.len() && forall|
                i: int,
            |
                0 <= i < self@.len() ==> ops.is_difference(
                    self@[i],
                    other@[i],
                    #[trigger] r->Ok_0@[i],
                ),
    {
        self.pointwise(other, Operation::Difference, ops)
    }

    /// Each element of `self` minus `scalar`.
    pub fn subtract_scalar<O: Arithmetic>(&self, scalar: Binary32, ops: &O) -> (r: Vector)
        ensures
            r@.len() == self@.len(),
            forall|i: int|
                0 <= i < self@.len() ==> ops.is_difference(self@[i], scalar, #[trigger] r@[i]),
    {
        self.broadcast(scalar, Operation::Difference, ops)
    }

    /// The dot product of `self` and `other`.
    pub fn dot<O: Arithmetic>(&self, other: &Vector, ops: &O) -> (r: Result<Binary32, Failure>)
        ensures
            self@.len() != other@.len() ==> r == Err::<Binary32, Failure>(Failure::ShapeMismatch),
            self@.len() == other@.len() ==> r is Ok && is_dot(ops, self@, other@, r->Ok_0),
    {
        if self.data.len() != other.data.len() {
            return Err(Failure::ShapeMismatch);
        }
        let n = self.data.len();
        let mut sum: Binary32 = ZERO;
        let mut i: usize = 0;
        while i < n
            invariant
                n == self.data.len(),
                n == other.data.len(),
                i <= n,
                is_dot(ops, self.data@.take(i as int), other.data@.take(i as int), sum),
            decreases n - i,
        {
            let term = ops.mul(self.data[i], other.data[i]);
            let next = ops.add(sum, term);
            proof {
                let a = self.data@.take(i + 1);
                let b = other.data@.take(i + 1);
                assert(a.drop_last() =~= self.data@.take(i as int));
                assert(b.drop_last() =~= other.data@.take(i as int));
            }
            sum = next;
            i += 1;
        }
        proof {
            assert(self.data@.take(n as int) =~= self.data@);
            assert(other.data@.take(n as int) =~= other.data@);
        }
        Ok(sum)
    }

    /// e raised to each element of `self`.
    pub fn exp<O: Arithmetic>(&self, ops: &O) -> (r: Vector)
        ensures
            r@.len() == self@.len(),
            forall|i: int| 0 <= i < self@.len() ==> ops.is_exp(self@[i], #[trigger] r@[i]),
    {
        let n = self.data.len();
        let mut data: Vec<Binary32> = Vec::with_capacity(n);
        let mut i: usize = 0;
        while i < n
            invariant
                n == self.data.len(),
                i <= n,
                data.len() == i,
                forall|j: int| 0 <= j < i ==> ops.is_exp(self.data@[j], #[trigger] data@[j]),
            decreases n - i,
        {
            let value = ops.exp(self.data[i]);
            data.push(value);
            i += 1;
        }
        Vector::from_data(data)
    }

    /// The sum of the elements of `self`.
    pub fn sum<O: Arithmetic>(&self, ops: &O) -> (r: Binary32)
        ensures
            is_total(ops, self@, r),
    {
        let n = self.data.len();
        let mut sum: Binary32 = ZERO;
        let mut i: usize = 0;
        while i < n
            invariant
                n == self.data.len(),
                i <= n,
                is_total(ops, self.data@.take(i as int), sum),
            decreases n - i,
        {
            let next = ops.add(sum, self.data[i]);
            proof {
                let a = self.data@.take(i + 1);
                assert(a.drop_last() =~= self.data@.take(i as int));
                assert(is_total(ops, a.drop_last(), sum) && ops.is_sum(sum, a.last(), next));
            }
            sum = next;
            i += 1;
        }
        proof {
            assert(self.data@.take(n as int) =~= self.data@);
        }
        sum
    }

    /// The index that a scan from the front settles on as the maximum: the
    /// first one, where several elements are equal.
    pub fn argmax(&self) -> (i: usize)
        requires
            self@.len() > 0,
        ensures
            is_argmax(self@, i as int),
            i == argmax_of(self@),
    {
        let mut best: usize = 0;
        let mut k: usize = 1;
        while k < self.data.len()
            invariant
                1 <= k <= self.data.len(),
                best < k,
                nan(self.data@[0]) ==> best == 0,
                !nan(self.data@[0]) ==> !nan(self.data@[best as int]),
                forall|j: int| 0 <= j < k ==> !less(self.data@[best as int], #[trigger] self.data@[j]),
                forall|j: int|
                    0 <= j < best && !nan(self.data@[j]) ==> less(
                        #[trigger] self.data@[j],
                        self.data@[best as int],
                    ),
            decreases self.data.len() - k,
        {
            if crate::binary32::gt(self.data[k], self.data[best]) {
                best = k;
            }
            k += 1;
        }
        proof {
            lemma_argmax_unique(self@, best as int, best as int);
        }
        best
    }
}

} // verus!
