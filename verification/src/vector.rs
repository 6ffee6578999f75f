//! Owned vectors of scalars and their dot product.

use vstd::prelude::*;
use crate::error::Error;
use crate::scalar::Scalar;

verus! {

/// An owned, ordered sequence of scalars.
pub struct Vector<T> {
    data: Vec<T>,
}

impl<T> View for Vector<T> {
    type V = Seq<T>;

    closed spec fn view(&self) -> Seq<T> {
        self.data@
    }
}

impl<T> Vector<T> {
    /// Takes ownership of `data` as a vector.
    pub fn new(data: Vec<T>) -> (v: Self)
        ensures
            v@ == data@,
    {
        Self { data }
    }

    /// The number of elements.
    pub fn len(&self) -> (n: usize)
        ensures
            n == self@.len(),
    {
        self.data.len()
    }

    /// The elements, in order.
    pub fn as_vec(&self) -> (v: &Vec<T>)
        ensures
            v@ == self@,
    {
        &self.data
    }
}

impl<T> core::ops::Deref for Vector<T> {
    type Target = Vec<T>;

    fn deref(&self) -> (v: &Vec<T>)
        ensures
            v@ == self@,
    {
        &self.data
    }
}

/// The sum of the first `n` element-wise products of `a` and `b`, added up
/// from the additive identity in index order.
pub open spec fn dot_prefix<T: Scalar>(a: Seq<T>, b: Seq<T>, n: nat) -> T
    decreases n,
{
    if n == 0 {
        T::zero_value()
    } else {
        dot_prefix(a, b, (n - 1) as nat).sum(a[n - 1].product(b[n - 1]))
    }
}

/// The dot product of two sequences of equal length.
pub open spec fn dot<T: Scalar>(a: Seq<T>, b: Seq<T>) -> T {
    dot_prefix(a, b, a.len())
}

/// The dot product of `a` and `b`: the sum over `k` of `a[k] * b[k]`, or
/// `LengthMismatch` when the two lengths differ.
pub fn dot_product<T: Scalar>(a: Vector<T>, b: Vector<T>) -> (r: Result<T, Error>)
    ensures
        a@.len() == b@.len() ==> r == Ok::<T, Error>(dot(a@, b@)),
        a@.len() != b@.len() ==> r == Err::<T, Error>(Error::LengthMismatch),
{
    if a.len() != b.len() {
        return Err(Error::LengthMismatch);
    }
    let n = a.len();
    let mut sum = T::zero();
    let mut i: usize = 0;
    while i < n
        invariant
            i <= n,
            n == a@.len(),
            n == b@.len(),
            sum == dot_prefix(a@, b@, i as nat),
        decreases n - i,
    {
        sum = sum.plus(a.data[i].times(b.data[i]));
        i = i + 1;
    }
    Ok(sum)
}

} // verus!
