//! How the dot product of machine integers relates to the sum of products
//! over the integers.

use vstd::prelude::*;
use crate::scalar::Scalar;
use crate::vector::{dot, dot_prefix};

verus! {

/// The sum over `k < n` of `a[k] * b[k]` over the integers, where nothing
/// wraps round.
pub open spec fn exact_dot(a: Seq<int>, b: Seq<int>, n: nat) -> int
    decreases n,
{
    if n == 0 {
        0
    } else {
        exact_dot(a, b, (n - 1) as nat) + a[n - 1] * b[n - 1]
    }
}

/// The elements of a sequence of `i8` as integers.
pub open spec fn ints_of_i8(s: Seq<i8>) -> Seq<int> {
    Seq::new(s.len(), |k: int| s[k] as int)
}

proof fn lemma_sum_wraps_i8(x: i8, y: i8) -> (k: int)
    ensures
        x.sum(y) as int - (x + y) == k * 0x100,
{
    if x + y > i8::MAX {
        -1
    } else if x + y < i8::MIN {
        1
    } else {
        0
    }
}

proof fn lemma_product_wraps_i8(x: i8, y: i8) -> (k: int)
    ensures
        x.product(y) as int - x * y == k * 0x100,
{
    let v = x as int * y as int;
    vstd::arithmetic::div_mod::lemma_fundamental_div_mod(v, 0x100);
    vstd::arithmetic::div_mod::lemma_mod_bound(v, 0x100);
    let q = v / 0x100;
    assert(0x100 * q == q * 0x100) by (nonlinear_arith);
    if v % 0x100 > i8::MAX {
        -q - 1
    } else {
        -q
    }
}

/// The dot product of `i8` values differs from the sum of products over the
/// integers by a whole number of times the size of the type's range.
pub proof fn lemma_dot_wraps_i8(a: Seq<i8>, b: Seq<i8>, n: nat) -> (k: int)
    requires
        n <= a.len(),
        n <= b.len(),
    ensures
        dot_prefix(a, b, n) as int - exact_dot(ints_of_i8(a), ints_of_i8(b), n) == k * 0x100,
    decreases n,
{
    if n == 0 {
        0
    } else {
        let before = lemma_dot_wraps_i8(a, b, (n - 1) as nat);
        let x = a[n - 1];
        let y = b[n - 1];
        let by_product = lemma_product_wraps_i8(x, y);
        let by_sum = lemma_sum_wraps_i8(dot_prefix(a, b, (n - 1) as nat), x.product(y));
        assert(ints_of_i8(a)[n - 1] == x as int);
        assert(ints_of_i8(b)[n - 1] == y as int);
        let k = before + by_product + by_sum;
        assert(k * 0x100 == before * 0x100 + by_product * 0x100 + by_sum * 0x100) by (nonlinear_arith)
            requires
                k == before + by_product + by_sum,
        ;
        k
    }
}

/// Where the sum of products over the integers fits `i8`, the dot product is
/// that sum, even if a partial sum or a product on the way does not fit.
pub proof fn lemma_dot_exact_i8(a: Seq<i8>, b: Seq<i8>)
    requires
        a.len() == b.len(),
        i8::MIN <= exact_dot(ints_of_i8(a), ints_of_i8(b), a.len()) <= i8::MAX,
    ensures
        dot(a, b) as int == exact_dot(ints_of_i8(a), ints_of_i8(b), a.len()),
{
    let k = lemma_dot_wraps_i8(a, b, a.len());
    let d = dot(a, b) as int - exact_dot(ints_of_i8(a), ints_of_i8(b), a.len());
    assert(k == 0) by (nonlinear_arith)
        requires
            d == k * 0x100,
            -0x100 < d < 0x100,
    ;
}

/// The elements of a sequence of `i16` as integers.
pub open spec fn ints_of_i16(s: Seq<i16>) -> Seq<int> {
    Seq::new(s.len(), |k: int| s[k] as int)
}

proof fn lemma_sum_wraps_i16(x: i16, y: i16) -> (k: int)
    ensures
        x.sum(y) as int - (x + y) == k * 0x1_0000,
{
    if x + y > i16::MAX {
        -1
    } else if x + y < i16::MIN {
        1
    } else {
        0
    }
}

proof fn lemma_product_wraps_i16(x: i16, y: i16) -> (k: int)
    ensures
        x.product(y) as int - x * y == k * 0x1_0000,
{
    let v = x as int * y as int;
    vstd::arithmetic::div_mod::lemma_fundamental_div_mod(v, 0x1_0000);
    vstd::arithmetic::div_mod::lemma_mod_bound(v, 0x1_0000);
    let q = v / 0x1_0000;
    assert(0x1_0000 * q == q * 0x1_0000) by (nonlinear_arith);
    if v % 0x1_0000 > i16::MAX {
        -q - 1
    } else {
        -q
    }
}

/// The dot product of `i16` values differs from the sum of products over the
/// integers by a whole number of times the size of the type's range.
pub proof fn lemma_dot_wraps_i16(a: Seq<i16>, b: Seq<i16>, n: nat) -> (k: int)
    requires
        n <= a.len(),
        n <= b.len(),
    ensures
        dot_prefix(a, b, n) as int - exact_dot(ints_of_i16(a), ints_of_i16(b), n) == k * 0x1_0000,
    decreases n,
{
    if n == 0 {
        0
    } else {
        let before = lemma_dot_wraps_i16(a, b, (n - 1) as nat);
        let x = a[n - 1];
        let y = b[n - 1];
        let by_product = lemma_product_wraps_i16(x, y);
        let by_sum = lemma_sum_wraps_i16(dot_prefix(a, b, (n - 1) as nat), x.product(y));
        assert(ints_of_i16(a)[n - 1] == x as int);
        assert(ints_of_i16(b)[n - 1] == y as int);
        let k = before + by_product + by_sum;
        assert(k * 0x1_0000 == before * 0x1_0000 + by_product * 0x1_0000 + by_sum * 0x1_0000) by (nonlinear_arith)
            requires
                k == before + by_product + by_sum,
        ;
        k
    }
}

/// Where the sum of products over the integers fits `i16`, the dot product is
/// that sum, even if a partial sum or a product on the way does not fit.
pub proof fn lemma_dot_exact_i16(a: Seq<i16>, b: Seq<i16>)
    requires
        a.len() == b.len(),
        i16::MIN <= exact_dot(ints_of_i16(a), ints_of_i16(b), a.len()) <= i16::MAX,
    ensures
        dot(a, b) as int == exact_dot(ints_of_i16(a), ints_of_i16(b), a.len()),
{
    let k = lemma_dot_wraps_i16(a, b, a.len());
    let d = dot(a, b) as int - exact_dot(ints_of_i16(a), ints_of_i16(b), a.len());
    assert(k == 0) by (nonlinear_arith)
        requires
            d == k * 0x1_0000,
            -0x1_0000 < d < 0x1_0000,
    ;
}

/// The elements of a sequence of `i32` as integers.
pub open spec fn ints_of_i32(s: Seq<i32>) -> Seq<int> {
    Seq::new(s.len(), |k: int| s[k] as int)
}

proof fn lemma_sum_wraps_i32(x: i32, y: i32) -> (k: int)
    ensures
        x.sum(y) as int - (x + y) == k * 0x1_0000_0000,
{
    if x + y > i32::MAX {
        -1
    } else if x + y < i32::MIN {
        1
    } else {
        0
    }
}

proof fn lemma_product_wraps_i32(x: i32, y: i32) -> (k: int)
    ensures
        x.product(y) as int - x * y == k * 0x1_0000_0000,
{
    let v = x as int * y as int;
    vstd::arithmetic::div_mod::lemma_fundamental_div_mod(v, 0x1_0000_0000);
    vstd::arithmetic::div_mod::lemma_mod_bound(v, 0x1_0000_0000);
    let q = v / 0x1_0000_0000;
    assert(0x1_0000_0000 * q == q * 0x1_0000_0000) by (nonlinear_arith);
    if v % 0x1_0000_0000 > i32::MAX {
        -q - 1
    } else {
        -q
    }
}

/// The dot product of `i32` values differs from the sum of products over the
/// integers by a whole number of times the size of the type's range.
pub proof fn lemma_dot_wraps_i32(a: Seq<i32>, b: Seq<i32>, n: nat) -> (k: int)
    requires
        n <= a.len(),
        n <= b.len(),
    ensures
        dot_prefix(a, b, n) as int - exact_dot(ints_of_i32(a), ints_of_i32(b), n) == k * 0x1_0000_0000,
    decreases n,
{
    if n == 0 {
        0
    } else {
        let before = lemma_dot_wraps_i32(a, b, (n - 1) as nat);
        let x = a[n - 1];
        let y = b[n - 1];
        let by_product = lemma_product_wraps_i32(x, y);
        let by_sum = lemma_sum_wraps_i32(dot_prefix(a, b, (n - 1) as nat), x.product(y));
        assert(ints_of_i32(a)[n - 1] == x as int);
        assert(ints_of_i32(b)[n - 1] == y as int);
        let k = before + by_product + by_sum;
        assert(k * 0x1_0000_0000 == before * 0x1_0000_0000 + by_product * 0x1_0000_0000 + by_sum * 0x1_0000_0000) by (nonlinear_arith)
            requires
                k == before + by_product + by_sum,
        ;
        k
    }
}

/// Where the sum of products over the integers fits `i32`, the dot product is
/// that sum, even if a partial sum or a product on the way does not fit.
pub proof fn lemma_dot_exact_i32(a: Seq<i32>, b: Seq<i32>)
    requires
        a.len() == b.len(),
        i32::MIN <= exact_dot(ints_of_i32(a), ints_of_i32(b), a.len()) <= i32::MAX,
    ensures
        dot(a, b) as int == exact_dot(ints_of_i32(a), ints_of_i32(b), a.len()),
{
    let k = lemma_dot_wraps_i32(a, b, a.len());
    let d = dot(a, b) as int - exact_dot(ints_of_i32(a), ints_of_i32(b), a.len());
    assert(k == 0) by (nonlinear_arith)
        requires
            d == k * 0x1_0000_0000,
            -0x1_0000_0000 < d < 0x1_0000_0000,
    ;
}

/// The elements of a sequence of `i64` as integers.
pub open spec fn ints_of_i64(s: Seq<i64>) -> Seq<int> {
    Seq::new(s.len(), |k: int| s[k] as int)
}

proof fn lemma_sum_wraps_i64(x: i64, y: i64) -> (k: int)
    ensures
        x.sum(y) as int - (x + y) == k * 0x1_0000_0000_0000_0000,
{
    if x + y > i64::MAX {
        -1
    } else if x + y < i64::MIN {
        1
    } else {
        0
    }
}

proof fn lemma_product_wraps_i64(x: i64, y: i64) -> (k: int)
    ensures
        x.product(y) as int - x * y == k * 0x1_0000_0000_0000_0000,
{
    let v = x as int * y as int;
    vstd::arithmetic::div_mod::lemma_fundamental_div_mod(v, 0x1_0000_0000_0000_0000);
    vstd::arithmetic::div_mod::lemma_mod_bound(v, 0x1_0000_0000_0000_0000);
    let q = v / 0x1_0000_0000_0000_0000;
    assert(0x1_0000_0000_0000_0000 * q == q * 0x1_0000_0000_0000_0000) by (nonlinear_arith);
    if v % 0x1_0000_0000_0000_0000 > i64::MAX {
        -q - 1
    } else {
        -q
    }
}

/// The dot product of `i64` values differs from the sum of products over the
/// integers by a whole number of times the size of the type's range.
pub proof fn lemma_dot_wraps_i64(a: Seq<i64>, b: Seq<i64>, n: nat) -> (k: int)
    requires
        n <= a.len(),
        n <= b.len(),
    ensures
        dot_prefix(a, b, n) as int - exact_dot(ints_of_i64(a), ints_of_i64(b), n) == k * 0x1_0000_0000_0000_0000,
    decreases n,
{
    if n == 0 {
        0
    } else {
        let before = lemma_dot_wraps_i64(a, b, (n - 1) as nat);
        let x = a[n - 1];
        let y = b[n - 1];
        let by_product = lemma_product_wraps_i64(x, y);
        let by_sum = lemma_sum_wraps_i64(dot_prefix(a, b, (n - 1) as nat), x.product(y));
        assert(ints_of_i64(a)[n - 1] == x as int);
        assert(ints_of_i64(b)[n - 1] == y as int);
        let k = before + by_product + by_sum;
        assert(k * 0x1_0000_0000_0000_0000 == before * 0x1_0000_0000_0000_0000 + by_product * 0x1_0000_0000_0000_0000 + by_sum * 0x1_0000_0000_0000_0000) by (nonlinear_arith)
            requires
                k == before + by_product + by_sum,
        ;
        k
    }
}

/// Where the sum of products over the integers fits `i64`, the dot product is
/// that sum, even if a partial sum or a product on the way does not fit.
pub proof fn lemma_dot_exact_i64(a: Seq<i64>, b: Seq<i64>)
    requires
        a.len() == b.len(),
        i64::MIN <= exact_dot(ints_of_i64(a), ints_of_i64(b), a.len()) <= i64::MAX,
    ensures
        dot(a, b) as int == exact_dot(ints_of_i64(a), ints_of_i64(b), a.len()),
{
    let k = lemma_dot_wraps_i64(a, b, a.len());
    let d = dot(a, b) as int - exact_dot(ints_of_i64(a), ints_of_i64(b), a.len());
    assert(k == 0) by (nonlinear_arith)
        requires
            d == k * 0x1_0000_0000_0000_0000,
            -0x1_0000_0000_0000_0000 < d < 0x1_0000_0000_0000_0000,
    ;
}

/// The elements of a sequence of `i128` as integers.
pub open spec fn ints_of_i128(s: Seq<i128>) -> Seq<int> {
    Seq::new(s.len(), |k: int| s[k] as int)
}

proof fn lemma_sum_wraps_i128(x: i128, y: i128) -> (k: int)
    ensures
        x.sum(y) as int - (x + y) == k * (u128::MAX + 1),
{
    if x + y > i128::MAX {
        -1
    } else if x + y < i128::MIN {
        1
    } else {
        0
    }
}

proof fn lemma_product_wraps_i128(x: i128, y: i128) -> (k: int)
    ensures
        x.product(y) as int - x * y == k * (u128::MAX + 1),
{
    let v = x as int * y as int;
    vstd::arithmetic::div_mod::lemma_fundamental_div_mod(v, (u128::MAX + 1));
    vstd::arithmetic::div_mod::lemma_mod_bound(v, (u128::MAX + 1));
    let q = v / (u128::MAX + 1);
    assert((u128::MAX + 1) * q == q * (u128::MAX + 1)) by (nonlinear_arith);
    if v % (u128::MAX + 1) > i128::MAX {
        -q - 1
    } else {
        -q
    }
}

/// The dot product of `i128` values differs from the sum of products over the
/// integers by a whole number of times the size of the type's range.
pub proof fn lemma_dot_wraps_i128(a: Seq<i128>, b: Seq<i128>, n: nat) -> (k: int)
    requires
        n <= a.len(),
        n <= b.len(),
    ensures
        dot_prefix(a, b, n) as int - exact_dot(ints_of_i128(a), ints_of_i128(b), n) == k * (u128::MAX + 1),
    decreases n,
{
    if n == 0 {
        0
    } else {
        let before = lemma_dot_wraps_i128(a, b, (n - 1) as nat);
        let x = a[n - 1];
        let y = b[n - 1];
        let by_product = lemma_product_wraps_i128(x, y);
        let by_sum = lemma_sum_wraps_i128(dot_prefix(a, b, (n - 1) as nat), x.product(y));
        assert(ints_of_i128(a)[n - 1] == x as int);
        assert(ints_of_i128(b)[n - 1] == y as int);
        let k = before + by_product + by_sum;
        assert(k * (u128::MAX + 1) == before * (u128::MAX + 1) + by_product * (u128::MAX + 1) + by_sum * (u128::MAX + 1)) by (nonlinear_arith)
            requires
                k == before + by_product + by_sum,
        ;
        k
    }
}

/// Where the sum of products over the integers fits `i128`, the dot product is
/// that sum, even if a partial sum or a product on the way does not fit.
pub proof fn lemma_dot_exact_i128(a: Seq<i128>, b: Seq<i128>)
    requires
        a.len() == b.len(),
        i128::MIN <= exact_dot(ints_of_i128(a), ints_of_i128(b), a.len()) <= i128::MAX,
    ensures
        dot(a, b) as int == exact_dot(ints_of_i128(a), ints_of_i128(b), a.len()),
{
    let k = lemma_dot_wraps_i128(a, b, a.len());
    let d = dot(a, b) as int - exact_dot(ints_of_i128(a), ints_of_i128(b), a.len());
    assert(k == 0) by (nonlinear_arith)
        requires
            d == k * (u128::MAX + 1),
            -(u128::MAX + 1) < d < (u128::MAX + 1),
    ;
}

/// The elements of a sequence of `isize` as integers.
pub open spec fn ints_of_isize(s: Seq<isize>) -> Seq<int> {
    Seq::new(s.len(), |k: int| s[k] as int)
}

proof fn lemma_sum_wraps_isize(x: isize, y: isize) -> (k: int)
    ensures
        x.sum(y) as int - (x + y) == k * (usize::MAX + 1),
{
    if x + y > isize::MAX {
        -1
    } else if x + y < isize::MIN {
        1
    } else {
        0
    }
}

proof fn lemma_product_wraps_isize(x: isize, y: isize) -> (k: int)
    ensures
        x.product(y) as int - x * y == k * (usize::MAX + 1),
{
    let v = x as int * y as int;
    vstd::arithmetic::div_mod::lemma_fundamental_div_mod(v, (usize::MAX + 1));
    vstd::arithmetic::div_mod::lemma_mod_bound(v, (usize::MAX + 1));
    let q = v / (usize::MAX + 1);
    assert((usize::MAX + 1) * q == q * (usize::MAX + 1)) by (nonlinear_arith);
    if v % (usize::MAX + 1) > isize::MAX {
        -q - 1
    } else {
        -q
    }
}

/// The dot product of `isize` values differs from the sum of products over the
/// integers by a whole number of times the size of the type's range.
pub proof fn lemma_dot_wraps_isize(a: Seq<isize>, b: Seq<isize>, n: nat) -> (k: int)
    requires
        n <= a.len(),
        n <= b.len(),
    ensures
        dot_prefix(a, b, n) as int - exact_dot(ints_of_isize(a), ints_of_isize(b), n) == k * (usize::MAX + 1),
    decreases n,
{
    if n == 0 {
        0
    } else {
        let before = lemma_dot_wraps_isize(a, b, (n - 1) as nat);
        let x = a[n - 1];
        let y = b[n - 1];
        let by_product = lemma_product_wraps_isize(x, y);
        let by_sum = lemma_sum_wraps_isize(dot_prefix(a, b, (n - 1) as nat), x.product(y));
        assert(ints_of_isize(a)[n - 1] == x as int);
        assert(ints_of_isize(b)[n - 1] == y as int);
        let k = before + by_product + by_sum;
        assert(k * (usize::MAX + 1) == before * (usize::MAX + 1) + by_product * (usize::MAX + 1) + by_sum * (usize::MAX + 1)) by (nonlinear_arith)
            requires
                k == before + by_product + by_sum,
        ;
        k
    }
}

/// Where the sum of products over the integers fits `isize`, the dot product is
/// that sum, even if a partial sum or a product on the way does not fit.
pub proof fn lemma_dot_exact_isize(a: Seq<isize>, b: Seq<isize>)
    requires
        a.len() == b.len(),
        isize::MIN <= exact_dot(ints_of_isize(a), ints_of_isize(b), a.len()) <= isize::MAX,
    ensures
        dot(a, b) as int == exact_dot(ints_of_isize(a), ints_of_isize(b), a.len()),
{
    let k = lemma_dot_wraps_isize(a, b, a.len());
    let d = dot(a, b) as int - exact_dot(ints_of_isize(a), ints_of_isize(b), a.len());
    assert(k == 0) by (nonlinear_arith)
        requires
            d == k * (usize::MAX + 1),
            -(usize::MAX + 1) < d < (usize::MAX + 1),
    ;
}

/// The elements of a sequence of `u8` as integers.
pub open spec fn ints_of_u8(s: Seq<u8>) -> Seq<int> {
    Seq::new(s.len(), |k: int| s[k] as int)
}

proof fn lemma_sum_wraps_u8(x: u8, y: u8) -> (k: int)
    ensures
        x.sum(y) as int - (x + y) == k * 0x100,
{
    if x + y > u8::MAX {
        -1
    } else if x + y < u8::MIN {
        1
    } else {
        0
    }
}

proof fn lemma_product_wraps_u8(x: u8, y: u8) -> (k: int)
    ensures
        x.product(y) as int - x * y == k * 0x100,
{
    let v = x as int * y as int;
    vstd::arithmetic::div_mod::lemma_fundamental_div_mod(v, 0x100);
    vstd::arithmetic::div_mod::lemma_mod_bound(v, 0x100);
    let q = v / 0x100;
    assert(0x100 * q == q * 0x100) by (nonlinear_arith);
    assert(v >= 0) by (nonlinear_arith)
        requires
            v == x as int * y as int,
            x >= 0,
            y >= 0,
    ;
    assert(x as nat * y as nat == v);
    -q
}

/// The dot product of `u8` values differs from the sum of products over the
/// integers by a whole number of times the size of the type's range.
pub proof fn lemma_dot_wraps_u8(a: Seq<u8>, b: Seq<u8>, n: nat) -> (k: int)
    requires
        n <= a.len(),
        n <= b.len(),
    ensures
        dot_prefix(a, b, n) as int - exact_dot(ints_of_u8(a), ints_of_u8(b), n) == k * 0x100,
    decreases n,
{
    if n == 0 {
        0
    } else {
        let before = lemma_dot_wraps_u8(a, b, (n - 1) as nat);
        let x = a[n - 1];
        let y = b[n - 1];
        let by_product = lemma_product_wraps_u8(x, y);
        let by_sum = lemma_sum_wraps_u8(dot_prefix(a, b, (n - 1) as nat), x.product(y));
        assert(ints_of_u8(a)[n - 1] == x as int);
        assert(ints_of_u8(b)[n - 1] == y as int);
        let k = before + by_product + by_sum;
        assert(k * 0x100 == before * 0x100 + by_product * 0x100 + by_sum * 0x100) by (nonlinear_arith)
            requires
                k == before + by_product + by_sum,
        ;
        k
    }
}

/// Where the sum of products over the integers fits `u8`, the dot product is
/// that sum, even if a partial sum or a product on the way does not fit.
pub proof fn lemma_dot_exact_u8(a: Seq<u8>, b: Seq<u8>)
    requires
        a.len() == b.len(),
        u8::MIN <= exact_dot(ints_of_u8(a), ints_of_u8(b), a.len()) <= u8::MAX,
    ensures
        dot(a, b) as int == exact_dot(ints_of_u8(a), ints_of_u8(b), a.len()),
{
    let k = lemma_dot_wraps_u8(a, b, a.len());
    let d = dot(a, b) as int - exact_dot(ints_of_u8(a), ints_of_u8(b), a.len());
    assert(k == 0) by (nonlinear_arith)
        requires
            d == k * 0x100,
            -0x100 < d < 0x100,
    ;
}

/// The elements of a sequence of `u16` as integers.
pub open spec fn ints_of_u16(s: Seq<u16>) -> Seq<int> {
    Seq::new(s.len(), |k: int| s[k] as int)
}

proof fn lemma_sum_wraps_u16(x: u16, y: u16) -> (k: int)
    ensures
        x.sum(y) as int - (x + y) == k * 0x1_0000,
{
    if x + y > u16::MAX {
        -1
    } else if x + y < u16::MIN {
        1
    } else {
        0
    }
}

proof fn lemma_product_wraps_u16(x: u16, y: u16) -> (k: int)
    ensures
        x.product(y) as int - x * y == k * 0x1_0000,
{
    let v = x as int * y as int;
    vstd::arithmetic::div_mod::lemma_fundamental_div_mod(v, 0x1_0000);
    vstd::arithmetic::div_mod::lemma_mod_bound(v, 0x1_0000);
    let q = v / 0x1_0000;
    assert(0x1_0000 * q == q * 0x1_0000) by (nonlinear_arith);
    assert(v >= 0) by (nonlinear_arith)
        requires
            v == x as int * y as int,
            x >= 0,
            y >= 0,
    ;
    assert(x as nat * y as nat == v);
    -q
}

/// The dot product of `u16` values differs from the sum of products over the
/// integers by a whole number of times the size of the type's range.
pub proof fn lemma_dot_wraps_u16(a: Seq<u16>, b: Seq<u16>, n: nat) -> (k: int)
    requires
        n <= a.len(),
        n <= b.len(),
    ensures
        dot_prefix(a, b, n) as int - exact_dot(ints_of_u16(a), ints_of_u16(b), n) == k * 0x1_0000,
    decreases n,
{
    if n == 0 {
        0
    } else {
        let before = lemma_dot_wraps_u16(a, b, (n - 1) as nat);
        let x = a[n - 1];
        let y = b[n - 1];
        let by_product = lemma_product_wraps_u16(x, y);
        let by_sum = lemma_sum_wraps_u16(dot_prefix(a, b, (n - 1) as nat), x.product(y));
        assert(ints_of_u16(a)[n - 1] == x as int);
        assert(ints_of_u16(b)[n - 1] == y as int);
        let k = before + by_product + by_sum;
        assert(k * 0x1_0000 == before * 0x1_0000 + by_product * 0x1_0000 + by_sum * 0x1_0000) by (nonlinear_arith)
            requires
                k == before + by_product + by_sum,
        ;
        k
    }
}

/// Where the sum of products over the integers fits `u16`, the dot product is
/// that sum, even if a partial sum or a product on the way does not fit.
pub proof fn lemma_dot_exact_u16(a: Seq<u16>, b: Seq<u16>)
    requires
        a.len() == b.len(),
        u16::MIN <= exact_dot(ints_of_u16(a), ints_of_u16(b), a.len()) <= u16::MAX,
    ensures
        dot(a, b) as int == exact_dot(ints_of_u16(a), ints_of_u16(b), a.len()),
{
    let k = lemma_dot_wraps_u16(a, b, a.len());
    let d = dot(a, b) as int - exact_dot(ints_of_u16(a), ints_of_u16(b), a.len());
    assert(k == 0) by (nonlinear_arith)
        requires
            d == k * 0x1_0000,
            -0x1_0000 < d < 0x1_0000,
    ;
}

/// The elements of a sequence of `u32` as integers.
pub open spec fn ints_of_u32(s: Seq<u32>) -> Seq<int> {
    Seq::new(s.len(), |k: int| s[k] as int)
}

proof fn lemma_sum_wraps_u32(x: u32, y: u32) -> (k: int)
    ensures
        x.sum(y) as int - (x + y) == k * 0x1_0000_0000,
{
    if x + y > u32::MAX {
        -1
    } else if x + y < u32::MIN {
        1
    } else {
        0
    }
}

proof fn lemma_product_wraps_u32(x: u32, y: u32) -> (k: int)
    ensures
        x.product(y) as int - x * y == k * 0x1_0000_0000,
{
    let v = x as int * y as int;
    vstd::arithmetic::div_mod::lemma_fundamental_div_mod(v, 0x1_0000_0000);
    vstd::arithmetic::div_mod::lemma_mod_bound(v, 0x1_0000_0000);
    let q = v / 0x1_0000_0000;
    assert(0x1_0000_0000 * q == q * 0x1_0000_0000) by (nonlinear_arith);
    assert(v >= 0) by (nonlinear_arith)
        requires
            v == x as int * y as int,
            x >= 0,
            y >= 0,
    ;
    assert(x as nat * y as nat == v);
    -q
}

/// The dot product of `u32` values differs from the sum of products over the
/// integers by a whole number of times the size of the type's range.
pub proof fn lemma_dot_wraps_u32(a: Seq<u32>, b: Seq<u32>, n: nat) -> (k: int)
    requires
        n <= a.len(),
        n <= b.len(),
    ensures
        dot_prefix(a, b, n) as int - exact_dot(ints_of_u32(a), ints_of_u32(b), n) == k * 0x1_0000_0000,
    decreases n,
{
    if n == 0 {
        0
    } else {
        let before = lemma_dot_wraps_u32(a, b, (n - 1) as nat);
        let x = a[n - 1];
        let y = b[n - 1];
        let by_product = lemma_product_wraps_u32(x, y);
        let by_sum = lemma_sum_wraps_u32(dot_prefix(a, b, (n - 1) as nat), x.product(y));
        assert(ints_of_u32(a)[n - 1] == x as int);
        assert(ints_of_u32(b)[n - 1] == y as int);
        let k = before + by_product + by_sum;
        assert(k * 0x1_0000_0000 == before * 0x1_0000_0000 + by_product * 0x1_0000_0000 + by_sum * 0x1_0000_0000) by (nonlinear_arith)
            requires
                k == before + by_product + by_sum,
        ;
        k
    }
}

/// Where the sum of products over the integers fits `u32`, the dot product is
/// that sum, even if a partial sum or a product on the way does not fit.
pub proof fn lemma_dot_exact_u32(a: Seq<u32>, b: Seq<u32>)
    requires
        a.len() == b.len(),
        u32::MIN <= exact_dot(ints_of_u32(a), ints_of_u32(b), a.len()) <= u32::MAX,
    ensures
        dot(a, b) as int == exact_dot(ints_of_u32(a), ints_of_u32(b), a.len()),
{
    let k = lemma_dot_wraps_u32(a, b, a.len());
    let d = dot(a, b) as int - exact_dot(ints_of_u32(a), ints_of_u32(b), a.len());
    assert(k == 0) by (nonlinear_arith)
        requires
            d == k * 0x1_0000_0000,
            -0x1_0000_0000 < d < 0x1_0000_0000,
    ;
}

/// The elements of a sequence of `u64` as integers.
pub open spec fn ints_of_u64(s: Seq<u64>) -> Seq<int> {
    Seq::new(s.len(), |k: int| s[k] as int)
}

proof fn lemma_sum_wraps_u64(x: u64, y: u64) -> (k: int)
    ensures
        x.sum(y) as int - (x + y) == k * 0x1_0000_0000_0000_0000,
{
    if x + y > u64::MAX {
        -1
    } else if x + y < u64::MIN {
        1
    } else {
        0
    }
}

proof fn lemma_product_wraps_u64(x: u64, y: u64) -> (k: int)
    ensures
        x.product(y) as int - x * y == k * 0x1_0000_0000_0000_0000,
{
    let v = x as int * y as int;
    vstd::arithmetic::div_mod::lemma_fundamental_div_mod(v, 0x1_0000_0000_0000_0000);
    vstd::arithmetic::div_mod::lemma_mod_bound(v, 0x1_0000_0000_0000_0000);
    let q = v / 0x1_0000_0000_0000_0000;
    assert(0x1_0000_0000_0000_0000 * q == q * 0x1_0000_0000_0000_0000) by (nonlinear_arith);
    assert(v >= 0) by (nonlinear_arith)
        requires
            v == x as int * y as int,
            x >= 0,
            y >= 0,
    ;
    assert(x as nat * y as nat == v);
    -q
}

/// The dot product of `u64` values differs from the sum of products over the
/// integers by a whole number of times the size of the type's range.
pub proof fn lemma_dot_wraps_u64(a: Seq<u64>, b: Seq<u64>, n: nat) -> (k: int)
    requires
        n <= a.len(),
        n <= b.len(),
    ensures
        dot_prefix(a, b, n) as int - exact_dot(ints_of_u64(a), ints_of_u64(b), n) == k * 0x1_0000_0000_0000_0000,
    decreases n,
{
    if n == 0 {
        0
    } else {
        let before = lemma_dot_wraps_u64(a, b, (n - 1) as nat);
        let x = a[n - 1];
        let y = b[n - 1];
        let by_product = lemma_product_wraps_u64(x, y);
        let by_sum = lemma_sum_wraps_u64(dot_prefix(a, b, (n - 1) as nat), x.product(y));
        assert(ints_of_u64(a)[n - 1] == x as int);
        assert(ints_of_u64(b)[n - 1] == y as int);
        let k = before + by_product + by_sum;
        assert(k * 0x1_0000_0000_0000_0000 == before * 0x1_0000_0000_0000_0000 + by_product * 0x1_0000_0000_0000_0000 + by_sum * 0x1_0000_0000_0000_0000) by (nonlinear_arith)
            requires
                k == before + by_product + by_sum,
        ;
        k
    }
}

/// Where the sum of products over the integers fits `u64`, the dot product is
/// that sum, even if a partial sum or a product on the way does not fit.
pub proof fn lemma_dot_exact_u64(a: Seq<u64>, b: Seq<u64>)
    requires
        a.len() == b.len(),
        u64::MIN <= exact_dot(ints_of_u64(a), ints_of_u64(b), a.len()) <= u64::MAX,
    ensures
        dot(a, b) as int == exact_dot(ints_of_u64(a), ints_of_u64(b), a.len()),
{
    let k = lemma_dot_wraps_u64(a, b, a.len());
    let d = dot(a, b) as int - exact_dot(ints_of_u64(a), ints_of_u64(b), a.len());
    assert(k == 0) by (nonlinear_arith)
        requires
            d == k * 0x1_0000_0000_0000_0000,
            -0x1_0000_0000_0000_0000 < d < 0x1_0000_0000_0000_0000,
    ;
}

/// The elements of a sequence of `u128` as integers.
pub open spec fn ints_of_u128(s: Seq<u128>) -> Seq<int> {
    Seq::new(s.len(), |k: int| s[k] as int)
}

proof fn lemma_sum_wraps_u128(x: u128, y: u128) -> (k: int)
    ensures
        x.sum(y) as int - (x + y) == k * (u128::MAX + 1),
{
    if x + y > u128::MAX {
        -1
    } else if x + y < u128::MIN {
        1
    } else {
        0
    }
}

proof fn lemma_product_wraps_u128(x: u128, y: u128) -> (k: int)
    ensures
        x.product(y) as int - x * y == k * (u128::MAX + 1),
{
    let v = x as int * y as int;
    vstd::arithmetic::div_mod::lemma_fundamental_div_mod(v, (u128::MAX + 1));
    vstd::arithmetic::div_mod::lemma_mod_bound(v, (u128::MAX + 1));
    let q = v / (u128::MAX + 1);
    assert((u128::MAX + 1) * q == q * (u128::MAX + 1)) by (nonlinear_arith);
    assert(v >= 0) by (nonlinear_arith)
        requires
            v == x as int * y as int,
            x >= 0,
            y >= 0,
    ;
    assert(x as nat * y as nat == v);
    -q
}

/// The dot product of `u128` values differs from the sum of products over the
/// integers by a whole number of times the size of the type's range.
pub proof fn lemma_dot_wraps_u128(a: Seq<u128>, b: Seq<u128>, n: nat) -> (k: int)
    requires
        n <= a.len(),
        n <= b.len(),
    ensures
        dot_prefix(a, b, n) as int - exact_dot(ints_of_u128(a), ints_of_u128(b), n) == k * (u128::MAX + 1),
    decreases n,
{
    if n == 0 {
        0
    } else {
        let before = lemma_dot_wraps_u128(a, b, (n - 1) as nat);
        let x = a[n - 1];
        let y = b[n - 1];
        let by_product = lemma_product_wraps_u128(x, y);
        let by_sum = lemma_sum_wraps_u128(dot_prefix(a, b, (n - 1) as nat), x.product(y));
        assert(ints_of_u128(a)[n - 1] == x as int);
        assert(ints_of_u128(b)[n - 1] == y as int);
        let k = before + by_product + by_sum;
        assert(k * (u128::MAX + 1) == before * (u128::MAX + 1) + by_product * (u128::MAX + 1) + by_sum * (u128::MAX + 1)) by (nonlinear_arith)
            requires
                k == before + by_product + by_sum,
        ;
        k
    }
}

/// Where the sum of products over the integers fits `u128`, the dot product is
/// that sum, even if a partial sum or a product on the way does not fit.
pub proof fn lemma_dot_exact_u128(a: Seq<u128>, b: Seq<u128>)
    requires
        a.len() == b.len(),
        u128::MIN <= exact_dot(ints_of_u128(a), ints_of_u128(b), a.len()) <= u128::MAX,
    ensures
        dot(a, b) as int == exact_dot(ints_of_u128(a), ints_of_u128(b), a.len()),
{
    let k = lemma_dot_wraps_u128(a, b, a.len());
    let d = dot(a, b) as int - exact_dot(ints_of_u128(a), ints_of_u128(b), a.len());
    assert(k == 0) by (nonlinear_arith)
        requires
            d == k * (u128::MAX + 1),
            -(u128::MAX + 1) < d < (u128::MAX + 1),
    ;
}

/// The elements of a sequence of `usize` as integers.
pub open spec fn ints_of_usize(s: Seq<usize>) -> Seq<int> {
    Seq::new(s.len(), |k: int| s[k] as int)
}

proof fn lemma_sum_wraps_usize(x: usize, y: usize) -> (k: int)
    ensures
        x.sum(y) as int - (x + y) == k * (usize::MAX + 1),
{
    if x + y > usize::MAX {
        -1
    } else if x + y < usize::MIN {
        1
    } else {
        0
    }
}

proof fn lemma_product_wraps_usize(x: usize, y: usize) -> (k: int)
    ensures
        x.product(y) as int - x * y == k * (usize::MAX + 1),
{
    let v = x as int * y as int;
    vstd::arithmetic::div_mod::lemma_fundamental_div_mod(v, (usize::MAX + 1));
    vstd::arithmetic::div_mod::lemma_mod_bound(v, (usize::MAX + 1));
    let q = v / (usize::MAX + 1);
    assert((usize::MAX + 1) * q == q * (usize::MAX + 1)) by (nonlinear_arith);
    assert(v >= 0) by (nonlinear_arith)
        requires
            v == x as int * y as int,
            x >= 0,
            y >= 0,
    ;
    assert(x as nat * y as nat == v);
    -q
}

/// The dot product of `usize` values differs from the sum of products over the
/// integers by a whole number of times the size of the type's range.
pub proof fn lemma_dot_wraps_usize(a: Seq<usize>, b: Seq<usize>, n: nat) -> (k: int)
    requires
        n <= a.len(),
        n <= b.len(),
    ensures
        dot_prefix(a, b, n) as int - exact_dot(ints_of_usize(a), ints_of_usize(b), n) == k * (usize::MAX + 1),
    decreases n,
{
    if n == 0 {
        0
    } else {
        let before = lemma_dot_wraps_usize(a, b, (n - 1) as nat);
        let x = a[n - 1];
        let y = b[n - 1];
        let by_product = lemma_product_wraps_usize(x, y);
        let by_sum = lemma_sum_wraps_usize(dot_prefix(a, b, (n - 1) as nat), x.product(y));
        assert(ints_of_usize(a)[n - 1] == x as int);
        assert(ints_of_usize(b)[n - 1] == y as int);
        let k = before + by_product + by_sum;
        assert(k * (usize::MAX + 1) == before * (usize::MAX + 1) + by_product * (usize::MAX + 1) + by_sum * (usize::MAX + 1)) by (nonlinear_arith)
            requires
                k == before + by_product + by_sum,
        ;
        k
    }
}

/// Where the sum of products over the integers fits `usize`, the dot product is
/// that sum, even if a partial sum or a product on the way does not fit.
pub proof fn lemma_dot_exact_usize(a: Seq<usize>, b: Seq<usize>)
    requires
        a.len() == b.len(),
        usize::MIN <= exact_dot(ints_of_usize(a), ints_of_usize(b), a.len()) <= usize::MAX,
    ensures
        dot(a, b) as int == exact_dot(ints_of_usize(a), ints_of_usize(b), a.len()),
{
    let k = lemma_dot_wraps_usize(a, b, a.len());
    let d = dot(a, b) as int - exact_dot(ints_of_usize(a), ints_of_usize(b), a.len());
    assert(k == 0) by (nonlinear_arith)
        requires
            d == k * (usize::MAX + 1),
            -(usize::MAX + 1) < d < (usize::MAX + 1),
    ;
}

} // verus!
