//! The numeric capability a matrix element must offer.

use vstd::prelude::*;
use crate::text::{int_text, render_int, render_nat};

verus! {

/// A numeric scalar: a copyable value with an additive identity, an addition,
/// a multiplication and a text form. Each operation is total and is described
/// by a spec function, so that sums of products can be stated over any scalar.
pub trait Scalar: Copy + Sized {
    /// The additive identity.
    spec fn zero_value() -> Self;

    /// The sum of two scalars.
    spec fn sum(self, rhs: Self) -> Self;

    /// The product of two scalars.
    spec fn product(self, rhs: Self) -> Self;

    /// The text a scalar is shown as.
    spec fn text(self) -> Seq<char>;

    fn zero() -> (z: Self)
        ensures
            z == Self::zero_value(),
    ;

    fn plus(self, rhs: Self) -> (r: Self)
        ensures
            r == self.sum(rhs),
    ;

    fn times(self, rhs: Self) -> (r: Self)
        ensures
            r == self.product(rhs),
    ;

    fn render(self) -> (s: String)
        ensures
            s@ == self.text(),
    ;
}


/// `i8` with the arithmetic of the machine: sums and products wrap round at
/// the ends of the type's range.
impl Scalar for i8 {
    open spec fn zero_value() -> i8 {
        0i8
    }

    open spec fn sum(self, rhs: i8) -> i8 {
        self.wrapping_add(rhs)
    }

    open spec fn product(self, rhs: i8) -> i8 {
        self.wrapping_mul(rhs)
    }

    open spec fn text(self) -> Seq<char> {
        int_text(self as int)
    }

    fn zero() -> (z: i8) {
        0i8
    }

    fn plus(self, rhs: i8) -> (r: i8) {
        self.wrapping_add(rhs)
    }

    fn times(self, rhs: i8) -> (r: i8) {
        self.wrapping_mul(rhs)
    }

    fn render(self) -> (s: String) {
        render_int(self as i128)
    }
}

/// `i16` with the arithmetic of the machine: sums and products wrap round at
/// the ends of the type's range.
impl Scalar for i16 {
    open spec fn zero_value() -> i16 {
        0i16
    }

    open spec fn sum(self, rhs: i16) -> i16 {
        self.wrapping_add(rhs)
    }

    open spec fn product(self, rhs: i16) -> i16 {
        self.wrapping_mul(rhs)
    }

    open spec fn text(self) -> Seq<char> {
        int_text(self as int)
    }

    fn zero() -> (z: i16) {
        0i16
    }

    fn plus(self, rhs: i16) -> (r: i16) {
        self.wrapping_add(rhs)
    }

    fn times(self, rhs: i16) -> (r: i16) {
        self.wrapping_mul(rhs)
    }

    fn render(self) -> (s: String) {
        render_int(self as i128)
    }
}

/// `i32` with the arithmetic of the machine: sums and products wrap round at
/// the ends of the type's range.
impl Scalar for i32 {
    open spec fn zero_value() -> i32 {
        0i32
    }

    open spec fn sum(self, rhs: i32) -> i32 {
        self.wrapping_add(rhs)
    }

    open spec fn product(self, rhs: i32) -> i32 {
        self.wrapping_mul(rhs)
    }

    open spec fn text(self) -> Seq<char> {
        int_text(self as int)
    }

    fn zero() -> (z: i32) {
        0i32
    }

    fn plus(self, rhs: i32) -> (r: i32) {
        self.wrapping_add(rhs)
    }

    fn times(self, rhs: i32) -> (r: i32) {
        self.wrapping_mul(rhs)
    }

    fn render(self) -> (s: String) {
        render_int(self as i128)
    }
}

/// `i64` with the arithmetic of the machine: sums and products wrap round at
/// the ends of the type's range.
impl Scalar for i64 {
    open spec fn zero_value() -> i64 {
        0i64
    }

    open spec fn sum(self, rhs: i64) -> i64 {
        self.wrapping_add(rhs)
    }

    open spec fn product(self, rhs: i64) -> i64 {
        self.wrapping_mul(rhs)
    }

    open spec fn text(self) -> Seq<char> {
        int_text(self as int)
    }

    fn zero() -> (z: i64) {
        0i64
    }

    fn plus(self, rhs: i64) -> (r: i64) {
        self.wrapping_add(rhs)
    }

    fn times(self, rhs: i64) -> (r: i64) {
        self.wrapping_mul(rhs)
    }

    fn render(self) -> (s: String) {
        render_int(self as i128)
    }
}

/// `i128` with the arithmetic of the machine: sums and products wrap round at
/// the ends of the type's range.
impl Scalar for i128 {
    open spec fn zero_value() -> i128 {
        0i128
    }

    open spec fn sum(self, rhs: i128) -> i128 {
        self.wrapping_add(rhs)
    }

    open spec fn product(self, rhs: i128) -> i128 {
        self.wrapping_mul(rhs)
    }

    open spec fn text(self) -> Seq<char> {
        int_text(self as int)
    }

    fn zero() -> (z: i128) {
        0i128
    }

    fn plus(self, rhs: i128) -> (r: i128) {
        self.wrapping_add(rhs)
    }

    fn times(self, rhs: i128) -> (r: i128) {
        self.wrapping_mul(rhs)
    }

    fn render(self) -> (s: String) {
        render_int(self)
    }
}

/// `isize` with the arithmetic of the machine: sums and products wrap round at
/// the ends of the type's range.
impl Scalar for isize {
    open spec fn zero_value() -> isize {
        0isize
    }

    open spec fn sum(self, rhs: isize) -> isize {
        self.wrapping_add(rhs)
    }

    open spec fn product(self, rhs: isize) -> isize {
        self.wrapping_mul(rhs)
    }

    open spec fn text(self) -> Seq<char> {
        int_text(self as int)
    }

    fn zero() -> (z: isize) {
        0isize
    }

    fn plus(self, rhs: isize) -> (r: isize) {
        self.wrapping_add(rhs)
    }

    fn times(self, rhs: isize) -> (r: isize) {
        self.wrapping_mul(rhs)
    }

    fn render(self) -> (s: String) {
        render_int(self as i128)
    }
}

/// `u8` with the arithmetic of the machine: sums and products wrap round at
/// the ends of the type's range.
impl Scalar for u8 {
    open spec fn zero_value() -> u8 {
        0u8
    }

    open spec fn sum(self, rhs: u8) -> u8 {
        self.wrapping_add(rhs)
    }

    open spec fn product(self, rhs: u8) -> u8 {
        self.wrapping_mul(rhs)
    }

    open spec fn text(self) -> Seq<char> {
        int_text(self as int)
    }

    fn zero() -> (z: u8) {
        0u8
    }

    fn plus(self, rhs: u8) -> (r: u8) {
        self.wrapping_add(rhs)
    }

    fn times(self, rhs: u8) -> (r: u8) {
        self.wrapping_mul(rhs)
    }

    fn render(self) -> (s: String) {
        render_nat(self as u128)
    }
}

/// `u16` with the arithmetic of the machine: sums and products wrap round at
/// the ends of the type's range.
impl Scalar for u16 {
    open spec fn zero_value() -> u16 {
        0u16
    }

    open spec fn sum(self, rhs: u16) -> u16 {
        self.wrapping_add(rhs)
    }

    open spec fn product(self, rhs: u16) -> u16 {
        self.wrapping_mul(rhs)
    }

    open spec fn text(self) -> Seq<char> {
        int_text(self as int)
    }

    fn zero() -> (z: u16) {
        0u16
    }

    fn plus(self, rhs: u16) -> (r: u16) {
        self.wrapping_add(rhs)
    }

    fn times(self, rhs: u16) -> (r: u16) {
        self.wrapping_mul(rhs)
    }

    fn render(self) -> (s: String) {
        render_nat(self as u128)
    }
}

/// `u32` with the arithmetic of the machine: sums and products wrap round at
/// the ends of the type's range.
impl Scalar for u32 {
    open spec fn zero_value() -> u32 {
        0u32
    }

    open spec fn sum(self, rhs: u32) -> u32 {
        self.wrapping_add(rhs)
    }

    open spec fn product(self, rhs: u32) -> u32 {
        self.wrapping_mul(rhs)
    }

    open spec fn text(self) -> Seq<char> {
        int_text(self as int)
    }

    fn zero() -> (z: u32) {
        0u32
    }

    fn plus(self, rhs: u32) -> (r: u32) {
        self.wrapping_add(rhs)
    }

    fn times(self, rhs: u32) -> (r: u32) {
        self.wrapping_mul(rhs)
    }

    fn render(self) -> (s: String) {
        render_nat(self as u128)
    }
}

/// `u64` with the arithmetic of the machine: sums and products wrap round at
/// the ends of the type's range.
impl Scalar for u64 {
    open spec fn zero_value() -> u64 {
        0u64
    }

    open spec fn sum(self, rhs: u64) -> u64 {
        self.wrapping_add(rhs)
    }

    open spec fn product(self, rhs: u64) -> u64 {
        self.wrapping_mul(rhs)
    }

    open spec fn text(self) -> Seq<char> {
        int_text(self as int)
    }

    fn zero() -> (z: u64) {
        0u64
    }

    fn plus(self, rhs: u64) -> (r: u64) {
        self.wrapping_add(rhs)
    }

    fn times(self, rhs: u64) -> (r: u64) {
        self.wrapping_mul(rhs)
    }

    fn render(self) -> (s: String) {
        render_nat(self as u128)
    }
}

/// `u128` with the arithmetic of the machine: sums and products wrap round at
/// the ends of the type's range.
impl Scalar for u128 {
    open spec fn zero_value() -> u128 {
        0u128
    }

    open spec fn sum(self, rhs: u128) -> u128 {
        self.wrapping_add(rhs)
    }

    open spec fn product(self, rhs: u128) -> u128 {
        self.wrapping_mul(rhs)
    }

    open spec fn text(self) -> Seq<char> {
        int_text(self as int)
    }

    fn zero() -> (z: u128) {
        0u128
    }

    fn plus(self, rhs: u128) -> (r: u128) {
        self.wrapping_add(rhs)
    }

    fn times(self, rhs: u128) -> (r: u128) {
        self.wrapping_mul(rhs)
    }

    fn render(self) -> (s: String) {
        render_nat(self)
    }
}

/// `usize` with the arithmetic of the machine: sums and products wrap round at
/// the ends of the type's range.
impl Scalar for usize {
    open spec fn zero_value() -> usize {
        0usize
    }

    open spec fn sum(self, rhs: usize) -> usize {
        self.wrapping_add(rhs)
    }

    open spec fn product(self, rhs: usize) -> usize {
        self.wrapping_mul(rhs)
    }

    open spec fn text(self) -> Seq<char> {
        int_text(self as int)
    }

    fn zero() -> (z: usize) {
        0usize
    }

    fn plus(self, rhs: usize) -> (r: usize) {
        self.wrapping_add(rhs)
    }

    fn times(self, rhs: usize) -> (r: usize) {
        self.wrapping_mul(rhs)
    }

    fn render(self) -> (s: String) {
        render_nat(self as u128)
    }
}

} // verus!
