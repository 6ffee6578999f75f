use concurrency::text::{render_int, render_nat};
use concurrency::{dot_product, Error, Scalar, Vector};

#[test]
fn dot_product_of_equal_lengths() {
    let a = Vector::new(vec![1, 2, 3]);
    let b = Vector::new(vec![4, 5, 6]);
    assert_eq!(dot_product(a, b), Ok(32));
}

#[test]
fn dot_product_of_empty_vectors_is_zero() {
    let a: Vector<i64> = Vector::new(vec![]);
    let b: Vector<i64> = Vector::new(vec![]);
    assert_eq!(dot_product(a, b), Ok(0));
}

#[test]
fn dot_product_of_unequal_lengths_fails() {
    let a = Vector::new(vec![1, 2, 3]);
    let b = Vector::new(vec![4, 5]);
    assert_eq!(dot_product(a, b), Err(Error::LengthMismatch));
    let c: Vector<u64> = Vector::new(vec![]);
    let d = Vector::new(vec![1u64]);
    assert_eq!(dot_product(c, d), Err(Error::LengthMismatch));
}

#[test]
fn dot_product_is_the_same_each_time() {
    for _ in 0..5 {
        let a = Vector::new(vec![7i64, -3, 11, 2]);
        let b = Vector::new(vec![-2i64, 9, 4, 1]);
        assert_eq!(dot_product(a, b), Ok(-14 - 27 + 44 + 2));
    }
}

#[test]
fn dot_product_wraps_round() {
    let a = Vector::new(vec![u32::MAX, 2]);
    let b = Vector::new(vec![2, 3]);
    assert_eq!(dot_product(a, b), Ok(4));
    let c = Vector::new(vec![i64::MAX, i64::MAX]);
    let d = Vector::new(vec![1, 1]);
    assert_eq!(dot_product(c, d), Ok(-2));
}

#[test]
fn vector_gives_its_elements() {
    let v = Vector::new(vec![5, 6, 7]);
    assert_eq!(v.len(), 3);
    assert_eq!(v.as_vec(), &vec![5, 6, 7]);
    assert_eq!(v[1], 6);
    assert_eq!(v.iter().sum::<i32>(), 18);
}

#[test]
fn scalars_have_zero_sum_product_and_text() {
    assert_eq!(<i32 as Scalar>::zero(), 0);
    assert_eq!(3i32.plus(4), 7);
    assert_eq!(3i32.times(-4), -12);
    assert_eq!(i32::MAX.plus(1), i32::MIN);
    assert_eq!((-12i32).render(), "-12");
    assert_eq!(<u64 as Scalar>::zero(), 0);
    assert_eq!(u64::MAX.plus(2), 1);
    assert_eq!(u64::MAX.times(2), u64::MAX - 1);
    assert_eq!(7u32.times(6).render(), "42");
    assert_eq!(i64::MIN.times(-1), i64::MIN);
    assert_eq!(<i64 as Scalar>::zero().render(), "0");
}

#[test]
fn integers_render_as_decimal() {
    assert_eq!(render_nat(0), "0");
    assert_eq!(render_nat(9), "9");
    assert_eq!(render_nat(10), "10");
    assert_eq!(render_nat(1234567890), "1234567890");
    assert_eq!(render_nat(u128::MAX), "340282366920938463463374607431768211455");
    assert_eq!(render_int(-1), "-1");
    assert_eq!(render_int(0), "0");
    assert_eq!(render_int(305), "305");
    assert_eq!(render_int(i128::MIN), "-170141183460469231731687303715884105728");
    assert_eq!(render_int(i128::MAX), "170141183460469231731687303715884105727");
}

#[test]
fn dot_product_is_exact_where_the_sum_fits() {
    // each product leaves the range of i32, their sum does not
    let a = Vector::new(vec![i32::MAX, i32::MAX, 3]);
    let b = Vector::new(vec![2, -2, 5]);
    assert_eq!(dot_product(a, b), Ok(15));
    let c = Vector::new(vec![u64::MAX, 1]);
    let d = Vector::new(vec![0, 7]);
    assert_eq!(dot_product(c, d), Ok(7));
}
