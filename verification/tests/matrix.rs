use concurrency::{multiply, Error, Matrix};

#[test]
fn test_matrix_multiply() {
    let a = Matrix::new(vec![1, 2, 3, 4, 5, 6], 2, 3);
    let b = Matrix::new(vec![1, 2, 3, 4, 5, 6], 3, 2);
    let c = a * b;
    assert_eq!(c.row(), 2);
    assert_eq!(c.col(), 2);
    assert_eq!(c.data(), &[22, 28, 49, 64]);
    assert_eq!(c.render_debug(), "Matrix(row=2, 2, {22 28, 49 64})");
}

#[test]
fn test_matrix_display() {
    let a = Matrix::new(vec![1, 2, 3, 4], 2, 2);
    let b = Matrix::new(vec![1, 2, 3, 4], 2, 2);
    let c = a * b;
    assert_eq!(c.row(), 2);
    assert_eq!(c.col(), 2);
    assert_eq!(c.data(), &[7, 10, 15, 22]);
    assert_eq!(c.render(), "{7 10, 15 22}");
}

#[test]
fn test_a_can_not_multiply_b() {
    let a = Matrix::new(vec![1, 2, 3, 4, 5, 6], 2, 3);
    let b = Matrix::new(vec![1, 2, 3, 4], 2, 2);
    let c = multiply(&a, &b);
    assert!(c.is_err())
}

#[test]
#[should_panic]
fn test_a_can_not_multiply_b_panic() {
    let a = Matrix::new(vec![1, 2, 3, 4, 5, 6], 2, 3);
    let b = Matrix::new(vec![1, 2, 3, 4], 2, 2);
    let _c = a * b;
}

#[test]
fn mismatched_shapes_give_shape_mismatch() {
    let a = Matrix::new(vec![1, 2, 3, 4, 5, 6], 2, 3);
    let b = Matrix::new(vec![1, 2, 3, 4], 2, 2);
    assert!(matches!(multiply(&a, &b), Err(Error::ShapeMismatch)));
    // the operands are as they were
    assert_eq!(a.data(), &[1, 2, 3, 4, 5, 6]);
    assert_eq!(b.data(), &[1, 2, 3, 4]);
}

#[test]
fn product_has_rows_of_left_and_columns_of_right() {
    let a = Matrix::new(vec![1i64; 12], 4, 3);
    let b = Matrix::new(vec![2i64; 15], 3, 5);
    let c = multiply(&a, &b).expect("shapes fit");
    assert_eq!(c.row(), 4);
    assert_eq!(c.col(), 5);
    assert_eq!(c.data().len(), 20);
    assert!(c.data().iter().all(|&x| x == 6));
}

#[test]
fn product_with_no_inner_dimension_is_all_zero() {
    let a: Matrix<i32> = Matrix::new(vec![], 2, 0);
    let b: Matrix<i32> = Matrix::new(vec![], 0, 3);
    let c = multiply(&a, &b).expect("shapes fit");
    assert_eq!(c.row(), 2);
    assert_eq!(c.col(), 3);
    assert_eq!(c.data(), &[0, 0, 0, 0, 0, 0]);
    assert_eq!(c.render(), "{0 0 0, 0 0 0}");
}

#[test]
fn product_without_rows_is_empty() {
    let a: Matrix<u32> = Matrix::new(vec![], 0, 2);
    let b: Matrix<u32> = Matrix::new(vec![1, 2, 3, 4], 2, 2);
    let c = multiply(&a, &b).expect("shapes fit");
    assert_eq!(c.row(), 0);
    assert_eq!(c.col(), 2);
    assert!(c.data().is_empty());
    assert_eq!(c.render(), "{}");
    assert_eq!(c.render_debug(), "Matrix(row=0, 2, {})");
}

#[test]
fn repeated_products_are_identical() {
    let a = Matrix::new(vec![3i64, -1, 4, 1, -5, 9, 2, 6, -5], 3, 3);
    let b = Matrix::new(vec![-3i64, 5, 8, 9, -7, 9, 3, 2, -3], 3, 3);
    let first = multiply(&a, &b).expect("shapes fit");
    for _ in 0..10 {
        let again = multiply(&a, &b).expect("shapes fit");
        assert_eq!(first.data(), again.data());
        assert_eq!(first.row(), again.row());
        assert_eq!(first.col(), again.col());
    }
    assert_eq!(first.data(), &[-6, 30, 3, -21, 58, -64, 33, -42, 85]);
}

fn reference(a: &[i64], b: &[i64], n: usize, m: usize, p: usize) -> Vec<i64> {
    let mut out = vec![0i64; n * p];
    for i in 0..n {
        for j in 0..p {
            let mut sum = 0i64;
            for k in 0..m {
                sum = sum.wrapping_add(a[i * m + k].wrapping_mul(b[k * p + j]));
            }
            out[i * p + j] = sum;
        }
    }
    out
}

fn pseudo_random(seed: &mut u64) -> i64 {
    *seed = seed.wrapping_mul(6364136223846793005).wrapping_add(1442695040888963407);
    ((*seed >> 33) as i64) - (1 << 30)
}

#[test]
fn large_product_matches_reference() {
    let n = 200;
    let mut seed = 2024u64;
    let a: Vec<i64> = (0..n * n).map(|_| pseudo_random(&mut seed)).collect();
    let b: Vec<i64> = (0..n * n).map(|_| pseudo_random(&mut seed)).collect();
    let expected = reference(&a, &b, n, n, n);
    let c = multiply(&Matrix::new(a, n, n), &Matrix::new(b, n, n)).expect("shapes fit");
    assert_eq!(c.row(), n);
    assert_eq!(c.col(), n);
    assert_eq!(c.data(), &expected);
}

#[test]
fn rectangular_product_matches_reference() {
    let (n, m, p) = (7, 13, 5);
    let mut seed = 99u64;
    let a: Vec<i64> = (0..n * m).map(|_| pseudo_random(&mut seed)).collect();
    let b: Vec<i64> = (0..m * p).map(|_| pseudo_random(&mut seed)).collect();
    let expected = reference(&a, &b, n, m, p);
    let c = multiply(&Matrix::new(a, n, m), &Matrix::new(b, m, p)).expect("shapes fit");
    assert_eq!(c.data(), &expected);
}

#[test]
fn sums_and_products_wrap_round() {
    let a = Matrix::new(vec![i32::MAX, 1], 1, 2);
    let b = Matrix::new(vec![2, 1], 2, 1);
    let c = multiply(&a, &b).expect("shapes fit");
    assert_eq!(c.data(), &[i32::MAX.wrapping_mul(2).wrapping_add(1)]);
    assert_eq!(c.data(), &[-1]);
}

#[test]
fn rows_and_columns_are_copied_out() {
    let m = Matrix::new(vec![1, 2, 3, 4, 5, 6], 2, 3);
    assert_eq!(m.row_vector(0).as_vec(), &vec![1, 2, 3]);
    assert_eq!(m.row_vector(1).as_vec(), &vec![4, 5, 6]);
    assert_eq!(m.column_vector(0).as_vec(), &vec![1, 4]);
    assert_eq!(m.column_vector(2).as_vec(), &vec![3, 6]);
}

#[test]
fn render_of_single_row_and_single_column() {
    let row = Matrix::new(vec![-1i64, 0, 25], 1, 3);
    assert_eq!(row.render(), "{-1 0 25}");
    let col = Matrix::new(vec![-1i64, 0, 25], 3, 1);
    assert_eq!(col.render(), "{-1, 0, 25}");
    assert_eq!(col.render_debug(), "Matrix(row=3, 1, {-1, 0, 25})");
}

#[test]
fn render_of_extreme_values() {
    let m = Matrix::new(vec![i64::MIN, i64::MAX], 1, 2);
    assert_eq!(m.render(), "{-9223372036854775808 9223372036854775807}");
    let u = Matrix::new(vec![u64::MAX, 0], 2, 1);
    assert_eq!(u.render(), "{18446744073709551615, 0}");
    let w = Matrix::new(vec![i32::MIN, 10, 100, -7], 2, 2);
    assert_eq!(w.render(), "{-2147483648 10, 100 -7}");
}
