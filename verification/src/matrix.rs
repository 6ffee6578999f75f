//! Dense row-major matrices.

use vstd::prelude::*;
use crate::scalar::Scalar;
use crate::vector::Vector;

verus! {

/// A dense matrix: `row * col` scalars stored row by row.
pub struct Matrix<T> {
    data: Vec<T>,
    row: usize,
    col: usize,
}

impl<T> View for Matrix<T> {
    type V = Seq<T>;

    /// The cells in row-major order.
    closed spec fn view(&self) -> Seq<T> {
        self.data@
    }
}

/// The offset of cell `(i, j)` in a row-major buffer with `cols` columns.
pub open spec fn flat_index(i: int, j: int, cols: int) -> int {
    i * cols + j
}

/// A cell inside a `rows` by `cols` shape lies inside the buffer.
pub proof fn lemma_flat_index_in_range(i: int, j: int, rows: int, cols: int)
    requires
        0 <= i < rows,
        0 <= j < cols,
    ensures
        0 <= flat_index(i, j, cols) < rows * cols,
        i * cols + cols <= rows * cols,
        0 <= i * cols,
{
    assert(0 <= i * cols && i * cols + cols <= rows * cols) by (nonlinear_arith)
        requires
            0 <= i < rows,
            0 < cols,
    ;
}

/// Every offset below `rows * cols` belongs to exactly one cell of the shape.
pub proof fn lemma_flat_index_split(idx: int, rows: int, cols: int)
    requires
        0 <= idx < rows * cols,
        0 <= rows,
        0 <= cols,
    ensures
        cols > 0,
        0 <= idx / cols < rows,
        0 <= idx % cols < cols,
        flat_index(idx / cols, idx % cols, cols) == idx,
{
    assert(cols > 0) by (nonlinear_arith)
        requires
            0 <= idx < rows * cols,
            0 <= rows,
            0 <= cols,
    ;
    vstd::arithmetic::div_mod::lemma_fundamental_div_mod(idx, cols);
    vstd::arithmetic::div_mod::lemma_mod_bound(idx, cols);
    let q = idx / cols;
    assert(cols * q == q * cols) by (nonlinear_arith);
    assert(0 <= q < rows) by (nonlinear_arith)
        requires
            0 <= idx < rows * cols,
            idx == q * cols + idx % cols,
            0 <= idx % cols < cols,
            0 < cols,
    ;
}

/// The cell of an offset is the only one that maps to it.
pub proof fn lemma_flat_index_unique(i: int, j: int, cols: int)
    requires
        0 <= j < cols,
    ensures
        flat_index(i, j, cols) / cols == i,
        flat_index(i, j, cols) % cols == j,
{
    vstd::arithmetic::div_mod::lemma_fundamental_div_mod_converse(i * cols + j, cols, i, j);
}

impl<T> Matrix<T> {
    #[verifier::type_invariant]
    spec fn well_formed(self) -> bool {
        self.data@.len() == self.row * self.col
    }

    /// The number of rows.
    pub closed spec fn rows(&self) -> nat {
        self.row as nat
    }

    /// The number of columns.
    pub closed spec fn cols(&self) -> nat {
        self.col as nat
    }

    /// The cell in row `i` and column `j`.
    pub open spec fn at(&self, i: int, j: int) -> T {
        self@[flat_index(i, j, self.cols() as int)]
    }

    /// Row `i`, left to right.
    pub open spec fn row_seq(&self, i: int) -> Seq<T> {
        Seq::new(self.cols(), |k: int| self.at(i, k))
    }

    /// Column `j`, top to bottom.
    pub open spec fn col_seq(&self, j: int) -> Seq<T> {
        Seq::new(self.rows(), |k: int| self.at(k, j))
    }

    /// Builds a matrix of `row` rows and `col` columns from its cells in
    /// row-major order.
    pub fn new(data: Vec<T>, row: usize, col: usize) -> (m: Self)
        requires
            data@.len() == row * col,
        ensures
            m@ == data@,
            m.rows() == row,
            m.cols() == col,
    {
        Self { data, row, col }
    }

    /// The number of rows.
    pub fn row(&self) -> (n: usize)
        ensures
            n == self.rows(),
    {
        self.row
    }

    /// The number of columns.
    pub fn col(&self) -> (n: usize)
        ensures
            n == self.cols(),
    {
        self.col
    }

    /// The cells in row-major order.
    pub fn data(&self) -> (cells: &Vec<T>)
        ensures
            cells@ == self@,
            cells@.len() == self.rows() * self.cols(),
    {
        proof {
            use_type_invariant(self);
        }
        &self.data
    }
}

impl<T: Copy> Matrix<T> {
    /// An owned copy of row `i`: the contiguous run of `cols` cells that
    /// starts at offset `i * cols`.
    pub fn row_vector(&self, i: usize) -> (v: Vector<T>)
        requires
            i < self.rows(),
        ensures
            v@ == self.row_seq(i as int),
    {
        proof {
            use_type_invariant(self);
            lemma_flat_index_in_range(i as int, 0, self.row as int, self.col as int + 1);
        }
        let mut out: Vec<T> = Vec::new();
        let mut k: usize = 0;
        while k < self.col
            invariant
                k <= self.col,
                i < self.row,
                self.data.len() == self.row * self.col,
                out@.len() == k,
                forall|t: int| 0 <= t < k ==> out@[t] == self.at(i as int, t),
            decreases self.col - k,
        {
            proof {
                lemma_flat_index_in_range(i as int, k as int, self.row as int, self.col as int);
            }
            out.push(self.data[i * self.col + k]);
            k = k + 1;
        }
        assert(out@ =~= self.row_seq(i as int));
        Vector::new(out)
    }

    /// An owned copy of column `j`: every `cols`-th cell starting at offset
    /// `j`, gathered into a fresh buffer.
    pub fn column_vector(&self, j: usize) -> (v: Vector<T>)
        requires
            j < self.cols(),
        ensures
            v@ == self.col_seq(j as int),
    {
        proof {
            use_type_invariant(self);
        }
        let mut out: Vec<T> = Vec::new();
        let mut k: usize = 0;
        while k < self.row
            invariant
                k <= self.row,
                j < self.col,
                self.data.len() == self.row * self.col,
                out@.len() == k,
                forall|t: int| 0 <= t < k ==> out@[t] == self.at(t, j as int),
            decreases self.row - k,
        {
            proof {
                lemma_flat_index_in_range(k as int, j as int, self.row as int, self.col as int);
            }
            out.push(self.data[k * self.col + j]);
            k = k + 1;
        }
        assert(out@ =~= self.col_seq(j as int));
        Vector::new(out)
    }
}

} // verus!
