//! The text form of a matrix.

use vstd::prelude::*;
use crate::matrix::{lemma_flat_index_in_range, Matrix};
use crate::scalar::Scalar;
use crate::text::{int_text, render_nat};

verus! {

/// The first `n` cells of row `i`, each in its text form, with one space
/// between neighbours.
pub open spec fn cells_text<T: Scalar>(m: Matrix<T>, i: int, n: nat) -> Seq<char>
    decreases n,
{
    if n == 0 {
        Seq::empty()
    } else if n == 1 {
        m.at(i, 0).text()
    } else {
        cells_text(m, i, (n - 1) as nat) + seq![' '] + m.at(i, n - 1).text()
    }
}

/// The first `n` rows, each as `cells_text` gives it, with a comma and a
/// space between neighbours.
pub open spec fn rows_text<T: Scalar>(m: Matrix<T>, n: nat) -> Seq<char>
    decreases n,
{
    if n == 0 {
        Seq::empty()
    } else if n == 1 {
        cells_text(m, 0, m.cols())
    } else {
        rows_text(m, (n - 1) as nat) + seq![',', ' '] + cells_text(m, n - 1, m.cols())
    }
}

/// The rows of a matrix between braces.
pub open spec fn matrix_text<T: Scalar>(m: Matrix<T>) -> Seq<char> {
    seq!['{'] + rows_text(m, m.rows()) + seq!['}']
}

/// The text of a matrix behind its row and column counts.
pub open spec fn matrix_debug_text<T: Scalar>(m: Matrix<T>) -> Seq<char> {
    seq!['M', 'a', 't', 'r', 'i', 'x', '(', 'r', 'o', 'w', '='] + int_text(m.rows() as int)
        + seq![',', ' '] + int_text(m.cols() as int) + seq![',', ' '] + matrix_text(m) + seq![')']
}

impl<T: Scalar> Matrix<T> {
    /// The matrix as text: its rows between braces, a comma and a space
    /// between rows, one space between the cells of a row.
    pub fn render(&self) -> (s: String)
        ensures
            s@ == matrix_text(*self),
    {
        proof {
            reveal_strlit("{");
            reveal_strlit("}");
        }
        let cells = self.data();
        let rows = self.row();
        let cols = self.col();
        let mut s = String::from_str("{");
        let mut i: usize = 0;
        while i < rows
            invariant
                i <= rows,
                rows == self.rows(),
                cols == self.cols(),
                cells@ == self@,
                cells.len() == rows * cols,
                s@ == seq!['{'] + rows_text(*self, i as nat),
            decreases rows - i,
        {
            proof {
                reveal_strlit(", ");
            }
            if i != 0 {
                s.append(", ");
            }
            let ghost before = s@;
            let mut j: usize = 0;
            while j < cols
                invariant
                    j <= cols,
                    i < rows,
                    rows == self.rows(),
                    cols == self.cols(),
                    cells@ == self@,
                    cells.len() == rows * cols,
                    s@ == before + cells_text(*self, i as int, j as nat),
                decreases cols - j,
            {
                if j != 0 {
                    s.append(" ");
                }
                proof {
                    reveal_strlit(" ");
                    lemma_flat_index_in_range(i as int, j as int, rows as int, cols as int);
                }
                let cell = cells[i * cols + j].render();
                s.append(cell.as_str());
                j = j + 1;
                assert(s@ =~= before + cells_text(*self, i as int, j as nat));
            }
            proof {
                let done = rows_text(*self, i as nat);
                let this_row = cells_text(*self, i as int, cols as nat);
                if i == 0 {
                    assert(before =~= seq!['{']);
                    assert(rows_text(*self, 1) == this_row);
                } else {
                    assert(before =~= seq!['{'] + done + seq![',', ' ']);
                    assert(rows_text(*self, (i + 1) as nat) == done + seq![',', ' '] + this_row);
                }
                assert(s@ =~= seq!['{'] + rows_text(*self, (i + 1) as nat));
            }
            i = i + 1;
        }
        s.append("}");
        s
    }

    /// The text of the matrix behind its row and column counts.
    pub fn render_debug(&self) -> (s: String)
        ensures
            s@ == matrix_debug_text(*self),
    {
        proof {
            reveal_strlit("Matrix(row=");
            reveal_strlit(", ");
            reveal_strlit(")");
        }
        let rows = render_nat(self.row() as u128);
        let cols = render_nat(self.col() as u128);
        let body = self.render();
        let mut s = String::from_str("Matrix(row=");
        s.append(rows.as_str());
        s.append(", ");
        s.append(cols.as_str());
        s.append(", ");
        s.append(body.as_str());
        s.append(")");
        assert(s@ =~= matrix_debug_text(*self));
        s
    }
}

} // verus!
