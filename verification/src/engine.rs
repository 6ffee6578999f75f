//! The matrix product as one dot-product task per output cell: building the
//! tasks, running one, and putting the replies together.

use vstd::prelude::*;
use crate::error::Error;
use crate::matrix::{
    flat_index, lemma_flat_index_in_range, lemma_flat_index_split, lemma_flat_index_unique, Matrix,
};
use crate::scalar::Scalar;
use crate::vector::{dot, dot_prefix, dot_product, Vector};

verus! {

/// The number of workers that tasks are routed to.
pub const NUM_THREADS: usize = 4;

/// One task: the row and the column whose dot product is the output cell at
/// offset `idx`.
pub struct MsgInput<T> {
    pub idx: usize,
    pub row: Vector<T>,
    pub col: Vector<T>,
}

/// The reply to one task: the value of the output cell at offset `idx`.
pub struct MsgOutput<T> {
    pub idx: usize,
    pub value: T,
}

impl<T> MsgInput<T> {
    /// A task for the output cell at offset `idx`.
    pub fn new(idx: usize, row: Vector<T>, col: Vector<T>) -> (task: Self)
        ensures
            task.idx == idx,
            task.row == row,
            task.col == col,
    {
        Self { idx, row, col }
    }

    /// The worker that the task goes to: tasks go round the workers in the
    /// order of their offsets.
    pub fn worker(&self) -> (w: usize)
        ensures
            w == self.idx % NUM_THREADS,
            w < NUM_THREADS,
    {
        self.idx % NUM_THREADS
    }
}

impl<T: Scalar> MsgInput<T> {
    /// What a worker does with a task: the dot product of its row and its
    /// column, tagged with the task's offset.
    pub fn run(self) -> (r: Result<MsgOutput<T>, Error>)
        ensures
            self.row@.len() == self.col@.len() ==> (r matches Ok(reply) && reply.idx == self.idx
                && reply.value == dot(self.row@, self.col@)),
            self.row@.len() != self.col@.len() ==> (r matches Err(e) && e
                == Error::LengthMismatch),
    {
        let idx = self.idx;
        match dot_product(self.row, self.col) {
            Ok(value) => Ok(MsgOutput { idx, value }),
            Err(e) => Err(e),
        }
    }
}

/// The sum over `k < n` of `a[i, k] * b[k, j]`, added up from the additive
/// identity in the order of `k`.
pub open spec fn cell_sum<T: Scalar>(a: Matrix<T>, b: Matrix<T>, i: int, j: int, n: nat) -> T
    decreases n,
{
    if n == 0 {
        T::zero_value()
    } else {
        cell_sum(a, b, i, j, (n - 1) as nat).sum(a.at(i, n - 1).product(b.at(n - 1, j)))
    }
}

/// `c` is the product of `a` and `b`: it has the rows of `a`, the columns of
/// `b`, and each of its cells is the sum of products of the row of `a` and
/// the column of `b` that meet there.
pub open spec fn is_product<T: Scalar>(a: Matrix<T>, b: Matrix<T>, c: Matrix<T>) -> bool {
    &&& c.rows() == a.rows()
    &&& c.cols() == b.cols()
    &&& c@.len() == a.rows() * b.cols()
    &&& forall|i: int, j: int|
        0 <= i < a.rows() && 0 <= j < b.cols() ==> #[trigger] c.at(i, j) == cell_sum(
            a,
            b,
            i,
            j,
            a.cols(),
        )
}

/// The dot product of a row of `a` and a column of `b`, taken over their
/// first `n` elements, is the sum of products of the cells themselves.
pub proof fn lemma_dot_of_row_and_column<T: Scalar>(
    a: Matrix<T>,
    b: Matrix<T>,
    i: int,
    j: int,
    n: nat,
)
    requires
        n <= a.cols(),
        n <= b.rows(),
    ensures
        dot_prefix(a.row_seq(i), b.col_seq(j), n) == cell_sum(a, b, i, j, n),
    decreases n,
{
    if n > 0 {
        lemma_dot_of_row_and_column(a, b, i, j, (n - 1) as nat);
    }
}

/// The task for the output cell at offset `idx`: row `idx / cols` of `a` and
/// column `idx % cols` of `b`, where `cols` is the column count of `b`.
pub fn task_at<T: Scalar>(a: &Matrix<T>, b: &Matrix<T>, idx: usize) -> (task: MsgInput<T>)
    requires
        idx < a.rows() * b.cols(),
    ensures
        task.idx == idx,
        b.cols() > 0,
        task.idx == flat_index(idx as int / b.cols() as int, idx as int % b.cols() as int, b.cols() as int),
        task.row@ == a.row_seq(idx as int / b.cols() as int),
        task.col@ == b.col_seq(idx as int % b.cols() as int),
{
    proof {
        lemma_flat_index_split(idx as int, a.rows() as int, b.cols() as int);
    }
    let i = idx / b.col();
    let j = idx % b.col();
    MsgInput::new(idx, a.row_vector(i), b.column_vector(j))
}

/// What handing a task to its worker means for the product: a task that
/// could not be handed over fails the whole product with
/// `TaskRoutingFailure`, so that no cell is left without its value.
pub fn delivery(handed_over: bool) -> (r: Result<(), Error>)
    ensures
        handed_over ==> r is Ok,
        !handed_over ==> (r matches Err(e) && e == Error::TaskRoutingFailure),
{
    if handed_over {
        Ok(())
    } else {
        Err(Error::TaskRoutingFailure)
    }
}

/// The output buffer while replies come in: the cells received so far, and
/// which cells they are.
pub struct Assembly<T> {
    cells: Vec<T>,
    filled: Vec<bool>,
    row: usize,
    col: usize,
}

impl<T> Assembly<T> {
    #[verifier::type_invariant]
    spec fn well_formed(self) -> bool {
        &&& self.cells@.len() == self.row * self.col
        &&& self.filled@.len() == self.cells@.len()
    }

    /// The number of rows of the matrix being put together.
    pub closed spec fn rows(&self) -> nat {
        self.row as nat
    }

    /// The number of columns of the matrix being put together.
    pub closed spec fn cols(&self) -> nat {
        self.col as nat
    }

    /// The output cells in row-major order; a cell that has no reply yet
    /// holds the additive identity.
    pub closed spec fn cells(&self) -> Seq<T> {
        self.cells@
    }

    /// For each output cell, whether its reply has come.
    pub closed spec fn filled(&self) -> Seq<bool> {
        self.filled@
    }

    /// A reply is accepted when it is there and names a cell that has had
    /// no reply yet.
    pub open spec fn accepts(&self, reply: Option<MsgOutput<T>>) -> bool {
        reply matches Some(m) && m.idx < self.filled().len() && !self.filled()[m.idx as int]
    }

    /// Every cell has had its reply.
    pub open spec fn complete(&self) -> bool {
        forall|k: int| 0 <= k < self.filled().len() ==> self.filled()[k]
    }

    /// The number of cells of the matrix being put together: the buffer
    /// holds one cell, and one mark, for each.
    pub fn len(&self) -> (n: usize)
        ensures
            n == self.rows() * self.cols(),
            self.cells().len() == n,
            self.filled().len() == n,
    {
        proof {
            use_type_invariant(self);
        }
        self.cells.len()
    }

    /// Takes in the outcome of waiting for one reply. An accepted reply is
    /// written to the cell it names, whatever the order in which replies
    /// come. A reply that is missing, or names no cell that still waits for
    /// one, fails the whole product with `ReplyLost`.
    pub fn record(self, reply: Option<MsgOutput<T>>) -> (r: Result<Self, Error>)
        ensures
            self.accepts(reply) ==> (r matches Ok(next) && next.rows() == self.rows()
                && next.cols() == self.cols() && next.cells() == self.cells().update(
                reply->0.idx as int,
                reply->0.value,
            ) && next.filled() == self.filled().update(reply->0.idx as int, true)),
            !self.accepts(reply) ==> (r matches Err(e) && e == Error::ReplyLost),
    {
        proof {
            use_type_invariant(&self);
        }
        match reply {
            Some(m) => {
                if m.idx < self.filled.len() && !self.filled[m.idx] {
                    let Assembly { cells, filled, row, col } = self;
                    let mut cells = cells;
                    let mut filled = filled;
                    cells.set(m.idx, m.value);
                    filled.set(m.idx, true);
                    Ok(Assembly { cells, filled, row, col })
                } else {
                    Err(Error::ReplyLost)
                }
            },
            None => Err(Error::ReplyLost),
        }
    }

    /// Hands out the matrix once every cell has had its reply; until then
    /// the product fails with `ReplyLost`.
    pub fn finish(self) -> (r: Result<Matrix<T>, Error>)
        ensures
            self.complete() ==> (r matches Ok(m) && m@ == self.cells() && m.rows()
                == self.rows() && m.cols() == self.cols()),
            !self.complete() ==> (r matches Err(e) && e == Error::ReplyLost),
    {
        proof {
            use_type_invariant(&self);
        }
        let n = self.filled.len();
        let mut k: usize = 0;
        while k < n
            invariant
                k <= n,
                n == self.filled@.len(),
                forall|t: int| 0 <= t < k ==> self.filled@[t],
            decreases n - k,
        {
            if !self.filled[k] {
                assert(!self.filled()[k as int]);
                return Err(Error::ReplyLost);
            }
            k = k + 1;
        }
        Ok(Matrix::new(self.cells, self.row, self.col))
    }
}

impl<T: Scalar> Assembly<T> {
    /// An output buffer of `row` rows and `col` columns in which no cell has
    /// had its reply.
    pub fn new(row: usize, col: usize) -> (buffer: Self)
        requires
            row * col <= usize::MAX,
        ensures
            buffer.rows() == row,
            buffer.cols() == col,
            buffer.cells() == Seq::new((row * col) as nat, |k: int| T::zero_value()),
            buffer.filled() == Seq::new((row * col) as nat, |k: int| false),
    {
        let n = row * col;
        let mut cells: Vec<T> = Vec::new();
        let mut filled: Vec<bool> = Vec::new();
        let mut k: usize = 0;
        while k < n
            invariant
                k <= n,
                cells@.len() == k,
                filled@.len() == k,
                forall|t: int| 0 <= t < k ==> cells@[t] == T::zero_value(),
                forall|t: int| 0 <= t < k ==> !filled@[t],
            decreases n - k,
        {
            cells.push(T::zero());
            filled.push(false);
            k = k + 1;
        }
        assert(cells@ =~= Seq::new((row * col) as nat, |k: int| T::zero_value()));
        assert(filled@ =~= Seq::new((row * col) as nat, |k: int| false));
        Assembly { cells, filled, row, col }
    }
}

/// The output cells after the replies in `replies` have been written, one
/// after the other, each to the cell it names.
pub open spec fn assembled<T>(cells: Seq<T>, replies: Seq<MsgOutput<T>>) -> Seq<T>
    decreases replies.len(),
{
    if replies.len() == 0 {
        cells
    } else {
        assembled(cells, replies.drop_last()).update(
            replies.last().idx as int,
            replies.last().value,
        )
    }
}

/// Each reply names a cell of a buffer of `len` cells, and no two replies
/// name the same cell.
pub open spec fn replies_fit<T>(len: nat, replies: Seq<MsgOutput<T>>) -> bool {
    &&& forall|t: int| 0 <= t < replies.len() ==> (#[trigger] replies[t]).idx < len
    &&& forall|s: int, t: int|
        0 <= s < replies.len() && 0 <= t < replies.len() && s != t ==> (#[trigger] replies[s]).idx
            != (#[trigger] replies[t]).idx
}

/// After replies that fit have been written, each cell that a reply names
/// holds that reply's value, and every other cell is as it was.
pub proof fn lemma_assembled_by_index<T>(cells: Seq<T>, replies: Seq<MsgOutput<T>>)
    requires
        replies_fit(cells.len(), replies),
    ensures
        assembled(cells, replies).len() == cells.len(),
        forall|t: int|
            0 <= t < replies.len() ==> assembled(cells, replies)[(#[trigger] replies[t]).idx as int]
                == replies[t].value,
        forall|k: int|
            0 <= k < cells.len() && (forall|t: int|
                0 <= t < replies.len() ==> (#[trigger] replies[t]).idx != k) ==> #[trigger] assembled(
                cells,
                replies,
            )[k] == cells[k],
    decreases replies.len(),
{
    if replies.len() > 0 {
        let front = replies.drop_last();
        let last = replies.last();
        assert forall|t: int| 0 <= t < front.len() implies (#[trigger] front[t]).idx
            < cells.len() by {
            assert(front[t] == replies[t]);
        }
        assert forall|s: int, t: int|
            0 <= s < front.len() && 0 <= t < front.len() && s != t implies (#[trigger] front[s]).idx
            != (#[trigger] front[t]).idx by {
            assert(front[s] == replies[s]);
            assert(front[t] == replies[t]);
        }
        lemma_assembled_by_index(cells, front);
        assert(last == replies[replies.len() - 1]);
        assert forall|t: int| 0 <= t < replies.len() implies assembled(cells, replies)[(
        #[trigger] replies[t]).idx as int] == replies[t].value by {
            if t < replies.len() - 1 {
                assert(front[t] == replies[t]);
                assert(replies[t].idx != replies[replies.len() - 1].idx);
            }
        }
        assert forall|k: int|
            0 <= k < cells.len() && (forall|t: int|
                0 <= t < replies.len() ==> (#[trigger] replies[t]).idx != k) implies #[trigger] assembled(
            cells,
            replies,
        )[k] == cells[k] by {
            assert(replies[replies.len() - 1].idx != k);
            assert forall|t: int| 0 <= t < front.len() implies (#[trigger] front[t]).idx != k by {
                assert(front[t] == replies[t]);
            }
        }
    }
}

/// The order in which replies come does not matter: two runs of replies that
/// fit and hold the same replies leave the same cells behind.
pub proof fn lemma_assembled_in_any_order<T>(
    cells: Seq<T>,
    first: Seq<MsgOutput<T>>,
    second: Seq<MsgOutput<T>>,
)
    requires
        replies_fit(cells.len(), first),
        replies_fit(cells.len(), second),
        forall|t: int| 0 <= t < first.len() ==> second.contains(#[trigger] first[t]),
        forall|t: int| 0 <= t < second.len() ==> first.contains(#[trigger] second[t]),
    ensures
        assembled(cells, first) == assembled(cells, second),
{
    lemma_assembled_by_index(cells, first);
    lemma_assembled_by_index(cells, second);
    let one = assembled(cells, first);
    let two = assembled(cells, second);
    assert forall|k: int| 0 <= k < cells.len() implies one[k] == two[k] by {
        if exists|t: int| 0 <= t < first.len() && (#[trigger] first[t]).idx == k {
            let t = choose|t: int| 0 <= t < first.len() && (#[trigger] first[t]).idx == k;
            assert(second.contains(first[t]));
            let u = choose|u: int| 0 <= u < second.len() && second[u] == first[t];
            assert(second[u].idx == k);
            assert(one[first[t].idx as int] == first[t].value);
            assert(two[second[u].idx as int] == second[u].value);
        } else {
            assert forall|u: int| 0 <= u < second.len() implies (#[trigger] second[u]).idx
                != k by {
                assert(first.contains(second[u]));
                let t = choose|t: int| 0 <= t < first.len() && first[t] == second[u];
                assert(first[t].idx != k);
            }
            assert(one[k] == cells[k]);
            assert(two[k] == cells[k]);
        }
    }
    assert(one =~= two);
}

/// Two matrices that are both the product of `a` and `b` hold the same cells
/// in the same shape: the product depends on `a` and `b` alone.
pub proof fn lemma_product_is_unique<T: Scalar>(
    a: Matrix<T>,
    b: Matrix<T>,
    c: Matrix<T>,
    d: Matrix<T>,
)
    requires
        is_product(a, b, c),
        is_product(a, b, d),
    ensures
        c.rows() == d.rows(),
        c.cols() == d.cols(),
        c@ == d@,
{
    assert forall|k: int| 0 <= k < c@.len() implies c@[k] == d@[k] by {
        lemma_flat_index_split(k, a.rows() as int, b.cols() as int);
        let i = k / b.cols() as int;
        let j = k % b.cols() as int;
        assert(c.at(i, j) == cell_sum(a, b, i, j, a.cols()));
        assert(d.at(i, j) == cell_sum(a, b, i, j, a.cols()));
    }
    assert(c@ =~= d@);
}

/// The product of `a` and `b`, or `ShapeMismatch` when the column count of
/// `a` is not the row count of `b`. One task is made for each output cell, in
/// the order of their offsets; each is run, and its reply is written to the
/// cell it names.
pub fn multiply<T: Scalar>(a: &Matrix<T>, b: &Matrix<T>) -> (r: Result<Matrix<T>, Error>)
    requires
        a.cols() == b.rows() ==> a.rows() * b.cols() <= usize::MAX,
    ensures
        a.cols() == b.rows() ==> (r matches Ok(c) && is_product(*a, *b, c)),
        a.cols() != b.rows() ==> (r matches Err(e) && e == Error::ShapeMismatch),
{
    if a.col() != b.row() {
        return Err(Error::ShapeMismatch);
    }
    let total = a.row() * b.col();
    let mut buffer: Assembly<T> = Assembly::new(a.row(), b.col());
    let mut idx: usize = 0;
    while idx < total
        invariant
            idx <= total,
            total == a.rows() * b.cols(),
            a.cols() == b.rows(),
            buffer.rows() == a.rows(),
            buffer.cols() == b.cols(),
            buffer.cells().len() == total,
            buffer.filled().len() == total,
            forall|k: int| 0 <= k < total ==> buffer.filled()[k] == (k < idx),
            forall|k: int|
                0 <= k < idx ==> buffer.cells()[k] == cell_sum(
                    *a,
                    *b,
                    k / b.cols() as int,
                    k % b.cols() as int,
                    a.cols(),
                ),
        decreases total - idx,
    {
        let task = task_at(a, b, idx);
        proof {
            lemma_dot_of_row_and_column(
                *a,
                *b,
                idx as int / b.cols() as int,
                idx as int % b.cols() as int,
                a.cols(),
            );
        }
        let reply = match task.run() {
            Ok(out) => Some(out),
            Err(_) => None,
        };
        match buffer.record(reply) {
            Ok(next) => {
                buffer = next;
            },
            Err(e) => {
                return Err(e);
            },
        }
        idx = idx + 1;
    }
    match buffer.finish() {
        Ok(c) => {
            proof {
                assert forall|i: int, j: int| 0 <= i < a.rows() && 0 <= j < b.cols() implies #[trigger] c.at(i, j)
                    == cell_sum(*a, *b, i, j, a.cols()) by {
                    lemma_flat_index_in_range(i, j, a.rows() as int, b.cols() as int);
                    lemma_flat_index_unique(i, j, b.cols() as int);
                }
            }
            Ok(c)
        },
        Err(e) => Err(e),
    }
}

/// `a * b` is the product of `a` and `b` for matrices whose shapes fit. It is
/// a convenience only: where `multiply` would report an error, the operator
/// may not be used, and outside verified code it stops the program there.
impl<T: Scalar> core::ops::Mul for Matrix<T> {
    type Output = Matrix<T>;

    fn mul(self, other: Matrix<T>) -> (c: Matrix<T>)
        ensures
            is_product(self, other, c),
    {
        match multiply(&self, &other) {
            Ok(c) => c,
            Err(_) => vstd::pervasive::unreached(),
        }
    }
}

/// When `*` may be used on two matrices. What it returns is stated by the
/// operator itself, as a relation between the cells of its operands and of its
/// result, and not by `mul_spec`.
impl<T: Scalar> vstd::std_specs::ops::MulSpecImpl for Matrix<T> {
    open spec fn obeys_mul_spec() -> bool {
        false
    }

    open spec fn mul_req(self, other: Matrix<T>) -> bool {
        self.cols() == other.rows() && self.rows() * other.cols() <= usize::MAX
    }

    open spec fn mul_spec(self, other: Matrix<T>) -> Matrix<T> {
        self
    }
}

} // verus!
