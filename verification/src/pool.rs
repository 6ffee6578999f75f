//! The dispatcher's side of a pool of workers: handing every task to the
//! queue of its worker, and waiting for every reply.

use vstd::prelude::*;
use crate::engine::{delivery, is_product, Assembly, MsgOutput, NUM_THREADS};
use crate::error::Error;
use crate::matrix::Matrix;
use crate::reply::Msg;
use crate::scalar::Scalar;

verus! {

/// The sending end of a worker's queue.
#[verifier::external_type_specification]
#[verifier::external_body]
#[verifier::reject_recursive_types(T)]
pub struct ExQueue<T>(std::sync::mpsc::Sender<T>);

/// `std::sync::mpsc::Sender::send`: puts `msg` into the queue without
/// waiting, and tells whether the receiving end was still there. Nothing is
/// claimed of the answer, which depends on what the worker has done.
#[verifier::external_body]
fn hand_over<T>(queue: &std::sync::mpsc::Sender<Msg<T>>, msg: Msg<T>) -> (taken: bool) {
    queue.send(msg).is_ok()
}

/// Makes the task of every output cell of the product of `a` and `b`, in the
/// order of their offsets, and hands each to the queue of its worker. What
/// comes back are the receiving ends of the reply channels, in that order.
/// The first task that cannot be handed over ends the dispatch with
/// `TaskRoutingFailure`; a product without cells hands nothing over and
/// cannot fail.
pub fn dispatch<T: Scalar>(
    queues: &Vec<std::sync::mpsc::Sender<Msg<T>>>,
    a: &Matrix<T>,
    b: &Matrix<T>,
) -> (r: Result<Vec<oneshot::Receiver<MsgOutput<T>>>, Error>)
    requires
        queues@.len() == NUM_THREADS,
        a.rows() * b.cols() <= usize::MAX,
    ensures
        r matches Ok(waiting) ==> waiting@.len() == a.rows() * b.cols(),
        r matches Err(e) ==> e == Error::TaskRoutingFailure,
        a.rows() * b.cols() == 0 ==> r is Ok,
{
    let total = a.row() * b.col();
    let mut waiting: Vec<oneshot::Receiver<MsgOutput<T>>> = Vec::new();
    let mut idx: usize = 0;
    while idx < total
        invariant
            idx <= total,
            total == a.rows() * b.cols(),
            queues@.len() == NUM_THREADS,
            waiting@.len() == idx,
        decreases total - idx,
    {
        let (msg, receiver) = Msg::for_cell(a, b, idx);
        let worker = msg.input.worker();
        match delivery(hand_over(&queues[worker], msg)) {
            Ok(()) => {},
            Err(e) => {
                return Err(e);
            },
        }
        waiting.push(receiver);
        idx = idx + 1;
    }
    Ok(waiting)
}

/// `later` has the shape of `earlier`, and every cell that `earlier` had
/// received is received in `later` with the same value.
pub open spec fn keeps<T>(earlier: Assembly<T>, later: Assembly<T>) -> bool {
    &&& later.rows() == earlier.rows()
    &&& later.cols() == earlier.cols()
    &&& later.cells().len() == earlier.cells().len()
    &&& later.filled().len() == earlier.filled().len()
    &&& forall|k: int|
        0 <= k < earlier.filled().len() && earlier.filled()[k] ==> #[trigger] later.filled()[k]
    &&& forall|k: int|
        0 <= k < earlier.filled().len() && earlier.filled()[k] ==> #[trigger] later.cells()[k]
            == earlier.cells()[k]
}

/// Recording one more accepted reply keeps what was received before.
pub proof fn lemma_record_keeps<T>(
    first: Assembly<T>,
    before: Assembly<T>,
    reply: MsgOutput<T>,
    next: Assembly<T>,
)
    requires
        keeps(first, before),
        first.filled().len() == first.cells().len(),
        before.accepts(Some(reply)),
        next.rows() == before.rows(),
        next.cols() == before.cols(),
        next.cells() == before.cells().update(reply.idx as int, reply.value),
        next.filled() == before.filled().update(reply.idx as int, true),
    ensures
        keeps(first, next),
{
    assert forall|k: int|
        0 <= k < first.filled().len() && first.filled()[k] implies #[trigger] next.filled()[k] by {
        assert(before.filled()[k]);
    }
    assert forall|k: int|
        0 <= k < first.filled().len() && first.filled()[k] implies #[trigger] next.cells()[k]
        == first.cells()[k] by {
        assert(before.filled()[k]);
        assert(before.cells()[k] == first.cells()[k]);
        assert(reply.idx != k);
    }
    assert(next.cells().len() == before.cells().len());
    assert(next.filled().len() == before.filled().len());
}

/// Waits for the reply on each of `waiting`, in their order and each for no
/// more than `wait_ms` milliseconds, and hands out the matrix when every cell
/// has had its reply. A cell that `buffer` held already keeps its value. The
/// first reply that is lost, and a cell left without one, end the product
/// with `ReplyLost`. With nothing to wait for, the outcome is that of
/// `Assembly::finish`.
pub fn collect_all<T>(
    buffer: Assembly<T>,
    waiting: Vec<oneshot::Receiver<MsgOutput<T>>>,
    wait_ms: u32,
) -> (r: Result<Matrix<T>, Error>)
    ensures
        r matches Ok(m) ==> m.rows() == buffer.rows() && m.cols() == buffer.cols() && m@.len()
            == buffer.cells().len() && forall|k: int|
            #![trigger m@[k]]
            0 <= k < buffer.filled().len() && buffer.filled()[k] ==> m@[k] == buffer.cells()[k],
        r matches Err(e) ==> e == Error::ReplyLost,
        waiting@.len() == 0 && buffer.complete() ==> (r matches Ok(m) && m@ == buffer.cells()),
        waiting@.len() == 0 && !buffer.complete() ==> r is Err,
{
    let mut current = buffer;
    let _count = current.len();
    for receiver in rest: waiting
        invariant
            keeps(buffer, current),
            buffer.filled().len() == buffer.cells().len(),
            waiting@.len() == 0 ==> current == buffer,
    {
        let ghost before = current;
        match current.collect(receiver, wait_ms) {
            Ok(next) => {
                proof {
                    let reply = choose|reply: MsgOutput<T>|
                        before.accepts(Some(reply)) && next.cells() == before.cells().update(
                            reply.idx as int,
                            reply.value,
                        ) && next.filled() == #[trigger] before.filled().update(
                            reply.idx as int,
                            true,
                        );
                    lemma_record_keeps(buffer, before, reply, next);
                }
                current = next;
            },
            Err(e) => {
                return Err(e);
            },
        }
    }
    current.finish()
}

/// The product of `a` and `b` on a pool of `NUM_THREADS` workers, of which
/// `queues` holds the queues: `ShapeMismatch` when the column count of `a` is
/// not the row count of `b`, before anything is handed over; else every task
/// is dispatched and every reply is waited for, each for no more than
/// `wait_ms` milliseconds. A task that cannot be handed over, and a reply that
/// is lost, fail the whole product. The cells are what the workers replied:
/// a worker that serves each message as `Msg::serve` does replies with the
/// cells of the product.
pub fn multiply_pooled<T: Scalar>(
    queues: &Vec<std::sync::mpsc::Sender<Msg<T>>>,
    a: &Matrix<T>,
    b: &Matrix<T>,
    wait_ms: u32,
) -> (r: Result<Matrix<T>, Error>)
    requires
        queues@.len() == NUM_THREADS,
        a.cols() == b.rows() ==> a.rows() * b.cols() <= usize::MAX,
    ensures
        a.cols() != b.rows() ==> (r matches Err(e) && e == Error::ShapeMismatch),
        a.cols() == b.rows() ==> match r {
            Ok(c) => c.rows() == a.rows() && c.cols() == b.cols() && c@.len() == a.rows()
                * b.cols(),
            Err(e) => e == Error::TaskRoutingFailure || e == Error::ReplyLost,
        },
        a.cols() == b.rows() && a.rows() * b.cols() == 0 ==> (r matches Ok(c) && is_product(
            *a,
            *b,
            c,
        )),
{
    if a.col() != b.row() {
        return Err(Error::ShapeMismatch);
    }
    let waiting = match dispatch(queues, a, b) {
        Ok(waiting) => waiting,
        Err(e) => {
            return Err(e);
        },
    };
    let buffer: Assembly<T> = Assembly::new(a.row(), b.col());
    proof {
        if a.rows() * b.cols() == 0 {
            assert(buffer.complete());
            assert(a.rows() == 0 || b.cols() == 0) by (nonlinear_arith)
                requires
                    a.rows() * b.cols() == 0,
            ;
        }
    }
    collect_all(buffer, waiting, wait_ms)
}

} // verus!
