//! Tasks that travel with a private reply channel.

use vstd::prelude::*;
use crate::engine::{task_at, Assembly, MsgInput, MsgOutput};
use crate::error::Error;
use crate::matrix::Matrix;
use crate::scalar::Scalar;

verus! {

/// The sending end of a one-message channel.
#[verifier::external_type_specification]
#[verifier::external_body]
#[verifier::reject_recursive_types(T)]
pub struct ExSender<T>(oneshot::Sender<T>);

/// The receiving end of a one-message channel.
#[verifier::external_type_specification]
#[verifier::external_body]
#[verifier::reject_recursive_types(T)]
pub struct ExReceiver<T>(oneshot::Receiver<T>);

/// A task together with the sending end of the channel on which its reply
/// is expected.
#[verifier::reject_recursive_types(T)]
pub struct Msg<T> {
    pub input: MsgInput<T>,
    pub sender: oneshot::Sender<MsgOutput<T>>,
}

/// `oneshot::channel`: a fresh channel for one reply. Nothing is claimed of
/// the two ends.
#[verifier::external_body]
fn reply_channel<T>() -> (ends: (oneshot::Sender<MsgOutput<T>>, oneshot::Receiver<MsgOutput<T>>)) {
    oneshot::channel()
}

/// `oneshot::Sender::send`: hands `reply` to the channel and tells whether the
/// receiving end was still there to take it. Nothing is claimed of the
/// answer, which depends on what the holder of the other end has done.
#[verifier::external_body]
fn send_reply<T>(sender: oneshot::Sender<MsgOutput<T>>, reply: MsgOutput<T>) -> (delivered: bool) {
    sender.send(reply).is_ok()
}

/// `oneshot::Receiver::recv_timeout`: waits for the reply, but for no more
/// than `wait_ms` milliseconds, and gives the reply if one came in that time.
/// There is none when the time ran out or the sending end is gone. The wait
/// is under fifty days, an end that the clock can always name, so the call
/// returns. Nothing is claimed of what comes back.
#[verifier::external_body]
fn await_reply<T>(receiver: oneshot::Receiver<MsgOutput<T>>, wait_ms: u32) -> (reply: Option<
    MsgOutput<T>,
>) {
    receiver.recv_timeout(std::time::Duration::from_millis(u64::from(wait_ms))).ok()
}

impl<T> Msg<T> {
    /// A task with the channel end on which to answer it.
    pub fn new(input: MsgInput<T>, sender: oneshot::Sender<MsgOutput<T>>) -> (msg: Self)
        ensures
            msg.input == input,
            msg.sender == sender,
    {
        Self { input, sender }
    }
}

impl<T: Scalar> Msg<T> {
    /// The task for the output cell at offset `idx` with a fresh reply
    /// channel: the message goes to the worker, the receiving end stays with
    /// whoever waits for the reply.
    pub fn for_cell(a: &Matrix<T>, b: &Matrix<T>, idx: usize) -> (out: (
        Self,
        oneshot::Receiver<MsgOutput<T>>,
    ))
        requires
            idx < a.rows() * b.cols(),
        ensures
            b.cols() > 0,
            out.0.input.idx == idx,
            out.0.input.row@ == a.row_seq(idx as int / b.cols() as int),
            out.0.input.col@ == b.col_seq(idx as int % b.cols() as int),
    {
        let input = task_at(a, b, idx);
        let (sender, receiver) = reply_channel();
        (Msg::new(input, sender), receiver)
    }

    /// What a worker does with one message: it runs the task and sends the
    /// reply. The result tells whether the reply was taken. A task whose row
    /// and column differ in length gets no reply, and its sending end is
    /// dropped, which the waiting end sees as a lost reply.
    pub fn serve(self) -> (r: Result<bool, Error>)
        ensures
            self.input.row@.len() == self.input.col@.len() ==> r is Ok,
            self.input.row@.len() != self.input.col@.len() ==> (r matches Err(e) && e
                == Error::LengthMismatch),
    {
        let Msg { input, sender } = self;
        match input.run() {
            Ok(reply) => Ok(send_reply(sender, reply)),
            Err(e) => Err(e),
        }
    }
}

impl<T> Assembly<T> {
    /// Waits for the reply on `receiver`, for no more than `wait_ms`
    /// milliseconds, and records it. The order in which replies are waited
    /// for does not decide where they go: whatever arrives is written to the
    /// cell it names. A reply that has not come when the time is up, or that
    /// can no longer come, or that names no cell that still waits for one,
    /// fails the product.
    pub fn collect(self, receiver: oneshot::Receiver<MsgOutput<T>>, wait_ms: u32) -> (r: Result<
        Self,
        Error,
    >)
        ensures
            r matches Err(e) ==> e == Error::ReplyLost,
            r matches Ok(next) ==> next.rows() == self.rows() && next.cols() == self.cols()
                && exists|reply: MsgOutput<T>|
                self.accepts(Some(reply)) && next.cells() == self.cells().update(
                    reply.idx as int,
                    reply.value,
                ) && next.filled() == #[trigger] self.filled().update(reply.idx as int, true),
    {
        let reply = await_reply(receiver, wait_ms);
        let r = self.record(reply);
        proof {
            if r is Ok {
                let m = reply->0;
                assert(self.accepts(Some(m)));
                assert(r->Ok_0.filled() == self.filled().update(m.idx as int, true));
            }
        }
        r
    }
}

} // verus!
