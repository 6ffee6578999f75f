use concurrency::{
    collect_all, dispatch, multiply, multiply_pooled, Assembly, Error, Matrix, Msg, MsgOutput,
    Scalar, NUM_THREADS,
};
use std::sync::mpsc;
use std::time::{Duration, Instant};

fn left() -> Matrix<i64> {
    Matrix::new(vec![1, 2, 3, 4, 5, 6], 2, 3)
}

fn right() -> Matrix<i64> {
    Matrix::new(vec![1, 2, 3, 4, 5, 6], 3, 2)
}

fn queues() -> (Vec<mpsc::Sender<Msg<i64>>>, Vec<mpsc::Receiver<Msg<i64>>>) {
    let mut senders = Vec::new();
    let mut receivers = Vec::new();
    for _ in 0..NUM_THREADS {
        let (tx, rx) = mpsc::channel();
        senders.push(tx);
        receivers.push(rx);
    }
    (senders, receivers)
}

#[test]
fn dispatch_routes_each_task_to_its_worker_in_order() {
    let a = Matrix::new((1..=15i64).collect(), 3, 5);
    let b = Matrix::new((1..=20i64).collect(), 5, 4);
    let (senders, receivers) = queues();
    let waiting = dispatch(&senders, &a, &b).expect("queues are open");
    assert_eq!(waiting.len(), 12);
    drop(senders);
    for (worker, rx) in receivers.iter().enumerate() {
        let offsets: Vec<usize> = rx.iter().map(|msg| msg.input.idx).collect();
        let expected: Vec<usize> = (0..12).filter(|idx| idx % NUM_THREADS == worker).collect();
        assert_eq!(offsets, expected);
    }
}

#[test]
fn dispatched_served_and_collected_is_the_product() {
    let a = Matrix::new((1..=15i64).collect(), 3, 5);
    let b = Matrix::new((1..=20i64).collect(), 5, 4);
    let (senders, receivers) = queues();
    let waiting = dispatch(&senders, &a, &b).expect("queues are open");
    drop(senders);
    // the last queue is served first: the order of completion is not that of issue
    for rx in receivers.iter().rev() {
        for msg in rx.iter() {
            assert_eq!(msg.serve(), Ok(true));
        }
    }
    let c = collect_all(Assembly::new(3, 4), waiting, 1000).expect("every reply was sent");
    let d = multiply(&a, &b).expect("shapes fit");
    assert_eq!(c.row(), 3);
    assert_eq!(c.col(), 4);
    assert_eq!(c.data(), d.data());
    assert_eq!(c.data()[0], 1 * 1 + 2 * 5 + 3 * 9 + 4 * 13 + 5 * 17);
}

#[test]
fn dispatch_to_a_closed_queue_fails() {
    let (senders, receivers) = queues();
    drop(receivers);
    assert!(matches!(dispatch(&senders, &left(), &right()), Err(Error::TaskRoutingFailure)));
    assert!(matches!(
        multiply_pooled(&senders, &left(), &right(), 1000),
        Err(Error::TaskRoutingFailure)
    ));
}

#[test]
fn dispatch_of_a_product_without_cells_hands_nothing_over() {
    let (senders, receivers) = queues();
    drop(receivers);
    let a: Matrix<i64> = Matrix::new(vec![], 0, 3);
    let b: Matrix<i64> = Matrix::new(vec![0; 6], 3, 2);
    let waiting = dispatch(&senders, &a, &b).expect("nothing to hand over");
    assert!(waiting.is_empty());
    let c = multiply_pooled(&senders, &a, &b, 1000).expect("nothing to wait for");
    assert_eq!(c.row(), 0);
    assert_eq!(c.col(), 2);
    assert!(c.data().is_empty());
}

#[test]
fn pooled_product_of_mismatched_shapes_fails_before_dispatch() {
    let (senders, receivers) = queues();
    let a = left();
    let b = Matrix::new(vec![1i64, 2, 3, 4], 2, 2);
    assert!(matches!(multiply_pooled(&senders, &a, &b, 1000), Err(Error::ShapeMismatch)));
    drop(senders);
    for rx in receivers {
        assert_eq!(rx.iter().count(), 0);
    }
}

#[test]
fn pooled_product_without_workers_gives_up_after_the_wait() {
    let (senders, _receivers) = queues();
    let started = Instant::now();
    let r = multiply_pooled(&senders, &left(), &right(), 20);
    assert!(matches!(r, Err(Error::ReplyLost)));
    assert!(started.elapsed() >= Duration::from_millis(20));
    assert!(started.elapsed() < Duration::from_secs(10));
}

#[test]
fn waiting_for_a_held_message_ends_when_the_time_is_up() {
    let (msg, receiver) = Msg::for_cell(&left(), &right(), 0);
    let buffer: Assembly<i64> = Assembly::new(2, 2);
    let started = Instant::now();
    assert!(matches!(buffer.collect(receiver, 10), Err(Error::ReplyLost)));
    assert!(started.elapsed() >= Duration::from_millis(10));
    assert_eq!(msg.serve(), Ok(false));
}

#[test]
fn nothing_to_wait_for_is_the_same_as_finishing() {
    let complete: Assembly<i64> = Assembly::new(1, 1)
        .record(Some(MsgOutput { idx: 0, value: 9 }))
        .expect("fresh cell");
    let m = collect_all(complete, Vec::new(), 0).expect("complete");
    assert_eq!(m.data(), &[9]);
    let incomplete: Assembly<i64> = Assembly::new(1, 1);
    assert!(matches!(collect_all(incomplete, Vec::new(), 0), Err(Error::ReplyLost)));
}

#[test]
fn cells_received_before_are_kept() {
    let (a, b) = (left(), right());
    let buffer: Assembly<i64> = Assembly::new(2, 2)
        .record(Some(MsgOutput { idx: 0, value: -1 }))
        .expect("fresh cell");
    let mut waiting = Vec::new();
    for idx in 1..4 {
        let (msg, receiver) = Msg::for_cell(&a, &b, idx);
        assert_eq!(msg.serve(), Ok(true));
        waiting.push(receiver);
    }
    let m = collect_all(buffer, waiting, 1000).expect("every reply was sent");
    assert_eq!(m.data(), &[-1, 28, 49, 64]);
}

#[test]
fn a_second_reply_for_a_received_cell_fails_the_collection() {
    let (a, b) = (left(), right());
    let buffer: Assembly<i64> = Assembly::new(2, 2)
        .record(Some(MsgOutput { idx: 0, value: -1 }))
        .expect("fresh cell");
    let (msg, receiver) = Msg::for_cell(&a, &b, 0);
    assert_eq!(msg.serve(), Ok(true));
    assert!(matches!(collect_all(buffer, vec![receiver], 1000), Err(Error::ReplyLost)));
}

#[test]
fn the_buffer_counts_its_cells() {
    let buffer: Assembly<i64> = Assembly::new(3, 7);
    assert_eq!(buffer.len(), 21);
    let none: Assembly<i64> = Assembly::new(0, 7);
    assert_eq!(none.len(), 0);
}

#[test]
fn every_integer_type_is_a_scalar() {
    assert_eq!(200u8.plus(100), 44);
    assert_eq!(16u8.times(17), 16);
    assert_eq!(i8::MIN.render(), "-128");
    assert_eq!(i8::MAX.plus(1), i8::MIN);
    assert_eq!(u16::MAX.times(u16::MAX), 1);
    assert_eq!(i16::MIN.times(-1), i16::MIN);
    assert_eq!(u16::MAX.render(), "65535");
    assert_eq!(u128::MAX.plus(1), 0);
    assert_eq!(u128::MAX.render(), "340282366920938463463374607431768211455");
    assert_eq!(i128::MIN.render(), "-170141183460469231731687303715884105728");
    assert_eq!(i128::MAX.plus(1), i128::MIN);
    assert_eq!(usize::MAX.plus(2), 1);
    assert_eq!(usize::MAX.times(2), usize::MAX - 1);
    assert_eq!(isize::MIN.plus(-1), isize::MAX);
    assert_eq!((-45isize).render(), "-45");
    assert_eq!(<u8 as Scalar>::zero(), 0);
    assert_eq!(<i128 as Scalar>::zero(), 0);
    assert_eq!(<usize as Scalar>::zero(), 0);
    let a = Matrix::new(vec![200u8, 100, 3, 4], 2, 2);
    let b = Matrix::new(vec![2u8, 0, 1, 1], 2, 2);
    let c = multiply(&a, &b).expect("shapes fit");
    assert_eq!(c.data(), &[244, 100, 10, 4]);
    assert_eq!(c.render(), "{244 100, 10 4}");
}
