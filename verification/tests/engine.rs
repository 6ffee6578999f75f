use concurrency::{
    delivery, multiply, task_at, Assembly, Error, Matrix, Msg, MsgInput, MsgOutput, Vector,
    NUM_THREADS,
};

fn left() -> Matrix<i64> {
    Matrix::new(vec![1, 2, 3, 4, 5, 6], 2, 3)
}

fn right() -> Matrix<i64> {
    Matrix::new(vec![1, 2, 3, 4, 5, 6], 3, 2)
}

#[test]
fn task_holds_row_column_and_offset() {
    let (a, b) = (left(), right());
    let t = task_at(&a, &b, 3);
    assert_eq!(t.idx, 3);
    assert_eq!(t.row.as_vec(), &vec![4, 5, 6]);
    assert_eq!(t.col.as_vec(), &vec![2, 4, 6]);
    let t = task_at(&a, &b, 2);
    assert_eq!(t.idx, 2);
    assert_eq!(t.row.as_vec(), &vec![4, 5, 6]);
    assert_eq!(t.col.as_vec(), &vec![1, 3, 5]);
}

#[test]
fn tasks_go_round_the_workers() {
    assert_eq!(NUM_THREADS, 4);
    for idx in 0..10usize {
        let t = MsgInput::new(idx, Vector::new(vec![0i32]), Vector::new(vec![0i32]));
        assert_eq!(t.worker(), idx % 4);
    }
}

#[test]
fn running_a_task_gives_the_tagged_dot_product() {
    let t = MsgInput::new(5, Vector::new(vec![1i64, 2, 3]), Vector::new(vec![1i64, 3, 5]));
    let out = t.run().expect("equal lengths");
    assert_eq!(out.idx, 5);
    assert_eq!(out.value, 22);
}

#[test]
fn running_a_task_of_unequal_lengths_fails() {
    let t = MsgInput::new(0, Vector::new(vec![1i64, 2, 3]), Vector::new(vec![1i64, 3]));
    assert!(matches!(t.run(), Err(Error::LengthMismatch)));
}

#[test]
fn replies_in_any_order_give_the_same_matrix() {
    let orders: [[usize; 4]; 3] = [[0, 1, 2, 3], [3, 2, 1, 0], [2, 0, 3, 1]];
    let values = [22i64, 28, 49, 64];
    for order in orders {
        let mut buffer: Assembly<i64> = Assembly::new(2, 2);
        for idx in order {
            buffer = buffer.record(Some(MsgOutput { idx, value: values[idx] })).expect("fresh cell");
        }
        let c = buffer.finish().expect("complete");
        assert_eq!(c.row(), 2);
        assert_eq!(c.col(), 2);
        assert_eq!(c.data(), &[22, 28, 49, 64]);
    }
}

#[test]
fn a_missing_reply_is_lost() {
    let buffer: Assembly<i64> = Assembly::new(2, 2);
    assert!(matches!(buffer.record(None), Err(Error::ReplyLost)));
}

#[test]
fn a_reply_outside_the_matrix_is_lost() {
    let buffer: Assembly<i64> = Assembly::new(2, 2);
    assert!(matches!(buffer.record(Some(MsgOutput { idx: 4, value: 1 })), Err(Error::ReplyLost)));
}

#[test]
fn a_second_reply_for_a_cell_is_lost() {
    let buffer: Assembly<i64> = Assembly::new(2, 2);
    let buffer = buffer.record(Some(MsgOutput { idx: 1, value: 1 })).expect("fresh cell");
    assert!(matches!(buffer.record(Some(MsgOutput { idx: 1, value: 1 })), Err(Error::ReplyLost)));
}

#[test]
fn an_unfinished_matrix_is_not_handed_out() {
    let buffer: Assembly<i64> = Assembly::new(1, 2);
    let buffer = buffer.record(Some(MsgOutput { idx: 1, value: 9 })).expect("fresh cell");
    assert!(matches!(buffer.finish(), Err(Error::ReplyLost)));
    let empty: Assembly<i64> = Assembly::new(0, 5);
    let c = empty.finish().expect("nothing to wait for");
    assert_eq!(c.row(), 0);
    assert_eq!(c.col(), 5);
}

#[test]
fn tasks_run_and_recorded_by_hand_give_the_product() {
    let (a, b) = (left(), right());
    let mut buffer: Assembly<i64> = Assembly::new(a.row(), b.col());
    for idx in [3usize, 0, 2, 1] {
        let out = task_at(&a, &b, idx).run().expect("equal lengths");
        buffer = buffer.record(Some(out)).expect("fresh cell");
    }
    let c = buffer.finish().expect("complete");
    let d = multiply(&a, &b).expect("shapes fit");
    assert_eq!(c.data(), d.data());
    assert_eq!(c.data(), &[22, 28, 49, 64]);
}

#[test]
fn a_served_message_is_collected_from_its_channel() {
    let (a, b) = (left(), right());
    let mut waiting = Vec::new();
    for idx in 0..4 {
        let (msg, receiver) = Msg::for_cell(&a, &b, idx);
        assert_eq!(msg.input.idx, idx);
        assert_eq!(msg.serve(), Ok(true));
        waiting.push(receiver);
    }
    let mut buffer: Assembly<i64> = Assembly::new(2, 2);
    while let Some(receiver) = waiting.pop() {
        buffer = buffer.collect(receiver, 1000).expect("reply was sent");
    }
    let c = buffer.finish().expect("complete");
    assert_eq!(c.data(), &[22, 28, 49, 64]);
}

#[test]
fn a_reply_nobody_waits_for_is_not_taken() {
    let (a, b) = (left(), right());
    let (msg, receiver) = Msg::for_cell(&a, &b, 0);
    drop(receiver);
    assert_eq!(msg.serve(), Ok(false));
}

#[test]
fn a_dropped_message_is_a_lost_reply() {
    let (a, b) = (left(), right());
    let (msg, receiver) = Msg::for_cell(&a, &b, 0);
    drop(msg);
    let buffer: Assembly<i64> = Assembly::new(2, 2);
    assert!(matches!(buffer.collect(receiver, 1000), Err(Error::ReplyLost)));
}

#[test]
fn a_message_of_unequal_lengths_gets_no_reply() {
    let (sender, receiver) = oneshot::channel();
    let input = MsgInput::new(0, Vector::new(vec![1i64, 2]), Vector::new(vec![1i64]));
    let msg = Msg::new(input, sender);
    assert_eq!(msg.serve(), Err(Error::LengthMismatch));
    let buffer: Assembly<i64> = Assembly::new(1, 1);
    assert!(matches!(buffer.collect(receiver, 1000), Err(Error::ReplyLost)));
}

#[test]
fn a_task_that_is_not_handed_over_fails_the_product() {
    assert_eq!(delivery(true), Ok(()));
    assert_eq!(delivery(false), Err(Error::TaskRoutingFailure));
}
