use concurrency::{AmapMetrics, Error, Metrics};

#[test]
fn fixed_counters_start_at_zero() {
    let m = AmapMetrics::new(&["a", "b"]);
    assert_eq!(m.render(), "a: 0\nb: 0\n");
}

#[test]
fn fixed_counters_rise_by_one() {
    let mut m = AmapMetrics::new(&["call.thread.worker.0", "req.page.1"]);
    assert_eq!(m.inc("req.page.1"), Ok(()));
    assert_eq!(m.inc("req.page.1"), Ok(()));
    assert_eq!(m.inc("call.thread.worker.0"), Ok(()));
    assert_eq!(m.render(), "call.thread.worker.0: 1\nreq.page.1: 2\n");
}

#[test]
fn an_unknown_name_is_reported() {
    let mut m = AmapMetrics::new(&["a"]);
    assert_eq!(m.inc("b"), Err(Error::KeyNotFound));
    assert_eq!(m.inc(""), Err(Error::KeyNotFound));
    assert_eq!(m.render(), "a: 0\n");
}

#[test]
fn a_name_given_twice_has_one_counter() {
    let mut m = AmapMetrics::new(&["a", "b", "a"]);
    assert_eq!(m.inc("a"), Ok(()));
    assert_eq!(m.render(), "a: 1\nb: 0\n");
}

#[test]
fn a_store_without_names_holds_nothing() {
    let mut m = AmapMetrics::new(&[]);
    assert_eq!(m.inc("a"), Err(Error::KeyNotFound));
    assert_eq!(m.render(), "");
}

#[test]
fn open_counters_come_into_being_at_one() {
    let mut m = Metrics::new();
    assert_eq!(m.render(), "");
    assert_eq!(m.inc("req.page.7"), Ok(()));
    assert_eq!(m.render(), "req.page.7: 1\n");
    assert_eq!(m.inc("req.page.7"), Ok(()));
    assert_eq!(m.inc("req.page.7"), Ok(()));
    assert_eq!(m.render(), "req.page.7: 3\n");
}

#[test]
fn open_counters_are_each_listed_once() {
    let mut m = Metrics::new();
    for _ in 0..3 {
        assert_eq!(m.inc("a"), Ok(()));
    }
    assert_eq!(m.inc("b"), Ok(()));
    for _ in 0..12 {
        assert_eq!(m.inc("c"), Ok(()));
    }
    let text = m.render();
    let mut lines: Vec<&str> = text.lines().collect();
    lines.sort();
    assert_eq!(lines, vec!["a: 3", "b: 1", "c: 12"]);
    assert!(text.ends_with('\n'));
}

#[test]
fn raising_one_counter_leaves_the_others_and_their_order() {
    let mut m = AmapMetrics::new(&["x", "y", "z"]);
    assert_eq!(m.inc("y"), Ok(()));
    assert_eq!(m.render(), "x: 0\ny: 1\nz: 0\n");
    assert_eq!(m.inc("z"), Ok(()));
    assert_eq!(m.inc("y"), Ok(()));
    assert_eq!(m.render(), "x: 0\ny: 2\nz: 1\n");
}
