use spsc_semaphore::counters::{advance, pending};
use spsc_semaphore::Counters;

#[test]
fn advance_adds() {
    assert_eq!(advance(0, 0), 0);
    assert_eq!(advance(1, 2), 3);
    assert_eq!(advance(usize::MAX - 1, 1), usize::MAX);
}

#[test]
fn advance_wraps() {
    assert_eq!(advance(usize::MAX, 1), 0);
    assert_eq!(advance(usize::MAX - 5, 10), 4);
    assert_eq!(advance(usize::MAX, usize::MAX), usize::MAX - 1);
}

#[test]
fn pending_subtracts() {
    assert_eq!(pending(0, 0), 0);
    assert_eq!(pending(3, 1), 2);
    assert_eq!(pending(usize::MAX, 0), usize::MAX);
}

#[test]
fn pending_wraps() {
    assert_eq!(pending(0, 1), usize::MAX);
    assert_eq!(pending(4, usize::MAX - 5), 10);
    assert_eq!(pending(0, usize::MAX), 1);
}

#[test]
fn new_counters_are_zero() {
    let c = Counters::new();
    assert_eq!(c, Counters { written: 0, consumed: 0 });
}

#[test]
fn counters_first_read_is_zero() {
    let mut c = Counters::new();
    assert_eq!(c.read(), 0);
    assert_eq!(c, Counters::new());
}

#[test]
fn counters_write_then_read() {
    let mut c = Counters::new();
    c.write(1);
    assert_eq!(c, Counters { written: 1, consumed: 0 });
    assert_eq!(c.read(), 1);
    assert_eq!(c, Counters { written: 1, consumed: 1 });
    assert_eq!(c.read(), 0);
    c.write(1);
    c.write(2);
    assert_eq!(c, Counters { written: 4, consumed: 1 });
    assert_eq!(c.read(), 3);
    assert_eq!(c, Counters { written: 4, consumed: 4 });
}

#[test]
fn counters_write_leaves_consumed() {
    let mut c = Counters { written: 10, consumed: 7 };
    c.write(5);
    assert_eq!(c, Counters { written: 15, consumed: 7 });
}

#[test]
fn counters_read_leaves_written() {
    let mut c = Counters { written: 10, consumed: 7 };
    assert_eq!(c.read(), 3);
    assert_eq!(c, Counters { written: 10, consumed: 10 });
}

#[test]
fn counters_wrap_around() {
    let mut c = Counters::new();
    c.write(usize::MAX - 5);
    c.write(10);
    assert_eq!(c.written, 4);
    assert_eq!(c.read(), 4);
}

#[test]
fn counters_read_sum_after_wrap_of_written() {
    let mut c = Counters { written: usize::MAX - 2, consumed: usize::MAX - 2 };
    let amounts: [usize; 4] = [1, 2, 3, 4];
    for a in amounts {
        c.write(a);
    }
    assert_eq!(c.written, 7);
    assert_eq!(c.read(), 10);
}

#[test]
fn drained_amount_is_not_negative_when_signed() {
    let mut c = Counters { written: usize::MAX, consumed: usize::MAX };
    c.write(usize::MAX / 2);
    let delta = c.read();
    assert_eq!(delta, usize::MAX / 2);
    assert!((delta as isize) >= 0);
}

#[test]
fn drained_amount_past_half_the_range_reads_negative_when_signed() {
    let mut c = Counters::new();
    c.write(usize::MAX / 2 + 1);
    let delta = c.read();
    assert_eq!(delta, usize::MAX / 2 + 1);
    assert!((delta as isize) < 0);
}
