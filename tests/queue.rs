use myos_sched::queue::ThreadQueue;
use myos_sched::thread::ThreadHandle;

fn handle(v: usize) -> ThreadHandle {
    ThreadHandle::new(v).unwrap()
}

#[test]
fn queue_capacity_four_scenario() {
    let mut q = ThreadQueue::with_capacity(4);
    assert!(q.write(handle(1)).is_ok());
    assert!(q.write(handle(2)).is_ok());
    assert!(q.write(handle(3)).is_ok());
    assert_eq!(q.read().map(|h| h.as_usize()), Some(1));
    assert!(q.write(handle(4)).is_ok());
    assert_eq!(q.read().map(|h| h.as_usize()), Some(2));
    assert_eq!(q.read().map(|h| h.as_usize()), Some(3));
    assert_eq!(q.read().map(|h| h.as_usize()), Some(4));
    assert_eq!(q.read(), None);
}

#[test]
fn queue_keeps_one_slot_free() {
    let mut q = ThreadQueue::with_capacity(4);
    assert!(q.write(handle(5)).is_ok());
    assert!(q.write(handle(6)).is_ok());
    assert!(q.write(handle(7)).is_ok());
    assert!(q.write(handle(8)).is_err());
    assert_eq!(q.read().map(|h| h.as_usize()), Some(5));
    assert!(q.write(handle(8)).is_ok());
    assert!(q.write(handle(9)).is_err());
}

#[test]
fn queue_of_one_slot_holds_nothing() {
    let mut q = ThreadQueue::with_capacity(1);
    assert!(q.write(handle(1)).is_err());
    assert_eq!(q.read(), None);
}

#[test]
fn empty_queue_reads_none() {
    let mut q = ThreadQueue::with_capacity(8);
    assert_eq!(q.read(), None);
    assert!(q.write(handle(2)).is_ok());
    assert_eq!(q.read().map(|h| h.as_usize()), Some(2));
    assert_eq!(q.read(), None);
}

#[test]
fn fifo_order_across_wraparound() {
    let mut q = ThreadQueue::with_capacity(8);
    let mut next_in = 1usize;
    let mut next_out = 1usize;
    for _round in 0..5 {
        for _ in 0..6 {
            assert!(q.write(handle(next_in)).is_ok());
            next_in += 1;
        }
        for _ in 0..6 {
            assert_eq!(q.read().map(|h| h.as_usize()), Some(next_out));
            next_out += 1;
        }
    }
    assert_eq!(q.read(), None);
}

#[test]
fn never_more_live_entries_than_capacity() {
    let mut q = ThreadQueue::with_capacity(16);
    let mut accepted = 0usize;
    for i in 1..100usize {
        if q.write(handle(i)).is_ok() {
            accepted += 1;
        }
    }
    assert_eq!(accepted, 15);
    let mut read = 0usize;
    while q.read().is_some() {
        read += 1;
    }
    assert_eq!(read, 15);
}
