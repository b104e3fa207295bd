use myos_sched::signal::SignallingObject;
use myos_sched::thread::ThreadHandle;

#[test]
fn one_waiter_at_a_time() {
    let mut o = SignallingObject::new();
    let a = ThreadHandle::new(3).unwrap();
    let b = ThreadHandle::new(4).unwrap();
    assert_eq!(o.set(a), Ok(()));
    assert_eq!(o.set(b), Err(()));
    assert_eq!(o.unbox(), Some(a));
    assert_eq!(o.unbox(), None);
    assert_eq!(o.set(b), Ok(()));
    assert_eq!(o.unbox(), Some(b));
}
