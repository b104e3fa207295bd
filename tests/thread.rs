use myos_sched::sync::{PoisonError, TryLockError};
use myos_sched::thread::{Irql, Priority, Quantum, ThreadHandle, ThreadId};

#[test]
fn quantum_follows_priority() {
    assert_eq!(Quantum::from(Priority::High), Quantum(25));
    assert_eq!(Quantum::from(Priority::Normal), Quantum(10));
    assert_eq!(Quantum::from(Priority::Low), Quantum(5));
    assert_eq!(Quantum::from(Priority::Idle), Quantum(1));
    assert_eq!(Quantum::from(Priority::Realtime), Quantum(1));
}

#[test]
fn quantum_expires_on_its_last_tick() {
    let mut q = Quantum::from(Priority::Normal);
    for left in (1..10u8).rev() {
        assert!(!q.consume());
        assert_eq!(q, Quantum(left));
    }
    assert!(q.consume());
    assert_eq!(q, Quantum(1));
    assert!(q.consume());
}

#[test]
fn only_idle_is_useless() {
    assert!(!Priority::Idle.useful());
    assert!(Priority::Low.useful());
    assert!(Priority::Normal.useful());
    assert!(Priority::High.useful());
    assert!(Priority::Realtime.useful());
}

#[test]
fn handles_are_never_zero() {
    assert_eq!(ThreadHandle::new(0), None);
    let h = ThreadHandle::new(7).unwrap();
    assert_eq!(h.as_usize(), 7);
    assert_eq!(h.as_index(), 6);
}

#[test]
fn thread_id_widens() {
    assert_eq!(ThreadId(42).as_u64(), 42);
}

#[test]
fn irql_runs_at_passive_level() {
    assert_eq!(Irql::current(), Irql::Passive);
    assert_eq!(Irql::raise(Irql::Dispatch), Ok(Irql::Passive));
    assert_eq!(Irql::raise(Irql::High), Ok(Irql::Passive));
    assert_eq!(Irql::lower(Irql::Passive), Ok(()));
}

#[test]
fn poison_converts_to_try_lock_error() {
    let e: TryLockError<u32> = TryLockError::from(PoisonError::new(9));
    match e {
        TryLockError::Poisoned(p) => assert_eq!(p.into_inner(), 9),
        TryLockError::WouldBlock => panic!("expected a poisoned lock"),
    }
}
