use myos_sched::scheduler::{sch_setup_new_thread, Dispatch, GlobalScheduler, Sleep};
use myos_sched::signal::SignallingObject;
use myos_sched::thread::{NativeThread, Priority, ThreadHandle};
use myos_sched::time::{MonotonicClock, TimeMeasure, Timer};

fn current(sch: &GlobalScheduler) -> usize {
    sch.local_scheduler(0).current_thread().as_usize()
}

/// Dispatches on processor 0 and, on a switch, completes the protocol as
/// the resumed thread would.
fn dispatch(sch: &mut GlobalScheduler, clock: &MonotonicClock) -> Dispatch {
    let d = sch.next_thread(0, clock).unwrap();
    if let Dispatch::Switch { .. } = d {
        assert!(sch.resume_thread(0).is_ok());
    }
    d
}

fn tick(sch: &mut GlobalScheduler, clock: &MonotonicClock) -> Dispatch {
    let d = sch.reschedule(0, clock).unwrap();
    if let Dispatch::Switch { .. } = d {
        assert!(sch.resume_thread(0).is_ok());
    }
    d
}

/// A started scheduler on one processor running its first worker.
fn running_first_worker(clock: &MonotonicClock) -> (GlobalScheduler, Vec<ThreadHandle>) {
    let mut sch = GlobalScheduler::new();
    let workers = sch.start(1);
    assert_eq!(dispatch(&mut sch, clock), Dispatch::Stay);
    let d = dispatch(&mut sch, clock);
    assert_eq!(
        d,
        Dispatch::Switch { from: sch.local_scheduler(0).idle_thread(), to: workers[0] }
    );
    (sch, workers)
}

#[test]
fn start_sets_up_processors_and_workers() {
    let mut sch = GlobalScheduler::new();
    assert!(!sch.is_enabled());
    let created = sch.start(2);
    assert!(sch.is_enabled());
    assert_eq!(sch.cpu_count(), 2);
    assert_eq!(created.len(), 31);
    assert_eq!(sch.thread_count(), 33);
    assert_eq!(sch.local_scheduler(0).idle_thread().as_usize(), 1);
    assert_eq!(sch.local_scheduler(1).idle_thread().as_usize(), 2);
    assert_eq!(sch.local_scheduler(1).current_thread().as_usize(), 2);
    assert_eq!(sch.local_scheduler(1).index(), 1);
    for (k, h) in created.iter().enumerate() {
        assert_eq!(h.as_usize(), k + 3);
        let t = sch.thread(*h);
        assert_eq!(t.priority, Priority::Normal);
        assert_eq!(t.id.0, k + 2);
    }
    assert_eq!(sch.thread(ThreadHandle::new(1).unwrap()).priority, Priority::Idle);
    assert_eq!(sch.statistics(), vec![0, 0]);
}

#[test]
fn first_selection_flips_the_epoch() {
    let clock = MonotonicClock::at(0);
    let mut sch = GlobalScheduler::new();
    let workers = sch.start(1);
    assert_eq!(sch.next(&clock), Ok(None));
    assert_eq!(sch.next(&clock), Ok(Some(workers[0])));
    assert_eq!(sch.next(&clock), Ok(Some(workers[1])));
}

#[test]
fn round_robin_dispatches_everyone_once_before_anyone_twice() {
    let clock = MonotonicClock::at(0);
    let (mut sch, workers) = running_first_worker(&clock);
    let mut seen = vec![workers[0].as_usize()];
    for _ in 1..workers.len() {
        let d = dispatch(&mut sch, &clock);
        assert!(matches!(d, Dispatch::Switch { .. }));
        let c = current(&sch);
        assert!(!seen.contains(&c));
        seen.push(c);
    }
    let expected: Vec<usize> = workers.iter().map(|h| h.as_usize()).collect();
    assert_eq!(seen, expected);
    assert_eq!(sch.statistics(), vec![workers.len()]);
}

#[test]
fn normal_thread_is_preempted_after_ten_ticks() {
    let clock = MonotonicClock::at(0);
    let (mut sch, workers) = running_first_worker(&clock);
    for _ in 0..9 {
        assert_eq!(tick(&mut sch, &clock), Dispatch::Stay);
        assert_eq!(current(&sch), workers[0].as_usize());
    }
    assert_eq!(
        tick(&mut sch, &clock),
        Dispatch::Switch { from: workers[0], to: workers[1] }
    );
}

#[test]
fn normal_and_high_priority_slices() {
    let clock = MonotonicClock::at(0);
    let (mut sch, workers) = running_first_worker(&clock);
    let high = NativeThread::new(&mut sch, Priority::High);
    let mut object = SignallingObject::new();
    assert!(object.set(high).is_ok());
    // the normal thread gives way after ten ticks even though the high
    // priority thread has never run
    for _ in 0..9 {
        assert_eq!(tick(&mut sch, &clock), Dispatch::Stay);
    }
    assert!(sch.signal(&mut object).is_ok());
    assert_eq!(tick(&mut sch, &clock), Dispatch::Switch { from: workers[0], to: high });
    for _ in 0..24 {
        assert_eq!(tick(&mut sch, &clock), Dispatch::Stay);
        assert_eq!(current(&sch), high.as_usize());
    }
    assert_eq!(tick(&mut sch, &clock), Dispatch::Switch { from: high, to: workers[1] });
}

#[test]
fn realtime_thread_is_never_preempted() {
    let clock = MonotonicClock::at(0);
    let (mut sch, _) = running_first_worker(&clock);
    let rt = NativeThread::new(&mut sch, Priority::Realtime);
    let mut object = SignallingObject::new();
    assert!(object.set(rt).is_ok());
    assert!(sch.signal(&mut object).is_ok());
    assert!(matches!(dispatch(&mut sch, &clock), Dispatch::Switch { .. }));
    assert_eq!(current(&sch), rt.as_usize());
    for _ in 0..1000 {
        assert_eq!(tick(&mut sch, &clock), Dispatch::Stay);
        assert_eq!(current(&sch), rt.as_usize());
    }
}

#[test]
fn ticks_do_nothing_before_start() {
    let clock = MonotonicClock::at(0);
    let mut sch = GlobalScheduler::new();
    assert_eq!(sch.reschedule(0, &clock), Ok(Dispatch::Stay));
    assert_eq!(sch.thread_count(), 0);
}

#[test]
fn signalled_thread_runs_next() {
    let mut clock = MonotonicClock::at(0);
    let (mut sch, workers) = running_first_worker(&clock);
    let mut object = SignallingObject::new();
    // the first worker parks on the object for a long time
    let d = sch.wait_for(Some(&mut *object), 0, &clock, TimeMeasure::from_secs(10)).unwrap();
    assert_eq!(d, Dispatch::Switch { from: workers[0], to: workers[1] });
    assert!(sch.resume_thread(0).is_ok());
    clock.advance(1000);
    assert!(sch.signal(&mut object).is_ok());
    assert_eq!(object.unbox(), None);
    assert_eq!(sch.next(&clock), Ok(Some(workers[0])));
}

#[test]
fn signalling_an_empty_object_changes_nothing() {
    let clock = MonotonicClock::at(0);
    let (mut sch, workers) = running_first_worker(&clock);
    let mut object = SignallingObject::new();
    assert!(sch.signal(&mut object).is_ok());
    assert_eq!(sch.next(&clock), Ok(Some(workers[1])));
}

#[test]
fn second_waiter_is_not_registered() {
    let clock = MonotonicClock::at(0);
    let (mut sch, workers) = running_first_worker(&clock);
    let mut object = SignallingObject::new();
    assert!(sch.wait_for(Some(&mut *object), 0, &clock, TimeMeasure::from_millis(1)).is_ok());
    assert!(sch.resume_thread(0).is_ok());
    assert!(object.wait(&mut sch, 0, &clock, TimeMeasure::from_millis(1)).is_ok());
    assert!(sch.resume_thread(0).is_ok());
    assert_eq!(object.unbox(), Some(workers[0]));
}

#[test]
fn sleeping_thread_is_skipped_until_its_deadline() {
    let mut clock = MonotonicClock::at(0);
    let mut sch = GlobalScheduler::new();
    let workers = sch.start(1);
    assert_eq!(dispatch(&mut sch, &clock), Dispatch::Stay);
    assert!(matches!(dispatch(&mut sch, &clock), Dispatch::Switch { .. }));
    // every worker in turn sleeps for 5 ms
    for k in 0..workers.len() {
        assert_eq!(current(&sch), workers[k].as_usize());
        let s = Timer::sleep(&mut sch, 0, &clock, TimeMeasure::from_millis(5)).unwrap();
        match s {
            Sleep::Dispatched(Dispatch::Switch { .. }) => assert!(sch.resume_thread(0).is_ok()),
            _ => panic!("a sleeping thread gives way"),
        }
    }
    // all are asleep: the processor falls back to idle
    assert_eq!(current(&sch), sch.local_scheduler(0).idle_thread().as_usize());
    clock.advance(4_000);
    assert_eq!(sch.next(&clock), Ok(None));
    assert_eq!(sch.next(&clock), Ok(None));
    // the last sleeper went to the retired queue first, so it leads the
    // ready queue once its deadline has passed
    clock.advance(2_000);
    assert_eq!(sch.next(&clock), Ok(Some(workers[30])));
    assert_eq!(sch.next(&clock), Ok(Some(workers[0])));
}

#[test]
fn elapsed_deadline_is_dispatched_not_retired() {
    let mut clock = MonotonicClock::at(0);
    let (mut sch, workers) = running_first_worker(&clock);
    let d = sch.wait_for(None, 0, &clock, TimeMeasure::from_micros(10)).unwrap();
    assert_eq!(d, Dispatch::Switch { from: workers[0], to: workers[1] });
    assert!(sch.resume_thread(0).is_ok());
    clock.advance(20);
    for _ in 2..workers.len() {
        assert!(matches!(sch.next(&clock), Ok(Some(_))));
    }
    assert_eq!(sch.next(&clock), Ok(None));
    assert_eq!(sch.next(&clock), Ok(Some(workers[0])));
}

#[test]
fn sleep_before_start_waits_on_the_timer() {
    let clock = MonotonicClock::at(100);
    let mut sch = GlobalScheduler::new();
    let s = Timer::usleep(&mut sch, 0, &clock, 50).unwrap();
    match s {
        Sleep::Until(t) => {
            assert_eq!(t.deadline, TimeMeasure(150));
            assert!(t.until(&clock));
            assert!(!t.until(&MonotonicClock::at(151)));
        }
        Sleep::Dispatched(_) => panic!("scheduling is not enabled"),
    }
}

#[test]
fn resuming_clears_the_deadline_and_files_the_outgoing_thread() {
    let clock = MonotonicClock::at(0);
    let (mut sch, workers) = running_first_worker(&clock);
    let d = sch.wait_for(None, 0, &clock, TimeMeasure::from_millis(3)).unwrap();
    assert_eq!(d, Dispatch::Switch { from: workers[0], to: workers[1] });
    assert_eq!(sch.thread(workers[0]).deadline.deadline, TimeMeasure(3000));
    assert!(sch.resume_thread(0).is_ok());
    assert_eq!(sch.thread(workers[1]).deadline, Timer::null());
    assert_eq!(NativeThread::current(&sch, 0), workers[1]);
    assert_eq!(NativeThread::current_id(&sch, 0), sch.thread(workers[1]).id);
}

#[test]
fn new_thread_hook_files_the_previous_thread() {
    let clock = MonotonicClock::at(0);
    let (mut sch, workers) = running_first_worker(&clock);
    let d = sch.next_thread(0, &clock).unwrap();
    assert_eq!(d, Dispatch::Switch { from: workers[0], to: workers[1] });
    assert!(sch_setup_new_thread(&mut sch, 0).is_ok());
    assert!(sch_setup_new_thread(&mut sch, 0).is_ok());
    // the filed thread comes round again after the others
    for _ in 2..workers.len() {
        assert!(matches!(sch.next(&clock), Ok(Some(_))));
    }
    assert_eq!(sch.next(&clock), Ok(None));
    assert_eq!(sch.next(&clock), Ok(Some(workers[0])));
}

#[test]
fn idle_threads_are_never_filed() {
    let mut sch = GlobalScheduler::new();
    let _ = sch.start(1);
    let idle = sch.local_scheduler(0).idle_thread();
    assert!(sch.retire(idle).is_ok());
    let clock = MonotonicClock::at(0);
    assert_eq!(sch.next(&clock), Ok(None));
    let mut count = 0;
    while let Ok(Some(_)) = sch.next(&clock) {
        count += 1;
    }
    assert_eq!(count, 31);
}

#[test]
fn dispatch_to_the_running_thread_stays() {
    let clock = MonotonicClock::at(0);
    let mut sch = GlobalScheduler::new();
    let _ = sch.start(1);
    // the ready queue is empty: nothing is chosen and idle keeps running
    assert_eq!(sch.next_thread(0, &clock), Ok(Dispatch::Stay));
    assert_eq!(sch.statistics(), vec![0]);
}

#[test]
fn full_retired_queue_hands_the_thread_back() {
    let mut sch = GlobalScheduler::new();
    let _ = sch.start(1);
    // 31 threads are filed at start; the queue of 512 slots takes 511
    for _ in 0..480 {
        let h = NativeThread::new(&mut sch, Priority::Low);
        assert!(sch.retire(h).is_ok());
    }
    let extra = NativeThread::new(&mut sch, Priority::Low);
    assert_eq!(sch.retire(extra), Err(extra));
}

#[test]
fn null_duration_wait_sets_no_deadline() {
    let clock = MonotonicClock::at(77);
    let (mut sch, workers) = running_first_worker(&clock);
    let d = sch.wait_for(None, 0, &clock, TimeMeasure::null()).unwrap();
    assert_eq!(d, Dispatch::Switch { from: workers[0], to: workers[1] });
    assert_eq!(sch.thread(workers[0]).deadline, Timer::null());
}

#[test]
fn signal_for_a_foreign_handle_is_dropped() {
    let clock = MonotonicClock::at(0);
    let (mut sch, workers) = running_first_worker(&clock);
    let mut object = SignallingObject::new();
    assert!(object.set(ThreadHandle::new(1000).unwrap()).is_ok());
    assert_eq!(sch.signal(&mut object), Err(ThreadHandle::new(1000).unwrap()));
    assert_eq!(object.unbox(), None);
    assert_eq!(sch.next(&clock), Ok(Some(workers[1])));
}

#[test]
fn low_priority_slice_is_five_ticks() {
    let clock = MonotonicClock::at(0);
    let (mut sch, workers) = running_first_worker(&clock);
    let low = NativeThread::new(&mut sch, Priority::Low);
    let mut object = SignallingObject::new();
    assert!(object.set(low).is_ok());
    assert!(sch.signal(&mut object).is_ok());
    assert_eq!(dispatch(&mut sch, &clock), Dispatch::Switch { from: workers[0], to: low });
    for _ in 0..4 {
        assert_eq!(tick(&mut sch, &clock), Dispatch::Stay);
    }
    assert_eq!(tick(&mut sch, &clock), Dispatch::Switch { from: low, to: workers[1] });
}

#[test]
fn waiting_thread_is_never_dispatched_early_when_retired_queue_is_full() {
    let clock = MonotonicClock::at(0);
    let (mut sch, workers) = running_first_worker(&clock);
    let d = sch.wait_for(None, 0, &clock, TimeMeasure::from_secs(10)).unwrap();
    assert_eq!(d, Dispatch::Switch { from: workers[0], to: workers[1] });
    assert!(sch.resume_thread(0).is_ok());
    // drain the ready queue; the epoch flip then brings the sleeper back
    while let Ok(Some(_)) = sch.next(&clock) {}
    // fill the retired queue to its 511 entries
    for _ in 0..511 {
        let h = NativeThread::new(&mut sch, Priority::Low);
        assert!(sch.retire(h).is_ok());
    }
    assert_eq!(sch.next(&clock), Err(workers[0]));
    assert_eq!(sch.thread(workers[0]).deadline.deadline, TimeMeasure(10_000_000));
}

#[test]
fn dispatch_reports_a_full_retired_queue() {
    let clock = MonotonicClock::at(0);
    let (mut sch, workers) = running_first_worker(&clock);
    let d = sch.wait_for(None, 0, &clock, TimeMeasure::from_secs(10)).unwrap();
    assert_eq!(d, Dispatch::Switch { from: workers[0], to: workers[1] });
    assert!(sch.resume_thread(0).is_ok());
    while let Ok(Some(_)) = sch.next(&clock) {}
    for _ in 0..511 {
        let h = NativeThread::new(&mut sch, Priority::Low);
        assert!(sch.retire(h).is_ok());
    }
    assert_eq!(sch.next_thread(0, &clock), Err(workers[0]));
    assert_eq!(current(&sch), workers[1].as_usize());
}

#[test]
fn signal_reports_a_full_urgent_queue() {
    let clock = MonotonicClock::at(0);
    let (mut sch, _) = running_first_worker(&clock);
    for _ in 0..511 {
        let h = NativeThread::new(&mut sch, Priority::Normal);
        let mut object = SignallingObject::new();
        assert!(object.set(h).is_ok());
        assert!(object.signal(&mut sch).is_ok());
    }
    let h = NativeThread::new(&mut sch, Priority::Normal);
    let mut object = SignallingObject::new();
    assert!(object.set(h).is_ok());
    assert_eq!(object.signal(&mut sch), Err(h));
    assert_eq!(object.unbox(), None);
}
