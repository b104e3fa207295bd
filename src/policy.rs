//! The scheduling policy as functions on an abstract scheduler state: thread
//! selection, retirement, dispatch, time slicing, blocking and signalling.
use vstd::prelude::*;
use crate::queue::write_step;
use crate::thread::{consume_step, quantum_of, NativeThread, Priority, Quantum, ThreadId};
use crate::time::{deadline_after, deadline_pending, TimeMeasure, Timer};

verus! {

/// Slots of the urgent queue.
pub const SIZE_OF_URGENT_QUEUE: usize = 512;

/// Slots of the ready queue and of the retired queue.
pub const SIZE_OF_MAIN_QUEUE: usize = 512;

/// Abstract state of one processor's scheduler; threads are named by slot.
pub struct LocalView {
    pub index: usize,
    pub count: usize,
    pub idle: usize,
    pub current: usize,
    pub retired: Option<usize>,
}

/// Abstract state of the whole scheduler.
pub struct SchedulerView {
    /// Control blocks; the thread of slot `h` is `threads[h - 1]`.
    pub threads: Seq<NativeThread>,
    pub urgent: Seq<usize>,
    pub ready: Seq<usize>,
    pub retired: Seq<usize>,
    pub locals: Seq<LocalView>,
    /// The queues and processors are set up.
    pub started: bool,
    /// Timer ticks may preempt.
    pub enabled: bool,
}

/// What a dispatch decides: `None` to keep the running thread, else the
/// outgoing and the incoming thread of a context switch.
pub type SwitchView = Option<(usize, usize)>;

/// A dispatch decision, or the thread that selection could not file back
/// because the retired queue was full.
pub type DispatchView = Result<SwitchView, usize>;

/// What selection yields.
pub enum Pick {
    /// The thread of this slot runs next.
    Run(usize),
    /// No thread is chosen this time.
    Nothing,
    /// The thread of this slot still waits, and the retired queue has no
    /// room for it.
    Full(usize),
}

/// Worker threads that start seeds beside the entry thread.
pub const NUMBER_OF_FILLER_THREADS: usize = 30;

/// The control block of a new thread numbered `n`: a full slice for its
/// priority and no deadline.
pub open spec fn new_thread(n: nat, p: Priority) -> NativeThread {
    NativeThread {
        id: ThreadId(n as usize),
        priority: p,
        quantum: Quantum(quantum_of(p)),
        default_quantum: Quantum(quantum_of(p)),
        deadline: Timer { deadline: TimeMeasure(0) },
    }
}

/// Whether `h` names one of the threads of `v`.
pub open spec fn in_pool(v: SchedulerView, h: usize) -> bool {
    1 <= h <= v.threads.len()
}

/// Well-formedness of the abstract state: every slot named anywhere names a
/// thread, and every thread's full slice is the one its priority gives.
pub open spec fn view_wf(v: SchedulerView) -> bool {
    &&& forall|i: int| 0 <= i < v.urgent.len() ==> in_pool(v, #[trigger] v.urgent[i])
    &&& forall|i: int| 0 <= i < v.ready.len() ==> in_pool(v, #[trigger] v.ready[i])
    &&& forall|i: int| 0 <= i < v.retired.len() ==> in_pool(v, #[trigger] v.retired[i])
    &&& forall|i: int|
        0 <= i < v.locals.len() ==> {
            &&& in_pool(v, (#[trigger] v.locals[i]).idle)
            &&& in_pool(v, v.locals[i].current)
            &&& (v.locals[i].retired matches Some(h) ==> in_pool(v, h))
        }
    &&& forall|i: int|
        0 <= i < v.threads.len() ==> (#[trigger] v.threads[i]).default_quantum == Quantum(
            quantum_of(v.threads[i].priority),
        )
}

/// Whether the thread of slot `h` still waits for its deadline at `now`.
pub open spec fn waiting(threads: Seq<NativeThread>, h: usize, now: nat) -> bool {
    deadline_pending(threads[h - 1].deadline.deadline, now)
}

/// The scan of the ready queue: threads still waiting are moved to the
/// retired queue (idle threads are dropped) and the first thread that waits
/// no more is chosen. A waiting thread that finds the retired queue full
/// stops the scan and is handed back. Gives the outcome and the two queues
/// after it.
pub open spec fn scan_ready(
    threads: Seq<NativeThread>,
    ready: Seq<usize>,
    retired: Seq<usize>,
    now: nat,
) -> (Pick, Seq<usize>, Seq<usize>)
    decreases ready.len(),
{
    if ready.len() == 0 {
        (Pick::Nothing, ready, retired)
    } else {
        let c = ready[0];
        if !waiting(threads, c, now) {
            (Pick::Run(c), ready.drop_first(), retired)
        } else if threads[c - 1].priority is Idle {
            scan_ready(threads, ready.drop_first(), retired, now)
        } else if retired.len() + 1 < SIZE_OF_MAIN_QUEUE {
            scan_ready(threads, ready.drop_first(), retired.push(c), now)
        } else {
            (Pick::Full(c), ready.drop_first(), retired)
        }
    }
}

/// A scan that chooses nothing has gone through the whole ready queue.
pub proof fn lemma_scan_exhausts(threads: Seq<NativeThread>, ready: Seq<usize>, retired: Seq<usize>, now: nat)
    ensures
        scan_ready(threads, ready, retired, now).0 is Nothing ==> scan_ready(threads, ready, retired, now).1.len() == 0,
    decreases ready.len(),
{
    if ready.len() > 0 {
        let c = ready[0];
        if waiting(threads, c, now) {
            if threads[c - 1].priority is Idle {
                lemma_scan_exhausts(threads, ready.drop_first(), retired, now);
            } else if retired.len() + 1 < SIZE_OF_MAIN_QUEUE {
                lemma_scan_exhausts(threads, ready.drop_first(), retired.push(c), now);
            }
        }
    }
}

/// A thread that the scan chooses waits for no deadline.
pub proof fn lemma_scan_runs_only_elapsed(
    threads: Seq<NativeThread>,
    ready: Seq<usize>,
    retired: Seq<usize>,
    now: nat,
)
    ensures
        scan_ready(threads, ready, retired, now).0 matches Pick::Run(c) ==> !waiting(threads, c, now),
    decreases ready.len(),
{
    if ready.len() > 0 {
        let c = ready[0];
        if waiting(threads, c, now) {
            if threads[c - 1].priority is Idle {
                lemma_scan_runs_only_elapsed(threads, ready.drop_first(), retired, now);
            } else if retired.len() + 1 < SIZE_OF_MAIN_QUEUE {
                lemma_scan_runs_only_elapsed(threads, ready.drop_first(), retired.push(c), now);
            }
        }
    }
}

/// The scan chooses only threads of the ready queue it is given.
pub proof fn lemma_scan_chooses_ready(
    threads: Seq<NativeThread>,
    ready: Seq<usize>,
    retired: Seq<usize>,
    now: nat,
    n: nat,
)
    requires
        forall|i: int| 0 <= i < ready.len() ==> 1 <= #[trigger] ready[i] <= n,
        forall|i: int| 0 <= i < retired.len() ==> 1 <= #[trigger] retired[i] <= n,
    ensures
        scan_ready(threads, ready, retired, now).0 matches Pick::Run(c) ==> 1 <= c <= n,
        scan_ready(threads, ready, retired, now).0 matches Pick::Full(c) ==> 1 <= c <= n,
        forall|i: int|
            0 <= i < scan_ready(threads, ready, retired, now).1.len() ==> 1 <= #[trigger] scan_ready(
                threads,
                ready,
                retired,
                now,
            ).1[i] <= n,
        forall|i: int|
            0 <= i < scan_ready(threads, ready, retired, now).2.len() ==> 1 <= #[trigger] scan_ready(
                threads,
                ready,
                retired,
                now,
            ).2[i] <= n,
    decreases ready.len(),
{
    if ready.len() > 0 {
        let c = ready[0];
        assert(forall|i: int| 0 <= i < ready.drop_first().len() ==> ready.drop_first()[i] == ready[i + 1]);
        if waiting(threads, c, now) {
            if threads[c - 1].priority is Idle {
                lemma_scan_chooses_ready(threads, ready.drop_first(), retired, now, n);
            } else if retired.len() + 1 < SIZE_OF_MAIN_QUEUE {
                lemma_scan_chooses_ready(threads, ready.drop_first(), retired.push(c), now, n);
            }
        }
    }
}

/// Selection keeps the state well formed and chooses a thread of the pool.
pub proof fn lemma_next_wf(v: SchedulerView, now: nat)
    requires
        view_wf(v),
    ensures
        view_wf(next_model(v, now).1),
        next_model(v, now).1.threads == v.threads,
        next_model(v, now).1.locals == v.locals,
        next_model(v, now).0 matches Pick::Run(h) ==> in_pool(v, h),
        next_model(v, now).0 matches Pick::Full(h) ==> in_pool(v, h),
{
    if v.urgent.len() > 0 {
        assert(in_pool(v, v.urgent[0]));
    } else {
        lemma_scan_chooses_ready(v.threads, v.ready, v.retired, now, v.threads.len());
    }
}

/// Selection of the next thread: the urgent queue first; then the scan of
/// the ready queue; when that finds nothing, the whole retired queue moves
/// to the ready queue and no thread is chosen this time.
pub open spec fn next_model(v: SchedulerView, now: nat) -> (Pick, SchedulerView) {
    if v.urgent.len() > 0 {
        (Pick::Run(v.urgent[0]), SchedulerView { urgent: v.urgent.drop_first(), ..v })
    } else {
        let (c, ready, retired) = scan_ready(v.threads, v.ready, v.retired, now);
        if c is Nothing {
            (Pick::Nothing, SchedulerView { ready: retired, retired: Seq::empty(), ..v })
        } else {
            (c, SchedulerView { ready, retired, ..v })
        }
    }
}

/// Whether retiring the thread of slot `h` files it, or it need not be filed.
pub open spec fn retire_fits(v: SchedulerView, h: usize) -> bool {
    v.threads[h - 1].priority is Idle || v.retired.len() + 1 < SIZE_OF_MAIN_QUEUE
}

/// Retirement: a thread other than an idle one goes to the back of the
/// retired queue, when it has room.
pub open spec fn retire_model(v: SchedulerView, h: usize) -> SchedulerView {
    if v.threads[h - 1].priority is Idle {
        v
    } else {
        SchedulerView { retired: write_step(v.retired, h, SIZE_OF_MAIN_QUEUE as nat), ..v }
    }
}

/// The thread that runs next on processor `cpu`: the selection's choice, or
/// the processor's idle thread when there is none.
pub open spec fn incoming(v: SchedulerView, cpu: int, now: nat) -> usize {
    match next_model(v, now).0 {
        Pick::Run(h) => h,
        _ => v.locals[cpu].idle,
    }
}

/// Dispatch on processor `cpu`. When the incoming thread is the running one
/// nothing more happens; otherwise the processor counts the dispatch, keeps
/// the outgoing thread for retirement, runs the incoming one and gives it a
/// fresh time slice. When selection finds the retired queue full, the
/// thread it could not file is handed back and nothing else happens.
pub open spec fn dispatch_model(v: SchedulerView, cpu: int, now: nat) -> (DispatchView, SchedulerView) {
    let v1 = next_model(v, now).1;
    let next = incoming(v, cpu, now);
    let l = v.locals[cpu];
    if let Pick::Full(h) = next_model(v, now).0 {
        (Err(h), v1)
    } else if next == l.current {
        (Ok(None), v1)
    } else {
        let t = v1.threads[next - 1];
        (
            Ok(Some((l.current, next))),
            SchedulerView {
                locals: v1.locals.update(
                    cpu,
                    LocalView {
                        count: (if l.count == usize::MAX { 0 } else { (l.count + 1) as usize }),
                        retired: Some(l.current),
                        current: next,
                        ..l
                    },
                ),
                threads: v1.threads.update(next - 1, NativeThread { quantum: t.default_quantum, ..t }),
                ..v1
            },
        )
    }
}

/// Files the thread that processor `cpu` keeps for retirement, if any.
pub open spec fn setup_model(v: SchedulerView, cpu: int) -> SchedulerView {
    let l = v.locals[cpu];
    match l.retired {
        Some(h) => retire_model(
            SchedulerView { locals: v.locals.update(cpu, LocalView { retired: None, ..l }), ..v },
            h,
        ),
        None => v,
    }
}

/// The first step of a thread that resumes on processor `cpu`: its deadline
/// is cleared, then the thread switched away from is filed.
pub open spec fn resume_model(v: SchedulerView, cpu: int) -> SchedulerView {
    let c = v.locals[cpu].current;
    let t = v.threads[c - 1];
    setup_model(
        SchedulerView {
            threads: v.threads.update(c - 1, NativeThread { deadline: Timer { deadline: TimeMeasure(0) }, ..t }),
            ..v
        },
        cpu,
    )
}

/// A timer tick on processor `cpu`. Nothing happens before scheduling is
/// enabled, nor to a realtime thread; any other running thread has a tick
/// taken from its slice and, when the slice has run out, gives way.
pub open spec fn reschedule_model(v: SchedulerView, cpu: int, now: nat) -> (DispatchView, SchedulerView) {
    if !v.enabled {
        (Ok(None), v)
    } else {
        let c = v.locals[cpu].current;
        let t = v.threads[c - 1];
        if t.priority is Realtime {
            (Ok(None), v)
        } else {
            let (q, expired) = consume_step(t.quantum.0);
            let v1 = SchedulerView {
                threads: v.threads.update(c - 1, NativeThread { quantum: Quantum(q), ..t }),
                ..v
            };
            if expired {
                dispatch_model(v1, cpu, now)
            } else {
                (Ok(None), v1)
            }
        }
    }
}

/// Blocking on processor `cpu`: the running thread gets a deadline
/// `duration` from `now`, then the processor dispatches.
pub open spec fn wait_model(v: SchedulerView, cpu: int, now: nat, duration: TimeMeasure) -> (
    DispatchView,
    SchedulerView,
) {
    let c = v.locals[cpu].current;
    let t = v.threads[c - 1];
    dispatch_model(
        SchedulerView {
            threads: v.threads.update(
                c - 1,
                NativeThread { deadline: Timer { deadline: deadline_after(now, duration) }, ..t },
            ),
            ..v
        },
        cpu,
        now,
    )
}

/// Whether signalling finds the parked thread, if any, a place in the
/// urgent queue.
pub open spec fn signal_queued(v: SchedulerView, parked: Option<usize>) -> bool {
    match parked {
        Some(h) => 1 <= h <= v.threads.len() && v.urgent.len() + 1 < SIZE_OF_URGENT_QUEUE,
        None => true,
    }
}

/// Signalling: the parked thread, if there is one and it belongs to the
/// pool, goes to the back of the urgent queue when that has room.
pub open spec fn signal_model(v: SchedulerView, parked: Option<usize>) -> SchedulerView {
    match parked {
        Some(h) => if 1 <= h <= v.threads.len() {
            SchedulerView { urgent: write_step(v.urgent, h, SIZE_OF_URGENT_QUEUE as nat), ..v }
        } else {
            v
        },
        None => v,
    }
}

} // verus!
