//! The scheduler proper: per-processor state, the system-wide queues, thread
//! selection, dispatch, time slicing, blocking and signalling.
use vstd::prelude::*;
use crate::policy::{
    dispatch_model, in_pool, lemma_next_wf, lemma_scan_exhausts, new_thread, next_model,
    reschedule_model, resume_model, retire_fits, retire_model, scan_ready, setup_model,
    signal_model, signal_queued, view_wf, wait_model, lemma_scan_runs_only_elapsed, waiting,
    DispatchView, LocalView, Pick, SchedulerView, SwitchView,
    NUMBER_OF_FILLER_THREADS, SIZE_OF_MAIN_QUEUE, SIZE_OF_URGENT_QUEUE,
};
use crate::pool::{valid_handle, ThreadPool};
use crate::queue::{is_pow2, write_step, ThreadQueue};
use crate::thread::{quantum_of, NativeThread, Priority, Quantum, ThreadHandle, ThreadId};
use crate::signal::SignallingObject;
use crate::time::{deadline_after, TimeMeasure, Timer, TimerSource};

verus! {

/// The view of an optional handle.
pub open spec fn handle_view(h: Option<ThreadHandle>) -> Option<usize> {
    match h {
        Some(h) => Some(h@),
        None => None,
    }
}

/// The view of a selection's result.
pub open spec fn pick_view(r: Result<Option<ThreadHandle>, ThreadHandle>) -> Pick {
    match r {
        Ok(Some(h)) => Pick::Run(h@),
        Ok(None) => Pick::Nothing,
        Err(h) => Pick::Full(h@),
    }
}

/// The selection outcome that a scan loop stopped on.
pub open spec fn pick_of(chosen: Option<ThreadHandle>, full: bool) -> Pick {
    match chosen {
        Some(h) => if full {
            Pick::Full(h@)
        } else {
            Pick::Run(h@)
        },
        None => Pick::Nothing,
    }
}

/// The view of a dispatch's result.
pub open spec fn dispatch_view(r: Result<Dispatch, ThreadHandle>) -> DispatchView {
    match r {
        Ok(d) => Ok(d.view()),
        Err(h) => Err(h@),
    }
}

/// What a processor is to do after a scheduling decision.
#[derive(Debug, Clone, Copy, PartialEq, Eq, Structural)]
pub enum Dispatch {
    /// Keep running the present thread.
    Stay,
    /// Save the context of `from` and resume the context of `to`.
    Switch { from: ThreadHandle, to: ThreadHandle },
}

impl Dispatch {
    pub open spec fn view(self) -> SwitchView {
        match self {
            Dispatch::Stay => None,
            Dispatch::Switch { from, to } => Some((from@, to@)),
        }
    }
}

/// One processor's scheduler.
#[derive(Clone, Copy)]
pub struct LocalScheduler {
    index: usize,
    count: usize,
    idle: ThreadHandle,
    current: ThreadHandle,
    retired: Option<ThreadHandle>,
}

impl View for LocalScheduler {
    type V = LocalView;

    closed spec fn view(&self) -> LocalView {
        LocalView {
            index: self.index,
            count: self.count,
            idle: self.idle@,
            current: self.current@,
            retired: handle_view(self.retired),
        }
    }
}

impl LocalScheduler {
    /// The thread running on this processor.
    pub fn current_thread(&self) -> (r: ThreadHandle)
        ensures
            r@ == self@.current,
    {
        self.current
    }

    /// The processor's idle thread.
    pub fn idle_thread(&self) -> (r: ThreadHandle)
        ensures
            r@ == self@.idle,
    {
        self.idle
    }

    /// Index of the processor.
    pub fn index(&self) -> (r: usize)
        ensures
            r == self@.index,
    {
        self.index
    }

    /// Number of context switches made on this processor (it wraps).
    pub fn count(&self) -> (r: usize)
        ensures
            r == self@.count,
    {
        self.count
    }
}

impl NativeThread {
    /// Creates a thread of `priority` in the pool of `sch`: the next thread
    /// number, a full slice for the priority, no deadline. Its context is
    /// primed by the platform before it is first dispatched.
    pub fn new(sch: &mut GlobalScheduler, priority: Priority) -> (r: ThreadHandle)
        requires
            old(sch).wf(),
            old(sch)@.threads.len() + 2 < usize::MAX,
        ensures
            final(sch).wf(),
            r@ == final(sch)@.threads.len(),
            final(sch)@ == (SchedulerView {
                threads: old(sch)@.threads.push(new_thread(old(sch)@.threads.len(), priority)),
                ..old(sch)@
            }),
    {
        let ghost v0 = sch@;
        let quantum = Quantum::from(priority);
        let id = ThreadId(sch.next_thread_id);
        sch.next_thread_id = sch.next_thread_id + 1;
        let h = sch.pool.add(
            NativeThread {
                id,
                priority,
                quantum,
                default_quantum: quantum,
                deadline: Timer::null(),
            },
        );
        assert(sch@.locals == v0.locals);
        assert forall|i: int| 0 <= i < sch@.threads.len() implies (#[trigger] sch@.threads[i]).default_quantum
            == Quantum(quantum_of(sch@.threads[i].priority)) by {
            if i < v0.threads.len() {
                assert(v0.threads[i].default_quantum == Quantum(quantum_of(v0.threads[i].priority)));
            }
        }
        h
    }

    /// The thread running on processor `cpu`.
    pub fn current(sch: &GlobalScheduler, cpu: usize) -> (r: ThreadHandle)
        requires
            cpu < sch@.locals.len(),
        ensures
            r@ == sch@.locals[cpu as int].current,
    {
        sch.local_scheduler(cpu).current_thread()
    }

    /// Number of the thread running on processor `cpu`.
    pub fn current_id(sch: &GlobalScheduler, cpu: usize) -> (r: ThreadId)
        requires
            sch.wf(),
            cpu < sch@.locals.len(),
        ensures
            r == sch@.threads[sch@.locals[cpu as int].current - 1].id,
    {
        let h = Self::current(sch, cpu);
        sch.thread(h).id
    }
}

impl LocalScheduler {
    /// The scheduler of processor `index`, with a new idle thread that is
    /// also the running one.
    pub fn new(sch: &mut GlobalScheduler, index: usize) -> (r: LocalScheduler)
        requires
            old(sch).wf(),
            old(sch)@.threads.len() + 2 < usize::MAX,
        ensures
            final(sch).wf(),
            final(sch)@ == (SchedulerView {
                threads: old(sch)@.threads.push(new_thread(old(sch)@.threads.len(), Priority::Idle)),
                ..old(sch)@
            }),
            r@ == (LocalView {
                index,
                count: 0,
                idle: final(sch)@.threads.len() as usize,
                current: final(sch)@.threads.len() as usize,
                retired: None,
            }),
    {
        let idle = NativeThread::new(sch, Priority::Idle);
        LocalScheduler { index, count: 0, idle, current: idle, retired: None }
    }
}

/// Whether the `k`-th of the handles `r` names the thread of slot
/// `base + k + 1`, a new normal-priority thread.
pub open spec fn filed_worker(v: SchedulerView, r: Seq<ThreadHandle>, base: int, k: int) -> bool {
    &&& r[k]@ == base + k + 1
    &&& v.threads[base + k] == new_thread((base + k) as nat, Priority::Normal)
}

/// The dispatch view of a sleep's result; none when the caller is to wait
/// on a timer.
pub open spec fn sleep_view(r: Result<Sleep, ThreadHandle>) -> Option<DispatchView> {
    match r {
        Ok(Sleep::Dispatched(d)) => Some(Ok(d.view())),
        Ok(Sleep::Until(_)) => None,
        Err(h) => Some(Err(h@)),
    }
}

/// What a sleeping thread is to do.
#[derive(Debug, Clone, Copy, PartialEq, Eq, Structural)]
pub enum Sleep {
    /// Scheduling is enabled: the thread blocked and the processor dispatches.
    Dispatched(Dispatch),
    /// Scheduling is not enabled yet: halt the processor until the timer
    /// expires.
    Until(Timer),
}

impl Timer {
    /// Sleeps the thread running on processor `cpu` for `duration`: blocks
    /// it once scheduling is enabled, else leaves the wait to the caller.
    pub fn sleep<S: TimerSource>(
        sch: &mut GlobalScheduler,
        cpu: usize,
        clock: &S,
        duration: TimeMeasure,
    ) -> (r: Result<Sleep, ThreadHandle>)
        requires
            old(sch).wf(),
            old(sch)@.enabled ==> cpu < old(sch)@.locals.len(),
        ensures
            final(sch).wf(),
            old(sch)@.enabled ==> (sleep_view(r), final(sch)@) == (
                Some(wait_model(old(sch)@, cpu as int, clock.now(), duration).0),
                wait_model(old(sch)@, cpu as int, clock.now(), duration).1,
            ),
            !old(sch)@.enabled ==> r == Ok::<Sleep, ThreadHandle>(
                Sleep::Until(Timer { deadline: deadline_after(clock.now(), duration) }),
            ) && final(sch)@ == old(sch)@,
    {
        if sch.is_enabled() {
            match sch.wait_for(None, cpu, clock, duration) {
                Ok(d) => Ok(Sleep::Dispatched(d)),
                Err(h) => Err(h),
            }
        } else {
            Ok(Sleep::Until(Timer::new(clock, duration)))
        }
    }

    /// Sleeps for `us` microseconds.
    pub fn usleep<S: TimerSource>(sch: &mut GlobalScheduler, cpu: usize, clock: &S, us: u64) -> (r: Result<Sleep, ThreadHandle>)
        requires
            old(sch).wf(),
            old(sch)@.enabled ==> cpu < old(sch)@.locals.len(),
        ensures
            final(sch).wf(),
            old(sch)@.enabled ==> (sleep_view(r), final(sch)@) == (
                Some(wait_model(old(sch)@, cpu as int, clock.now(), TimeMeasure(us as i64)).0),
                wait_model(old(sch)@, cpu as int, clock.now(), TimeMeasure(us as i64)).1,
            ),
            !old(sch)@.enabled ==> r == Ok::<Sleep, ThreadHandle>(
                Sleep::Until(Timer { deadline: deadline_after(clock.now(), TimeMeasure(us as i64)) }),
            ) && final(sch)@ == old(sch)@,
    {
        Self::sleep(sch, cpu, clock, TimeMeasure::from_micros(us))
    }
}

impl SignallingObject {
    /// Parks the thread running on processor `cpu` on this object for at
    /// most `duration`.
    pub fn wait<S: TimerSource>(
        &mut self,
        sch: &mut GlobalScheduler,
        cpu: usize,
        clock: &S,
        duration: TimeMeasure,
    ) -> (r: Result<Dispatch, ThreadHandle>)
        requires
            old(sch).wf(),
            old(sch)@.started,
            cpu < old(sch)@.locals.len(),
        ensures
            final(sch).wf(),
            (dispatch_view(r), final(sch)@) == wait_model(old(sch)@, cpu as int, clock.now(), duration),
            final(self)@ == if old(self)@ is None {
                Some(old(sch)@.locals[cpu as int].current)
            } else {
                old(self)@
            },
    {
        sch.wait_for(Some(self), cpu, clock, duration)
    }

    /// Wakes the thread parked on this object through the urgent queue; a
    /// parked thread that finds no place there is handed back.
    pub fn signal(&mut self, sch: &mut GlobalScheduler) -> (r: Result<(), ThreadHandle>)
        requires
            old(sch).wf(),
            old(sch)@.started,
        ensures
            final(sch).wf(),
            final(sch)@ == signal_model(old(sch)@, old(self)@),
            final(self)@ is None,
            r is Ok <==> signal_queued(old(sch)@, old(self)@),
            r matches Err(h) ==> old(self)@ == Some(h@),
    {
        sch.signal(self)
    }
}

/// Entry hook of a new thread's first dispatch on processor `cpu`: files the
/// thread switched away from in the retired queue, as resumption does for
/// threads that ran before. A full queue hands that thread back.
pub fn sch_setup_new_thread(sch: &mut GlobalScheduler, cpu: usize) -> (r: Result<(), ThreadHandle>)
    requires
        old(sch).wf(),
        old(sch)@.started,
        cpu < old(sch)@.locals.len(),
    ensures
        final(sch).wf(),
        final(sch)@ == setup_model(old(sch)@, cpu as int),
        r is Ok <==> (old(sch)@.locals[cpu as int].retired matches Some(h) ==> retire_fits(old(sch)@, h)),
        r matches Err(h) ==> old(sch)@.locals[cpu as int].retired == Some(h@),
{
    sch.retire_kept(cpu)
}

/// The queues as held in the scheduler: absent before start.
pub open spec fn queue_view(q: Option<Box<ThreadQueue>>) -> Seq<usize> {
    match q {
        Some(q) => q.view(),
        None => Seq::empty(),
    }
}

pub open spec fn queue_ok(q: Option<Box<ThreadQueue>>, cap: nat) -> bool {
    q matches Some(q) ==> q.wf() && q.capacity() == cap
}

/// The system-wide scheduler.
pub struct GlobalScheduler {
    next_thread_id: usize,
    pool: ThreadPool,
    urgent: Option<Box<ThreadQueue>>,
    ready: Option<Box<ThreadQueue>>,
    retired: Option<Box<ThreadQueue>>,
    locals: Vec<LocalScheduler>,
    is_enabled: bool,
}

impl View for GlobalScheduler {
    type V = SchedulerView;

    closed spec fn view(&self) -> SchedulerView {
        SchedulerView {
            threads: self.pool@,
            urgent: queue_view(self.urgent),
            ready: queue_view(self.ready),
            retired: queue_view(self.retired),
            locals: self.locals@.map_values(|l: LocalScheduler| l@),
            started: self.urgent is Some,
            enabled: self.is_enabled,
        }
    }
}

/// Files `h` at the back of `retired`, unless it is an idle thread; hands it
/// back when the queue is full.
fn retire_into(pool: &ThreadPool, retired: &mut ThreadQueue, h: ThreadHandle) -> (r: Result<(), ThreadHandle>)
    requires
        old(retired).wf(),
        old(retired).capacity() == SIZE_OF_MAIN_QUEUE,
        valid_handle(h@, pool@.len()),
    ensures
        final(retired).wf(),
        final(retired).capacity() == SIZE_OF_MAIN_QUEUE,
        pool@[h@ - 1].priority is Idle ==> r is Ok && final(retired).view() == old(retired).view(),
        !(pool@[h@ - 1].priority is Idle) ==> final(retired).view() == write_step(
            old(retired).view(),
            h@,
            SIZE_OF_MAIN_QUEUE as nat,
        ) && (r is Ok <==> old(retired).view().len() + 1 < SIZE_OF_MAIN_QUEUE) && (r matches Err(
            e,
        ) ==> e == h),
{
    let t = pool.get(h);
    if t.priority.useful() {
        match retired.write(h) {
            Ok(()) => Ok(()),
            Err(()) => Err(h),
        }
    } else {
        Ok(())
    }
}

impl GlobalScheduler {
    pub closed spec fn wf(&self) -> bool {
        &&& self.next_thread_id == self.pool@.len()
        &&& self.pool@.len() < usize::MAX
        &&& (self.urgent is Some) == (self.ready is Some)
        &&& (self.urgent is Some) == (self.retired is Some)
        &&& queue_ok(self.urgent, SIZE_OF_URGENT_QUEUE as nat)
        &&& queue_ok(self.ready, SIZE_OF_MAIN_QUEUE as nat)
        &&& queue_ok(self.retired, SIZE_OF_MAIN_QUEUE as nat)
        &&& self.is_enabled ==> self.urgent is Some
        &&& view_wf(self@)
    }

    /// A well-formed scheduler's abstract state is well formed.
    pub proof fn lemma_wf_view(&self)
        requires
            self.wf(),
        ensures
            view_wf(self@),
    {
    }

    /// An inert scheduler: no threads, no queues, no processors, disabled.
    pub fn new() -> (r: GlobalScheduler)
        ensures
            r.wf(),
            r@.threads.len() == 0,
            r@.locals.len() == 0,
            !r@.started,
            !r@.enabled,
    {
        GlobalScheduler {
            next_thread_id: 0,
            pool: ThreadPool::new(),
            urgent: None,
            ready: None,
            retired: None,
            locals: Vec::new(),
            is_enabled: false,
        }
    }

    /// The scheduler of processor `cpu`.
    pub fn local_scheduler(&self, cpu: usize) -> (r: &LocalScheduler)
        requires
            cpu < self@.locals.len(),
        ensures
            r@ == self@.locals[cpu as int],
    {
        &self.locals[cpu]
    }

    /// Number of processors.
    pub fn cpu_count(&self) -> (r: usize)
        ensures
            r == self@.locals.len(),
    {
        self.locals.len()
    }

    /// The dispatch count of each processor, by index.
    pub fn statistics(&self) -> (r: Vec<usize>)
        ensures
            r@.len() == self@.locals.len(),
            forall|i: int| 0 <= i < r@.len() ==> r@[i] == #[trigger] self@.locals[i].count,
    {
        let mut counts: Vec<usize> = Vec::new();
        let mut i: usize = 0;
        while i < self.locals.len()
            invariant
                i <= self@.locals.len(),
                counts@.len() == i,
                forall|j: int| 0 <= j < i ==> counts@[j] == #[trigger] self@.locals[j].count,
            decreases self@.locals.len() - i,
        {
            counts.push(self.locals[i].count);
            i = i + 1;
        }
        counts
    }

    /// Sets the scheduler up on `cpus` processors and enables it: allocates
    /// the three queues, gives each processor its idle thread, and files the
    /// filler workers and, last, the entry thread in the retired queue. The
    /// handles of the workers and the entry thread are returned, in that
    /// order, for the platform to prime their contexts.
    #[verifier::rlimit(40)]
    pub fn start(&mut self, cpus: usize) -> (r: Vec<ThreadHandle>)
        requires
            old(self).wf(),
            !old(self)@.started,
            old(self)@.locals.len() == 0,
            old(self)@.threads.len() + cpus + NUMBER_OF_FILLER_THREADS + 4 < usize::MAX,
        ensures
            final(self).wf(),
            final(self)@.started,
            final(self)@.enabled,
            final(self)@.urgent.len() == 0,
            final(self)@.ready.len() == 0,
            final(self)@.locals.len() == cpus,
            final(self)@.threads.len() == old(self)@.threads.len() + cpus + NUMBER_OF_FILLER_THREADS + 1,
            forall|i: int|
                0 <= i < cpus ==> #[trigger] final(self)@.locals[i] == (LocalView {
                    index: i as usize,
                    count: 0,
                    idle: (old(self)@.threads.len() + i + 1) as usize,
                    current: (old(self)@.threads.len() + i + 1) as usize,
                    retired: None,
                }),
            forall|i: int|
                0 <= i < old(self)@.threads.len() ==> #[trigger] final(self)@.threads[i]
                    == old(self)@.threads[i],
            forall|i: int|
                0 <= i < cpus ==> #[trigger] final(self)@.threads[old(self)@.threads.len() + i]
                    == new_thread((old(self)@.threads.len() + i) as nat, Priority::Idle),
            r@.len() == NUMBER_OF_FILLER_THREADS + 1,
            forall|k: int|
                0 <= k < r@.len() ==> #[trigger] filed_worker(
                    final(self)@,
                    r@,
                    old(self)@.threads.len() + cpus,
                    k,
                ),
            final(self)@.retired == r@.map_values(|h: ThreadHandle| h@),
    {
        let ghost n0 = self@.threads.len();
        let ghost t0 = self@.threads;
        proof {
            reveal_with_fuel(is_pow2, 11);
        }
        self.urgent = Some(ThreadQueue::with_capacity(SIZE_OF_URGENT_QUEUE));
        self.ready = Some(ThreadQueue::with_capacity(SIZE_OF_MAIN_QUEUE));
        self.retired = Some(ThreadQueue::with_capacity(SIZE_OF_MAIN_QUEUE));
        let mut index: usize = 0;
        while index < cpus
            invariant
                self.wf(),
                self@.started,
                !self@.enabled,
                self@.urgent.len() == 0,
                self@.ready.len() == 0,
                self@.retired.len() == 0,
                index <= cpus,
                self@.locals.len() == index,
                self@.threads.len() == n0 + index,
                n0 + cpus + NUMBER_OF_FILLER_THREADS + 4 < usize::MAX,
                forall|i: int| 0 <= i < n0 ==> #[trigger] self@.threads[i] == t0[i],
                forall|i: int|
                    0 <= i < index ==> #[trigger] self@.locals[i] == (LocalView {
                        index: i as usize,
                        count: 0,
                        idle: (n0 + i + 1) as usize,
                        current: (n0 + i + 1) as usize,
                        retired: None,
                    }),
                forall|i: int|
                    0 <= i < index ==> #[trigger] self@.threads[n0 + i] == new_thread(
                        (n0 + i) as nat,
                        Priority::Idle,
                    ),
            decreases cpus - index,
        {
            let ghost v1 = self@;
            let local = LocalScheduler::new(self, index);
            let ghost v2 = self@;
            self.locals.push(local);
            assert(self@.locals =~= v2.locals.push(local@));
            assert forall|i: int| 0 <= i < self@.locals.len() implies {
                &&& in_pool(self@, (#[trigger] self@.locals[i]).idle)
                &&& in_pool(self@, self@.locals[i].current)
                &&& (self@.locals[i].retired matches Some(h) ==> in_pool(self@, h))
            } by {
                if i < index {
                    assert(self@.locals[i] == v1.locals[i]);
                }
            }
            index = index + 1;
        }
        let ghost v3 = self@;
        let mut created: Vec<ThreadHandle> = Vec::new();
        let mut k: usize = 0;
        // the filler workers, then the entry thread
        while k < NUMBER_OF_FILLER_THREADS + 1
            invariant
                self.wf(),
                self@.started,
                !self@.enabled,
                self@.urgent.len() == 0,
                self@.ready.len() == 0,
                self@.locals == v3.locals,
                k <= NUMBER_OF_FILLER_THREADS + 1,
                self@.threads.len() == n0 + cpus + k,
                v3.threads.len() == n0 + cpus,
                n0 + cpus + NUMBER_OF_FILLER_THREADS + 4 < usize::MAX,
                forall|i: int| 0 <= i < n0 + cpus ==> #[trigger] self@.threads[i] == v3.threads[i],
                created@.len() == k,
                forall|j: int| 0 <= j < k ==> #[trigger] filed_worker(self@, created@, n0 + cpus, j),
                self@.retired == created@.map_values(|h: ThreadHandle| h@),
            decreases NUMBER_OF_FILLER_THREADS + 1 - k,
        {
            let ghost v4 = self@;
            let ghost c4 = created@;
            let h = NativeThread::new(self, Priority::Normal);
            let ghost v5 = self@;
            let _ = self.retire(h);
            assert(self@.threads == v5.threads);
            created.push(h);
            assert(self@.retired =~= created@.map_values(|h: ThreadHandle| h@));
            assert(created@[k as int] == h);
            assert(self@.threads[n0 + cpus + k] == new_thread((n0 + cpus + k) as nat, Priority::Normal));
            assert forall|j: int| 0 <= j < k + 1 implies #[trigger] filed_worker(self@, created@, n0 + cpus, j) by {
                if j < k {
                    assert(filed_worker(v4, c4, n0 + cpus, j));
                    assert(created@[j] == c4[j]);
                    assert(v5.threads[n0 + cpus + j] == v4.threads[n0 + cpus + j]);
                }
            }
            k = k + 1;
        }
        let ghost v6 = self@;
        self.is_enabled = true;
        assert forall|j: int| 0 <= j < created@.len() implies #[trigger] filed_worker(self@, created@, n0 + cpus, j) by {
            assert(filed_worker(v6, created@, n0 + cpus, j));
        }
        created
    }

    /// Whether the queues and processors are set up.
    pub fn is_started(&self) -> (r: bool)
        ensures
            r == self@.started,
    {
        self.urgent.is_some()
    }

    /// Whether timer ticks may preempt.
    pub fn is_enabled(&self) -> (r: bool)
        ensures
            r == self@.enabled,
    {
        self.is_enabled
    }

    /// Number of threads created so far.
    pub fn thread_count(&self) -> (r: usize)
        requires
            self.wf(),
        ensures
            r == self@.threads.len(),
    {
        self.pool.len()
    }

    /// The control block of `h`.
    pub fn thread(&self, h: ThreadHandle) -> (r: NativeThread)
        requires
            self.wf(),
            in_pool(self@, h@),
        ensures
            r == self@.threads[h@ - 1],
    {
        self.pool.get(h)
    }

    /// Files `thread` at the back of the retired queue; idle threads are never
    /// filed. A full queue hands the thread back.
    pub fn retire(&mut self, thread: ThreadHandle) -> (r: Result<(), ThreadHandle>)
        requires
            old(self).wf(),
            old(self)@.started,
            in_pool(old(self)@, thread@),
        ensures
            final(self).wf(),
            final(self)@ == retire_model(old(self)@, thread@),
            r is Ok <==> retire_fits(old(self)@, thread@),
            r matches Err(h) ==> h == thread,
    {
        let mut retired = self.retired.take().unwrap();
        let r = retire_into(&self.pool, &mut retired, thread);
        self.retired = Some(retired);
        proof {
            assert(self@ == retire_model(old(self)@, thread@));
        }
        r
    }

    /// Sets the slice and the deadline of thread `h`.
    fn set_thread_state(&mut self, h: ThreadHandle, quantum: Quantum, deadline: Timer)
        requires
            old(self).wf(),
            in_pool(old(self)@, h@),
        ensures
            final(self).wf(),
            final(self)@ == (SchedulerView {
                threads: old(self)@.threads.update(
                    h@ - 1,
                    NativeThread { quantum, deadline, ..old(self)@.threads[h@ - 1] },
                ),
                ..old(self)@
            }),
    {
        let ghost v0 = self@;
        let mut t = self.pool.get(h);
        t.quantum = quantum;
        t.deadline = deadline;
        self.pool.update(h, t);
        assert forall|i: int| 0 <= i < self@.threads.len() implies (#[trigger] self@.threads[i]).default_quantum
            == Quantum(quantum_of(self@.threads[i].priority)) by {
            assert(v0.threads[i].default_quantum == Quantum(quantum_of(v0.threads[i].priority)));
        }
    }

    /// Replaces the state of processor `cpu`.
    fn set_local(&mut self, cpu: usize, local: LocalScheduler)
        requires
            old(self).wf(),
            cpu < old(self)@.locals.len(),
            in_pool(old(self)@, local@.idle),
            in_pool(old(self)@, local@.current),
            local@.retired matches Some(h) ==> in_pool(old(self)@, h),
        ensures
            final(self).wf(),
            final(self)@ == (SchedulerView {
                locals: old(self)@.locals.update(cpu as int, local@),
                ..old(self)@
            }),
    {
        let ghost v0 = self@;
        self.locals.set(cpu, local);
        assert(self@.locals =~= v0.locals.update(cpu as int, local@));
        assert forall|i: int| 0 <= i < self@.locals.len() implies {
            &&& in_pool(self@, (#[trigger] self@.locals[i]).idle)
            &&& in_pool(self@, self@.locals[i].current)
            &&& (self@.locals[i].retired matches Some(h) ==> in_pool(self@, h))
        } by {
            if i != cpu {
                assert(self@.locals[i] == v0.locals[i]);
            }
        }
    }

    /// Hands the thread parked in `object`, if any, to the urgent queue, so
    /// that it is the next thread chosen ahead of every ready thread. The
    /// object is emptied. A parked handle that names no thread of the pool,
    /// or that finds the urgent queue full, is handed back.
    pub fn signal(&mut self, object: &mut SignallingObject) -> (r: Result<(), ThreadHandle>)
        requires
            old(self).wf(),
            old(self)@.started,
        ensures
            final(self).wf(),
            final(self)@ == signal_model(old(self)@, old(object)@),
            final(object)@ is None,
            r is Ok <==> signal_queued(old(self)@, old(object)@),
            r matches Err(h) ==> old(object)@ == Some(h@),
    {
        let parked = object.unbox();
        match parked {
            Some(h) => {
                if h.as_usize() > self.pool.len() {
                    return Err(h);
                } else {
                    let ghost v0 = self@;
                    let mut urgent = self.urgent.take().unwrap();
                    let written = urgent.write(h);
                    self.urgent = Some(urgent);
                    assert(self@.ready == v0.ready && self@.retired == v0.retired);
                    assert forall|i: int| 0 <= i < self@.urgent.len() implies in_pool(
                        self@,
                        #[trigger] self@.urgent[i],
                    ) by {
                        if i < v0.urgent.len() {
                            assert(in_pool(v0, v0.urgent[i]));
                        }
                    }
                    match written {
                        Ok(()) => Ok(()),
                        Err(()) => Err(h),
                    }
                }
            },
            None => Ok(()),
        }
    }

    /// Chooses the next thread to run: the oldest urgent thread; else the
    /// first ready thread that waits for no deadline, while the ready threads
    /// still waiting before it move to the retired queue; else none, after
    /// moving every retired thread to the ready queue. A waiting thread that
    /// finds the retired queue full is handed back as the error.
    pub fn next<S: TimerSource>(&mut self, clock: &S) -> (r: Result<Option<ThreadHandle>, ThreadHandle>)
        requires
            old(self).wf(),
            old(self)@.started,
        ensures
            final(self).wf(),
            (pick_view(r), final(self)@) == next_model(old(self)@, clock.now()),
            old(self)@.urgent.len() == 0 ==> (r matches Ok(Some(h)) ==> !waiting(
                old(self)@.threads,
                h@,
                clock.now(),
            )),
    {
        proof {
            lemma_scan_runs_only_elapsed(self@.threads, self@.ready, self@.retired, clock.now());
        }
        let ghost v0 = self@;
        let ghost now = clock.now();
        let mut urgent = self.urgent.take().unwrap();
        let first = urgent.read();
        self.urgent = Some(urgent);
        if first.is_some() {
            proof {
                assert(self@ == next_model(v0, now).1);
            }
            return Ok(first);
        }
        assert(self@ == v0);
        let mut ready = self.ready.take().unwrap();
        let mut retired = self.retired.take().unwrap();
        let ghost target = scan_ready(v0.threads, v0.ready, v0.retired, now);
        let mut chosen: Option<ThreadHandle> = None;
        let mut full = false;
        loop
            invariant_except_break
                chosen is None,
                !full,
                scan_ready(v0.threads, ready.view(), retired.view(), now) == target,
            invariant
                ready.wf(),
                ready.capacity() == SIZE_OF_MAIN_QUEUE,
                retired.wf(),
                retired.capacity() == SIZE_OF_MAIN_QUEUE,
                self.pool@ == v0.threads,
                now == clock.now(),
                forall|i: int| 0 <= i < ready.view().len() ==> in_pool(v0, #[trigger] ready.view()[i]),
                forall|i: int|
                    0 <= i < retired.view().len() ==> in_pool(v0, #[trigger] retired.view()[i]),
            ensures
                target == (pick_of(chosen, full), ready.view(), retired.view()),
            decreases ready.view().len(),
        {
            let ghost rv = ready.view();
            let ghost tv = retired.view();
            match ready.read() {
                None => {
                    break;
                },
                Some(h) => {
                    assert(in_pool(v0, rv[0]));
                    let t = self.pool.get(h);
                    let pending = t.deadline.until(clock);
                    if pending {
                        match retire_into(&self.pool, &mut retired, h) {
                            Ok(()) => {
                                assert(scan_ready(v0.threads, rv, tv, now) == scan_ready(
                                    v0.threads,
                                    ready.view(),
                                    retired.view(),
                                    now,
                                ));
                            },
                            Err(h) => {
                                chosen = Some(h);
                                full = true;
                                break;
                            },
                        }
                    } else {
                        chosen = Some(h);
                        break;
                    }
                },
            }
        }
        if let Some(h) = chosen {
            self.ready = Some(ready);
            self.retired = Some(retired);
            proof {
                assert(self@ == next_model(v0, now).1);
            }
            if full {
                return Err(h);
            }
            return Ok(Some(h));
        }
        let ghost moved = retired.view();
        proof {
            lemma_scan_exhausts(v0.threads, v0.ready, v0.retired, now);
            retired.lemma_bounded();
        }
        loop
            invariant
                ready.wf(),
                ready.capacity() == SIZE_OF_MAIN_QUEUE,
                retired.wf(),
                retired.capacity() == SIZE_OF_MAIN_QUEUE,
                ready.view() + retired.view() == moved,
                moved.len() < SIZE_OF_MAIN_QUEUE,
            ensures
                ready.view() == moved,
                retired.view().len() == 0,
            decreases retired.view().len(),
        {
            let ghost rv = ready.view();
            let ghost tv = retired.view();
            match retired.read() {
                None => {
                    assert(tv.len() == 0);
                    assert(rv + tv =~= rv);
                    break;
                },
                Some(h) => {
                    let _ = ready.write(h);
                    assert(ready.view() + retired.view() =~= rv + tv);
                },
            }
        }
        self.ready = Some(ready);
        self.retired = Some(retired);
        proof {
            assert(retired.view() =~= Seq::<usize>::empty());
            assert(self@ == next_model(v0, now).1);
        }
        Ok(None)
    }

    /// Dispatch on processor `cpu`: runs the chosen thread, or the idle
    /// thread when none is chosen. Switching to another thread counts the
    /// dispatch, keeps the outgoing thread for retirement once the switch is
    /// done, and gives the incoming thread a fresh time slice. When selection
    /// finds the retired queue full, the thread it could not file is handed
    /// back and the processor keeps its state.
    pub fn next_thread<S: TimerSource>(&mut self, cpu: usize, clock: &S) -> (r: Result<Dispatch, ThreadHandle>)
        requires
            old(self).wf(),
            old(self)@.started,
            cpu < old(self)@.locals.len(),
        ensures
            final(self).wf(),
            (dispatch_view(r), final(self)@) == dispatch_model(old(self)@, cpu as int, clock.now()),
            old(self)@.urgent.len() == 0 ==> (r matches Ok(Dispatch::Switch { from, to }) ==> to@
                == old(self)@.locals[cpu as int].idle || !waiting(old(self)@.threads, to@, clock.now())),
    {
        let ghost v0 = self@;
        proof {
            lemma_next_wf(v0, clock.now());
        }
        let chosen = self.next(clock);
        let mut local = self.locals[cpu];
        let current = local.current;
        let next = match chosen {
            Ok(Some(h)) => h,
            Ok(None) => local.idle,
            Err(h) => {
                return Err(h);
            },
        };
        assert(self@.locals[cpu as int] == local@);
        if next.as_usize() == current.as_usize() {
            return Ok(Dispatch::Stay);
        }
        local.count = local.count.wrapping_add(1);
        local.retired = Some(current);
        local.current = next;
        self.set_local(cpu, local);
        let t = self.pool.get(next);
        self.set_thread_state(next, t.default_quantum, t.deadline);
        Ok(Dispatch::Switch { from: current, to: next })
    }

    fn retire_kept(&mut self, cpu: usize) -> (r: Result<(), ThreadHandle>)
        requires
            old(self).wf(),
            old(self)@.started,
            cpu < old(self)@.locals.len(),
        ensures
            final(self).wf(),
            final(self)@ == setup_model(old(self)@, cpu as int),
            r is Ok <==> (old(self)@.locals[cpu as int].retired matches Some(h) ==> retire_fits(
                old(self)@,
                h,
            )),
            r matches Err(h) ==> old(self)@.locals[cpu as int].retired == Some(h@),
    {
        let mut local = self.locals[cpu];
        assert(self@.locals[cpu as int] == local@);
        match local.retired {
            Some(h) => {
                local.retired = None;
                self.set_local(cpu, local);
                self.retire(h)
            },
            None => Ok(()),
        }
    }

    /// The first step of a thread that a context switch resumed on processor
    /// `cpu`: its deadline is cleared, and the thread switched away from is
    /// filed in the retired queue. A full queue hands that thread back.
    pub fn resume_thread(&mut self, cpu: usize) -> (r: Result<(), ThreadHandle>)
        requires
            old(self).wf(),
            old(self)@.started,
            cpu < old(self)@.locals.len(),
        ensures
            final(self).wf(),
            final(self)@ == resume_model(old(self)@, cpu as int),
            r is Ok <==> (old(self)@.locals[cpu as int].retired matches Some(h) ==> retire_fits(
                old(self)@,
                h,
            )),
            r matches Err(h) ==> old(self)@.locals[cpu as int].retired == Some(h@),
    {
        let current = self.locals[cpu].current;
        assert(self@.locals[cpu as int].current == current@);
        let t = self.pool.get(current);
        self.set_thread_state(current, t.quantum, Timer::null());
        self.retire_kept(cpu)
    }

    /// A timer tick on processor `cpu`. Before scheduling is enabled nothing
    /// happens, and a realtime thread is never preempted; any other running
    /// thread loses one tick of its slice and, once the slice has run out,
    /// the processor dispatches.
    pub fn reschedule<S: TimerSource>(&mut self, cpu: usize, clock: &S) -> (r: Result<Dispatch, ThreadHandle>)
        requires
            old(self).wf(),
            old(self)@.enabled ==> cpu < old(self)@.locals.len(),
        ensures
            final(self).wf(),
            (dispatch_view(r), final(self)@) == reschedule_model(old(self)@, cpu as int, clock.now()),
    {
        if !self.is_enabled {
            return Ok(Dispatch::Stay);
        }
        let current = self.locals[cpu].current;
        assert(self@.locals[cpu as int].current == current@);
        let mut t = self.pool.get(current);
        if t.priority == Priority::Realtime {
            return Ok(Dispatch::Stay);
        }
        let expired = t.quantum.consume();
        self.set_thread_state(current, t.quantum, t.deadline);
        if expired {
            self.next_thread(cpu, clock)
        } else {
            Ok(Dispatch::Stay)
        }
    }

    /// Blocks the thread running on processor `cpu`: registers it as the
    /// waiter of `object`, if one is given and has no waiter yet, sets its
    /// deadline `duration` from now (the null duration sets none), then
    /// dispatches.
    pub fn wait_for<S: TimerSource>(
        &mut self,
        object: Option<&mut SignallingObject>,
        cpu: usize,
        clock: &S,
        duration: TimeMeasure,
    ) -> (r: Result<Dispatch, ThreadHandle>)
        requires
            old(self).wf(),
            old(self)@.started,
            cpu < old(self)@.locals.len(),
        ensures
            final(self).wf(),
            (dispatch_view(r), final(self)@) == wait_model(old(self)@, cpu as int, clock.now(), duration),
            object matches Some(o) ==> (final(o)@ == if (*o)@ is None {
                Some(old(self)@.locals[cpu as int].current)
            } else {
                (*o)@
            }),
    {
        let current = self.locals[cpu].current;
        assert(self@.locals[cpu as int].current == current@);
        match object {
            Some(o) => {
                let _ = o.set(current);
            },
            None => {},
        }
        let t = self.pool.get(current);
        let deadline = Timer::new(clock, duration);
        self.set_thread_state(current, t.quantum, deadline);
        self.next_thread(cpu, clock)
    }
}

} // verus!
