//! Properties of the scheduling policy, proved over the policy's model.
use vstd::prelude::*;
use crate::policy::{
    dispatch_model, in_pool, next_model, reschedule_model, retire_model, scan_ready, signal_model,
    view_wf, wait_model, waiting, Pick, SchedulerView,
};
use crate::thread::{quantum_of, NativeThread, Priority, Quantum};
use crate::time::{deadline_after, deadline_pending, TimeMeasure, Timer, FOREVER_MICROS};

verus! {

/// `v` with the slice of the thread of slot `c` set to `m` ticks.
pub open spec fn with_quantum(v: SchedulerView, c: usize, m: u8) -> SchedulerView {
    SchedulerView {
        threads: v.threads.update(c - 1, NativeThread { quantum: Quantum(m), ..v.threads[c - 1] }),
        ..v
    }
}

/// The state after `n` timer ticks on processor `cpu`.
pub open spec fn after_ticks(v: SchedulerView, cpu: int, now: nat, n: nat) -> SchedulerView
    decreases n,
{
    if n == 0 {
        v
    } else {
        after_ticks(reschedule_model(v, cpu, now).1, cpu, now, (n - 1) as nat)
    }
}

proof fn lemma_ticks_count_down(v: SchedulerView, cpu: int, now: nat, q: u8, k: nat)
    requires
        v.enabled,
        0 <= cpu < v.locals.len(),
        in_pool(v, v.locals[cpu].current),
        !(v.threads[v.locals[cpu].current - 1].priority is Realtime),
        v.threads[v.locals[cpu].current - 1].quantum == Quantum(q),
        k < q,
    ensures
        after_ticks(v, cpu, now, k) == with_quantum(v, v.locals[cpu].current, (q - k) as u8),
    decreases k,
{
    let c = v.locals[cpu].current;
    if k == 0 {
        assert(v.threads.update(c - 1, NativeThread { quantum: Quantum(q), ..v.threads[c - 1] })
            =~= v.threads);
    } else {
        let v1 = reschedule_model(v, cpu, now).1;
        assert(v1 == with_quantum(v, c, (q - 1) as u8));
        lemma_ticks_count_down(v1, cpu, now, (q - 1) as u8, (k - 1) as nat);
        assert(with_quantum(v1, c, (q - k) as u8).threads =~= with_quantum(v, c, (q - k) as u8).threads);
    }
}

/// Whether the tick that follows `k` ticks on processor `cpu` keeps the
/// running thread and leaves it `left` ticks of its slice, all else as in `v`.
pub open spec fn tick_keeps(v: SchedulerView, cpu: int, now: nat, k: nat, left: u8) -> bool {
    &&& reschedule_model(after_ticks(v, cpu, now, k), cpu, now) == (
        Ok::<Option<(usize, usize)>, usize>(None),
        after_ticks(v, cpu, now, k + 1),
    )
    &&& after_ticks(v, cpu, now, k + 1) == with_quantum(v, v.locals[cpu].current, left)
}

/// A thread that was just dispatched with priority `p` other than realtime
/// runs through exactly `quantum_of(p)` ticks: each of the first
/// `quantum_of(p) - 1` only takes a tick from its slice and keeps it
/// running, and the next one makes the processor dispatch.
pub proof fn lemma_time_slice(v: SchedulerView, cpu: int, now: nat, p: Priority)
    requires
        view_wf(v),
        v.enabled,
        0 <= cpu < v.locals.len(),
        v.threads[v.locals[cpu].current - 1].priority == p,
        !(p is Realtime),
        v.threads[v.locals[cpu].current - 1].quantum == Quantum(quantum_of(p)),
    ensures
        forall|k: nat|
            k + 1 < quantum_of(p) ==> #[trigger] tick_keeps(v, cpu, now, k, (quantum_of(p) - k - 1) as u8),
        reschedule_model(after_ticks(v, cpu, now, (quantum_of(p) - 1) as nat), cpu, now)
            == dispatch_model(after_ticks(v, cpu, now, (quantum_of(p) - 1) as nat), cpu, now),
{
    let c = v.locals[cpu].current;
    let q = quantum_of(p);
    assert(in_pool(v, v.locals[cpu].current));
    assert forall|k: nat|
        k + 1 < quantum_of(p) implies #[trigger] tick_keeps(v, cpu, now, k, (quantum_of(p) - k - 1) as u8) by {
        lemma_ticks_count_down(v, cpu, now, q, k);
        lemma_ticks_count_down(v, cpu, now, q, k + 1);
        let w = after_ticks(v, cpu, now, k);
        assert(w == with_quantum(v, c, (q - k) as u8));
        assert(w.threads[c - 1].quantum == Quantum((q - k) as u8));
        assert(reschedule_model(w, cpu, now).0 == Ok::<Option<(usize, usize)>, usize>(None));
        assert(reschedule_model(w, cpu, now).1 == with_quantum(v, c, (q - k - 1) as u8)) by {
            assert(reschedule_model(w, cpu, now).1.threads =~= with_quantum(v, c, (q - k - 1) as u8).threads);
        }
        lemma_after_ticks_split(v, cpu, now, k);
    }
    lemma_ticks_count_down(v, cpu, now, q, (q - 1) as nat);
    let w = after_ticks(v, cpu, now, (q - 1) as nat);
    assert(w.threads.update(c - 1, NativeThread { quantum: Quantum(1), ..w.threads[c - 1] }) =~= w.threads);
}

/// Ticking `k + 1` times is ticking `k` times and then once more.
proof fn lemma_after_ticks_split(v: SchedulerView, cpu: int, now: nat, k: nat)
    ensures
        after_ticks(v, cpu, now, k + 1) == reschedule_model(after_ticks(v, cpu, now, k), cpu, now).1,
    decreases k,
{
    let v1 = reschedule_model(v, cpu, now).1;
    if k > 0 {
        lemma_after_ticks_split(v1, cpu, now, (k - 1) as nat);
        assert(after_ticks(v, cpu, now, k) == after_ticks(v1, cpu, now, (k - 1) as nat));
        assert(after_ticks(v, cpu, now, k + 1) == after_ticks(v1, cpu, now, k));
    } else {
        assert(after_ticks(v, cpu, now, 1) == after_ticks(v1, cpu, now, 0));
    }
}

/// With no signalled thread in the urgent queue, dispatch never starts a
/// thread that still waits for its deadline (the idle thread aside), and
/// the thread it starts gets the full slice of its priority.
pub proof fn lemma_dispatch_respects_deadlines(v: SchedulerView, cpu: int, now: nat)
    requires
        view_wf(v),
        0 <= cpu < v.locals.len(),
        v.urgent.len() == 0,
    ensures
        dispatch_model(v, cpu, now).0 matches Ok(Some((from, to))) ==> to == v.locals[cpu].idle
            || !waiting(v.threads, to, now),
        dispatch_model(v, cpu, now).0 matches Ok(Some((from, to))) ==> dispatch_model(
            v,
            cpu,
            now,
        ).1.threads[to - 1].quantum == Quantum(quantum_of(v.threads[to - 1].priority)),
{
    crate::policy::lemma_scan_runs_only_elapsed(v.threads, v.ready, v.retired, now);
    crate::policy::lemma_next_wf(v, now);
    assert(in_pool(v, v.locals[cpu].idle));
    let to = crate::policy::incoming(v, cpu, now);
    assert(in_pool(v, to));
    assert(v.threads[to - 1].default_quantum == Quantum(quantum_of(v.threads[to - 1].priority)));
}

/// Timer ticks never preempt a realtime thread, however many come.
pub proof fn lemma_realtime_not_preempted(v: SchedulerView, cpu: int, now: nat, n: nat)
    requires
        0 <= cpu < v.locals.len(),
        v.threads[v.locals[cpu].current - 1].priority is Realtime,
    ensures
        reschedule_model(v, cpu, now) == (Ok::<Option<(usize, usize)>, usize>(None), v),
        after_ticks(v, cpu, now, n) == v,
    decreases n,
{
    if n > 0 {
        lemma_realtime_not_preempted(v, cpu, now, (n - 1) as nat);
    }
}

/// Whether a scan of `ready` stopped at its `j`-th thread, `j` at most `i`:
/// it chose that thread, or (before the `i`-th) found no room to file it.
pub open spec fn stopped_by(scan: (Pick, Seq<usize>, Seq<usize>), ready: Seq<usize>, i: int, j: int) -> bool {
    &&& 0 <= j <= i
    &&& scan.0 == Pick::Run(ready[j]) || (j < i && scan.0 == Pick::Full(ready[j]))
    &&& scan.1 == ready.skip(j + 1)
}

/// The scan stops at or before any ready thread that waits no more, so such
/// a thread is never moved to the retired queue: either it or a thread
/// ahead of it is chosen, and the rest stays ready.
pub proof fn lemma_scan_stops_by(
    threads: Seq<NativeThread>,
    ready: Seq<usize>,
    retired: Seq<usize>,
    now: nat,
    i: int,
)
    requires
        0 <= i < ready.len(),
        !waiting(threads, ready[i], now),
    ensures
        exists|j: int| #[trigger] stopped_by(scan_ready(threads, ready, retired, now), ready, i, j),
    decreases ready.len(),
{
    let c = ready[0];
    if !waiting(threads, c, now) {
        assert(ready.drop_first() =~= ready.skip(1));
        assert(stopped_by(scan_ready(threads, ready, retired, now), ready, i, 0));
    } else {
        assert(i > 0);
        let rest = ready.drop_first();
        assert(rest[i - 1] == ready[i]);
        if threads[c - 1].priority is Idle {
            lemma_scan_stops_by(threads, rest, retired, now, i - 1);
            let j = choose|j: int| #[trigger] stopped_by(scan_ready(threads, rest, retired, now), rest, i - 1, j);
            assert(rest.skip(j + 1) =~= ready.skip(j + 2));
            assert(rest[j] == ready[j + 1]);
            assert(stopped_by(scan_ready(threads, ready, retired, now), ready, i, j + 1));
        } else if retired.len() + 1 < crate::policy::SIZE_OF_MAIN_QUEUE {
            lemma_scan_stops_by(threads, rest, retired.push(c), now, i - 1);
            let j = choose|j: int| #[trigger] stopped_by(scan_ready(threads, rest, retired.push(c), now), rest, i - 1, j);
            assert(rest.skip(j + 1) =~= ready.skip(j + 2));
            assert(rest[j] == ready[j + 1]);
            assert(stopped_by(scan_ready(threads, ready, retired, now), ready, i, j + 1));
        } else {
            assert(ready.drop_first() =~= ready.skip(1));
            assert(stopped_by(scan_ready(threads, ready, retired, now), ready, i, 0));
        }
    }
}

/// Blocking on processor `cpu` at instant `t0` for `d` gives the running
/// thread the deadline `d` after `t0`.
pub proof fn lemma_wait_sets_deadline(v: SchedulerView, cpu: int, t0: nat, d: TimeMeasure)
    requires
        view_wf(v),
        0 <= cpu < v.locals.len(),
    ensures
        wait_model(v, cpu, t0, d).1.threads[v.locals[cpu].current - 1].deadline == (Timer {
            deadline: deadline_after(t0, d),
        }),
{
    let c = v.locals[cpu].current;
    assert(in_pool(v, c));
    let t = v.threads[c - 1];
    let w = SchedulerView {
        threads: v.threads.update(
            c - 1,
            NativeThread { deadline: Timer { deadline: deadline_after(t0, d) }, ..t },
        ),
        ..v
    };
    assert(w.threads[c - 1].deadline == Timer { deadline: deadline_after(t0, d) });
    assert forall|i: int| 0 <= i < w.threads.len() implies (#[trigger] w.threads[i]).default_quantum
        == Quantum(quantum_of(w.threads[i].priority)) by {
        assert(v.threads[i].default_quantum == Quantum(quantum_of(v.threads[i].priority)));
    }
    assert(view_wf(w));
    crate::policy::lemma_next_wf(w, t0);
    assert(wait_model(v, cpu, t0, d) == dispatch_model(w, cpu, t0));
    let v1 = next_model(w, t0).1;
    let next = crate::policy::incoming(w, cpu, t0);
    assert(in_pool(w, w.locals[cpu].idle));
    assert(in_pool(w, next));
    if next_model(w, t0).0 is Full {
    } else if next != w.locals[cpu].current {
        let u = v1.threads[next - 1];
        let threads = v1.threads.update(next - 1, NativeThread { quantum: u.default_quantum, ..u });
        assert(dispatch_model(w, cpu, t0).1.threads == threads);
        if next - 1 == c - 1 {
            assert(threads[c - 1].deadline == u.deadline);
        } else {
            assert(threads[c - 1] == v1.threads[c - 1]);
        }
    }
}

/// A thread parked with a finite duration `d` at instant `t0` waits no more
/// once `d` has elapsed, even if never signalled: from the ready queue it is
/// dispatched, or selection stops at a thread ahead of it, and it is not
/// sent back to the retired queue (an urgent thread, when there is one, is
/// chosen first and the ready queue is left as it was).
pub proof fn lemma_wait_elapses(v: SchedulerView, now: nat, t0: nat, d: TimeMeasure, i: int)
    requires
        0 <= i < v.ready.len(),
        in_pool(v, v.ready[i]),
        v.threads[v.ready[i] - 1].deadline == (Timer { deadline: deadline_after(t0, d) }),
        d.0 > 0,
        t0 + d.0 < FOREVER_MICROS,
        now >= t0 + d.0,
    ensures
        !waiting(v.threads, v.ready[i], now),
        v.urgent.len() == 0 ==> exists|j: int|
            #[trigger] stopped_by((next_model(v, now).0, next_model(v, now).1.ready, next_model(v, now).1.retired), v.ready, i, j),
        v.urgent.len() > 0 ==> next_model(v, now).1.ready == v.ready,
{
    assert(!deadline_pending(deadline_after(t0, d), now));
    lemma_scan_stops_by(v.threads, v.ready, v.retired, now, i);
    if v.urgent.len() == 0 {
        let sc = scan_ready(v.threads, v.ready, v.retired, now);
        let j = choose|j: int| #[trigger] stopped_by(sc, v.ready, i, j);
        assert(!(sc.0 is Nothing));
        assert((next_model(v, now).0, next_model(v, now).1.ready, next_model(v, now).1.retired) == sc);
        assert(stopped_by((next_model(v, now).0, next_model(v, now).1.ready, next_model(v, now).1.retired), v.ready, i, j));
    }
}

/// A thread that is signalled while no other urgent thread waits is the
/// very next thread chosen, ahead of every ready thread.
pub proof fn lemma_signalled_first(v: SchedulerView, h: usize, now: nat)
    requires
        in_pool(v, h),
        v.urgent.len() == 0,
    ensures
        next_model(signal_model(v, Some(h)), now).0 == Pick::Run(h),
{
}

/// `n` selections in a row, each chosen thread being retired after its turn:
/// the choices, and the state after them.
pub open spec fn rounds(v: SchedulerView, now: nat, n: nat) -> (Seq<Pick>, SchedulerView)
    decreases n,
{
    if n == 0 {
        (Seq::empty(), v)
    } else {
        let (c, v1) = next_model(v, now);
        let v2 = match c {
            Pick::Run(h) => retire_model(v1, h),
            _ => v1,
        };
        let (rest, v3) = rounds(v2, now, (n - 1) as nat);
        (seq![c] + rest, v3)
    }
}

proof fn lemma_rounds_follow_ready(v: SchedulerView, now: nat, n: nat)
    requires
        v.urgent.len() == 0,
        n <= v.ready.len(),
        forall|i: int| 0 <= i < v.ready.len() ==> !waiting(v.threads, #[trigger] v.ready[i], now),
    ensures
        rounds(v, now, n).0 == v.ready.take(n as int).map_values(|h: usize| Pick::Run(h)),
    decreases n,
{
    if n > 0 {
        assert(!waiting(v.threads, v.ready[0], now));
        let (c, v1) = next_model(v, now);
        assert(c == Pick::Run(v.ready[0]));
        let v2 = retire_model(v1, v.ready[0]);
        assert(v2.ready == v.ready.drop_first());
        assert forall|i: int| 0 <= i < v2.ready.len() implies !waiting(v2.threads, #[trigger] v2.ready[i], now) by {
            assert(v2.ready[i] == v.ready[i + 1]);
        }
        lemma_rounds_follow_ready(v2, now, (n - 1) as nat);
        assert(seq![c] + v2.ready.take(n - 1).map_values(|h: usize| Pick::Run(h)) =~= v.ready.take(
            n as int,
        ).map_values(|h: usize| Pick::Run(h)));
    }
}

/// Round robin: with no urgent thread, an empty ready queue and retired
/// threads `R` of which none waits, the first selection moves `R` to the
/// ready queue and chooses nothing, and the next `k` selections (`k` up to
/// the length of `R`) choose the first `k` threads of `R` in order, so that
/// with `R` free of repeats every thread is chosen once before any twice.
pub proof fn lemma_round_robin(v: SchedulerView, now: nat, k: nat)
    requires
        v.urgent.len() == 0,
        v.ready.len() == 0,
        k <= v.retired.len(),
        forall|i: int| 0 <= i < v.retired.len() ==> !waiting(v.threads, #[trigger] v.retired[i], now),
    ensures
        rounds(v, now, k + 1).0 == seq![Pick::Nothing] + v.retired.take(k as int).map_values(
            |h: usize| Pick::Run(h),
        ),
        v.retired.no_duplicates() ==> forall|a: int, b: int|
            0 <= a < b < k + 1 ==> #[trigger] rounds(v, now, k + 1).0[a] != #[trigger] rounds(
                v,
                now,
                k + 1,
            ).0[b],
{
    let (c, v1) = next_model(v, now);
    assert(c is Nothing);
    assert(v1.ready == v.retired);
    lemma_rounds_follow_ready(v1, now, k);
    let picks = rounds(v, now, k + 1).0;
    if v.retired.no_duplicates() {
        assert forall|a: int, b: int| 0 <= a < b < k + 1 implies #[trigger] picks[a] != #[trigger] picks[b] by {
            if a > 0 {
                assert(picks[a] == Pick::Run(v.retired[a - 1]));
                assert(picks[b] == Pick::Run(v.retired[b - 1]));
            }
        }
    }
}

} // verus!
