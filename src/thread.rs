//! Thread identities, priorities, time slices and handles.
use vstd::prelude::*;
use crate::time::Timer;

verus! {

/// Process-wide thread number, given once at creation and never reused.
#[derive(Debug, Clone, Copy, PartialEq, Eq, Structural)]
pub struct ThreadId(pub usize);

impl ThreadId {
    pub fn as_u64(&self) -> (r: u64)
        ensures
            r == self.0 as u64,
    {
        self.0 as u64
    }
}

/// Scheduling priority, from lowest to highest.
#[derive(Debug, Clone, Copy, PartialEq, Eq, Structural)]
pub enum Priority {
    Idle,
    Low,
    Normal,
    High,
    Realtime,
}

impl Priority {
    /// Whether a thread of this priority takes part in scheduling; only the
    /// per-processor idle threads do not.
    pub fn useful(&self) -> (r: bool)
        ensures
            r == !(*self is Idle),
    {
        match *self {
            Priority::Idle => false,
            _ => true,
        }
    }
}

/// Length of the time slice, in ticks, that a thread of priority `p` gets
/// each time it is dispatched.
pub open spec fn quantum_of(p: Priority) -> u8 {
    match p {
        Priority::High => 25,
        Priority::Normal => 10,
        Priority::Low => 5,
        _ => 1,
    }
}

/// Remaining ticks of a time slice.
#[derive(Debug, Clone, Copy, PartialEq, Eq, Structural)]
pub struct Quantum(pub u8);

/// One tick taken from a slice of `q`: the slice left, and whether the tick
/// found it used up. A slice of one expires rather than reaching zero.
pub open spec fn consume_step(q: u8) -> (u8, bool) {
    if q > 1 {
        ((q - 1) as u8, false)
    } else {
        (q, true)
    }
}

impl Quantum {
    /// Takes one tick from the slice; true when the slice has run out and
    /// the thread is to give way.
    pub fn consume(&mut self) -> (r: bool)
        ensures
            (final(self).0, r) == consume_step(old(self).0),
    {
        if self.0 > 1 {
            self.0 = self.0 - 1;
            false
        } else {
            true
        }
    }
}

impl From<Priority> for Quantum {
    fn from(priority: Priority) -> (r: Quantum) {
        match priority {
            Priority::High => Quantum(25),
            Priority::Normal => Quantum(10),
            Priority::Low => Quantum(5),
            _ => Quantum(1),
        }
    }
}

impl vstd::std_specs::convert::FromSpecImpl<Priority> for Quantum {
    open spec fn obeys_from_spec() -> bool {
        true
    }

    open spec fn from_spec(p: Priority) -> Quantum {
        Quantum(quantum_of(p))
    }
}

/// Reference to a thread of the pool: its 1-based slot, never zero.
#[derive(Debug, Clone, Copy, PartialEq, Eq, Structural)]
pub struct ThreadHandle(usize);

impl View for ThreadHandle {
    type V = usize;

    closed spec fn view(&self) -> usize {
        self.0
    }
}

impl ThreadHandle {
    #[verifier::type_invariant]
    spec fn inv(self) -> bool {
        self.0 != 0
    }

    /// The handle of slot `val`; none for zero.
    pub fn new(val: usize) -> (r: Option<ThreadHandle>)
        ensures
            r is Some <==> val != 0,
            r matches Some(h) ==> h@ == val,
    {
        if val == 0 {
            None
        } else {
            Some(ThreadHandle(val))
        }
    }

    pub fn as_usize(&self) -> (r: usize)
        ensures
            r == self@,
            r != 0,
    {
        proof {
            use_type_invariant(self);
        }
        self.0
    }

    /// Position of the thread in the pool's storage.
    pub fn as_index(&self) -> (r: usize)
        ensures
            r == self@ - 1,
    {
        proof {
            use_type_invariant(self);
        }
        self.0 - 1
    }
}

/// Thread control block.
#[derive(Debug, Clone, Copy)]
pub struct NativeThread {
    pub id: ThreadId,
    pub priority: Priority,
    pub quantum: Quantum,
    pub default_quantum: Quantum,
    pub deadline: Timer,
}

/// Interrupt request level of the running code.
#[derive(Debug, Clone, Copy, PartialEq, Eq, Structural)]
pub enum Irql {
    Passive,
    Dispatch,
    Device,
    High,
}

/// Rank of an interrupt request level, lowest first.
pub open spec fn irql_rank(l: Irql) -> nat {
    match l {
        Irql::Passive => 0,
        Irql::Dispatch => 1,
        Irql::Device => 2,
        Irql::High => 3,
    }
}

impl Irql {
    fn rank(&self) -> (r: u8)
        ensures
            r == irql_rank(*self),
    {
        match *self {
            Irql::Passive => 0,
            Irql::Dispatch => 1,
            Irql::Device => 2,
            Irql::High => 3,
        }
    }

    /// The level that code runs at: dispatching here happens at passive level.
    pub fn current() -> (r: Irql)
        ensures
            r == Irql::Passive,
    {
        Irql::Passive
    }

    /// Raises the level to `new_irql` and returns the level held before.
    ///
    /// Raising to a level below the present one is a protocol violation,
    /// excluded by the precondition.
    pub fn raise(new_irql: Irql) -> (r: Result<Irql, ()>)
        requires
            irql_rank(Irql::Passive) <= irql_rank(new_irql),
        ensures
            r == Ok::<Irql, ()>(Irql::Passive),
    {
        let old_irql = Self::current();
        if old_irql.rank() > new_irql.rank() {
            Err(())
        } else {
            Ok(old_irql)
        }
    }

    /// Returns to the level `new_irql`.
    pub fn lower(new_irql: Irql) -> (r: Result<(), ()>)
        ensures
            r == Ok::<(), ()>(()),
    {
        let _ = new_irql;
        Ok(())
    }
}

} // verus!
