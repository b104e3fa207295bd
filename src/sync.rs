//! Results of lock operations.
use vstd::prelude::*;

verus! {

/// A lock whose holder failed while holding it; carries the guard.
#[derive(Debug)]
pub struct PoisonError<T> {
    guard: T,
}

impl<T> PoisonError<T> {
    /// The guard carried.
    pub closed spec fn guard(&self) -> T {
        self.guard
    }

    pub fn new(guard: T) -> (r: PoisonError<T>)
        ensures
            r.guard() == guard,
    {
        PoisonError { guard }
    }

    /// Gives the guard back.
    pub fn into_inner(self) -> (r: T)
        ensures
            r == self.guard(),
    {
        self.guard
    }
}

/// Why a lock could not be taken without waiting.
#[derive(Debug)]
pub enum TryLockError<T> {
    Poisoned(PoisonError<T>),
    WouldBlock,
}

pub type LockResult<Guard> = Result<Guard, PoisonError<Guard>>;

pub type TryLockResult<Guard> = Result<Guard, TryLockError<Guard>>;

impl<T> From<PoisonError<T>> for TryLockError<T> {
    fn from(err: PoisonError<T>) -> (r: TryLockError<T>) {
        TryLockError::Poisoned(err)
    }
}

impl<T> vstd::std_specs::convert::FromSpecImpl<PoisonError<T>> for TryLockError<T> {
    open spec fn obeys_from_spec() -> bool {
        true
    }

    open spec fn from_spec(err: PoisonError<T>) -> TryLockError<T> {
        TryLockError::Poisoned(err)
    }
}

} // verus!
