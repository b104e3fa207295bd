//! Append-only store of thread control blocks, addressed by handle.
use vstd::prelude::*;
use crate::thread::{NativeThread, ThreadHandle};

verus! {

/// Whether `h` names one of the first `n` threads.
pub open spec fn valid_handle(h: usize, n: nat) -> bool {
    1 <= h <= n
}

/// Owner of every thread control block; threads are never removed.
pub struct ThreadPool {
    vec: Vec<NativeThread>,
}

impl View for ThreadPool {
    type V = Seq<NativeThread>;

    closed spec fn view(&self) -> Seq<NativeThread> {
        self.vec@
    }
}

impl ThreadPool {
    pub fn new() -> (r: ThreadPool)
        ensures
            r@ == Seq::<NativeThread>::empty(),
    {
        ThreadPool { vec: Vec::new() }
    }

    pub fn len(&self) -> (r: usize)
        ensures
            r == self@.len(),
    {
        self.vec.len()
    }

    /// Stores `thread` and returns its handle, the new number of threads.
    pub fn add(&mut self, thread: NativeThread) -> (r: ThreadHandle)
        requires
            old(self)@.len() + 1 < usize::MAX,
        ensures
            final(self)@ == old(self)@.push(thread),
            r@ == final(self)@.len(),
    {
        self.vec.push(thread);
        let len = self.vec.len();
        ThreadHandle::new(len).unwrap()
    }

    /// The control block of `h`.
    pub fn get(&self, h: ThreadHandle) -> (r: NativeThread)
        requires
            valid_handle(h@, self@.len()),
        ensures
            r == self@[h@ - 1],
    {
        self.vec[h.as_index()]
    }

    /// Replaces the control block of `h`.
    pub fn update(&mut self, h: ThreadHandle, thread: NativeThread)
        requires
            valid_handle(h@, old(self)@.len()),
        ensures
            final(self)@ == old(self)@.update(h@ - 1, thread),
    {
        let i = h.as_index();
        self.vec.set(i, thread);
    }
}

} // verus!
