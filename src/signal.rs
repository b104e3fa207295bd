//! Single-slot mailbox that joins a parked thread with the event it waits for.
use vstd::prelude::*;
use crate::thread::ThreadHandle;

verus! {

/// Holds at most one waiting thread; zero marks the empty slot.
#[derive(Debug)]
pub struct SignallingObject(usize);

impl View for SignallingObject {
    type V = Option<usize>;

    /// The slot of the registered waiter, if any.
    closed spec fn view(&self) -> Option<usize> {
        if self.0 == 0 {
            None
        } else {
            Some(self.0)
        }
    }
}

impl SignallingObject {
    /// An object with no waiter.
    pub fn new() -> (r: Box<SignallingObject>)
        ensures
            r@ is None,
    {
        Box::new(SignallingObject(0))
    }

    /// Registers `value` as the waiter; fails, changing nothing, when a
    /// waiter is already registered.
    pub fn set(&mut self, value: ThreadHandle) -> (r: Result<(), ()>)
        ensures
            r is Ok <==> old(self)@ is None,
            r is Ok ==> final(self)@ == Some(value@),
            r is Err ==> final(self)@ == old(self)@,
    {
        let value = value.as_usize();
        if self.0 == 0 {
            self.0 = value;
            Ok(())
        } else {
            Err(())
        }
    }

    /// Takes the waiter out, leaving the object empty.
    pub fn unbox(&mut self) -> (r: Option<ThreadHandle>)
        ensures
            final(self)@ is None,
            r is Some <==> old(self)@ is Some,
            r matches Some(h) ==> old(self)@ == Some(h@),
    {
        let value = self.0;
        self.0 = 0;
        ThreadHandle::new(value)
    }
}

} // verus!
