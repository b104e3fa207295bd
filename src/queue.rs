//! Fixed-capacity circular buffer of thread handles.
use vstd::prelude::*;
use crate::thread::ThreadHandle;

verus! {

/// Whether `n` is a power of two.
pub open spec fn is_pow2(n: nat) -> bool
    decreases n,
{
    if n <= 1 {
        n == 1
    } else {
        n % 2 == 0 && is_pow2(n / 2)
    }
}

/// The entries after writing `h` to a queue of capacity `cap` holding `q`:
/// it is taken only while a free slot stays, one slot being kept unused.
pub open spec fn write_step(q: Seq<usize>, h: usize, cap: nat) -> Seq<usize> {
    if q.len() + 1 < cap {
        q.push(h)
    } else {
        q
    }
}

/// The entries after writing each of `hs` in turn.
pub open spec fn write_all(q: Seq<usize>, hs: Seq<usize>, cap: nat) -> Seq<usize>
    decreases hs.len(),
{
    if hs.len() == 0 {
        q
    } else {
        write_all(write_step(q, hs[0], cap), hs.drop_first(), cap)
    }
}

/// One read from a queue holding `q`: the oldest handle, if any, and the
/// entries left.
pub open spec fn read_step(q: Seq<usize>) -> (Option<usize>, Seq<usize>) {
    if q.len() == 0 {
        (None, q)
    } else {
        (Some(q[0]), q.drop_first())
    }
}

/// What `n` reads in turn from a queue holding `q` hand out.
pub open spec fn read_all(q: Seq<usize>, n: nat) -> Seq<usize>
    decreases n,
{
    if n == 0 {
        Seq::empty()
    } else {
        match read_step(q).0 {
            Some(h) => seq![h] + read_all(read_step(q).1, (n - 1) as nat),
            None => Seq::empty(),
        }
    }
}

/// Reading a queue until it is empty hands out its entries in order.
pub proof fn lemma_read_all(q: Seq<usize>)
    ensures
        read_all(q, q.len()) == q,
    decreases q.len(),
{
    if q.len() > 0 {
        lemma_read_all(q.drop_first());
        assert(seq![q[0]] + q.drop_first() =~= q);
    }
}

/// Writes that all find a free slot append their handles in order.
pub proof fn lemma_write_all_appends(q: Seq<usize>, hs: Seq<usize>, cap: nat)
    requires
        q.len() + hs.len() < cap,
    ensures
        write_all(q, hs, cap) == q + hs,
    decreases hs.len(),
{
    if hs.len() > 0 {
        lemma_write_all_appends(q.push(hs[0]), hs.drop_first(), cap);
        assert(q.push(hs[0]) + hs.drop_first() =~= q + hs);
    }
}

/// The entries after a run of operations: `Some(h)` writes `h`, `None` reads.
pub open spec fn run_ops(q: Seq<usize>, ops: Seq<Option<usize>>, cap: nat) -> Seq<usize>
    decreases ops.len(),
{
    if ops.len() == 0 {
        q
    } else {
        let next = match ops[0] {
            Some(h) => write_step(q, h, cap),
            None => read_step(q).1,
        };
        run_ops(next, ops.drop_first(), cap)
    }
}

/// Whatever reads and writes a queue of capacity `cap` goes through, it
/// holds fewer than `cap` entries.
pub proof fn lemma_run_bounded(q: Seq<usize>, ops: Seq<Option<usize>>, cap: nat)
    requires
        q.len() < cap,
    ensures
        run_ops(q, ops, cap).len() < cap,
    decreases ops.len(),
{
    if ops.len() > 0 {
        let next = match ops[0] {
            Some(h) => write_step(q, h, cap),
            None => read_step(q).1,
        };
        lemma_run_bounded(next, ops.drop_first(), cap);
    }
}

/// A queue of capacity `cap` never holds `cap` entries, and after `k`
/// unmatched writes to an empty queue (`k < cap`), `k` reads return the
/// written handles in the order they were written.
pub proof fn lemma_fifo(hs: Seq<usize>, cap: nat)
    requires
        hs.len() < cap,
    ensures
        write_all(Seq::empty(), hs, cap) == hs,
        write_all(Seq::empty(), hs, cap).len() < cap,
        read_all(write_all(Seq::empty(), hs, cap), hs.len()) == hs,
{
    lemma_write_all_appends(Seq::empty(), hs, cap);
    assert(Seq::<usize>::empty() + hs =~= hs);
    lemma_read_all(hs);
}

/// Bounded queue of thread handles, oldest first.
///
/// Slot values of zero mark free slots, which is why handles start at one.
pub struct ThreadQueue {
    read: usize,
    write: usize,
    buf: Vec<usize>,
}

impl ThreadQueue {
    /// Number of slots.
    pub closed spec fn capacity(&self) -> nat {
        self.buf@.len()
    }

    spec fn len_spec(&self) -> nat {
        if self.write >= self.read {
            (self.write - self.read) as nat
        } else {
            (self.write + self.buf@.len() - self.read) as nat
        }
    }

    /// Slot of the `k`-th entry from the oldest one.
    spec fn slot(&self, k: int) -> int {
        if self.read + k < self.buf@.len() {
            self.read + k
        } else {
            self.read + k - self.buf@.len()
        }
    }

    /// Distance of slot `j` from the oldest entry.
    spec fn offset(&self, j: int) -> int {
        if j >= self.read {
            j - self.read
        } else {
            j + self.buf@.len() - self.read
        }
    }

    /// The handles held, oldest first.
    pub closed spec fn view(&self) -> Seq<usize> {
        Seq::new(self.len_spec(), |k: int| self.buf@[self.slot(k)])
    }

    pub closed spec fn wf(&self) -> bool {
        &&& is_pow2(self.buf@.len())
        &&& self.read < self.buf@.len()
        &&& self.write < self.buf@.len()
        &&& forall|j: int|
            0 <= j < self.buf@.len() ==> (#[trigger] self.buf@[j] != 0 <==> self.offset(j)
                < self.len_spec())
    }

    /// The queue never holds as many entries as it has slots.
    pub proof fn lemma_bounded(&self)
        requires
            self.wf(),
        ensures
            self.view().len() < self.capacity(),
            forall|k: int| 0 <= k < self.view().len() ==> self.view()[k] != 0,
    {
        assert forall|k: int| 0 <= k < self.view().len() implies self.view()[k] != 0 by {
            assert(self.offset(self.slot(k)) == k);
        }
    }

    /// An empty queue of `capacity` slots; the capacity is a power of two.
    pub fn with_capacity(capacity: usize) -> (r: Box<ThreadQueue>)
        requires
            is_pow2(capacity as nat),
        ensures
            r.wf(),
            r.capacity() == capacity,
            r.view() == Seq::<usize>::empty(),
    {
        let mut buf: Vec<usize> = Vec::with_capacity(capacity);
        let mut i: usize = 0;
        while i < capacity
            invariant
                i <= capacity,
                buf@.len() == i,
                forall|j: int| 0 <= j < i ==> buf@[j] == 0,
            decreases capacity - i,
        {
            buf.push(0);
            i = i + 1;
        }
        let r = ThreadQueue { read: 0, write: 0, buf };
        assert(r.view() =~= Seq::<usize>::empty());
        Box::new(r)
    }

    /// Takes the oldest handle; none when the queue is empty.
    pub fn read(&mut self) -> (r: Option<ThreadHandle>)
        requires
            old(self).wf(),
        ensures
            final(self).wf(),
            final(self).capacity() == old(self).capacity(),
            r is None <==> read_step(old(self).view()).0 is None,
            r matches Some(h) ==> read_step(old(self).view()).0 == Some(h@),
            final(self).view() == read_step(old(self).view()).1,
    {
        let ghost old_view = self.view();
        let cap = self.buf.len();
        if self.write != self.read {
            let read = self.read;
            let result = self.buf[read];
            assert(self.offset(read as int) == 0);
            self.buf.set(read, 0);
            self.read = if read + 1 == cap { 0 } else { read + 1 };
            assert forall|j: int| 0 <= j < self.buf@.len() implies (#[trigger] self.buf@[j] != 0
                <==> self.offset(j) < self.len_spec()) by {
                if j != read {
                    assert(old(self).buf@[j] == self.buf@[j]);
                }
            }
            assert forall|k: int| 0 <= k < self.len_spec() implies #[trigger] self.view()[k]
                == old_view[k + 1] by {
                assert(self.slot(k) == old(self).slot(k + 1));
            }
            assert(self.view() =~= old_view.drop_first());
            ThreadHandle::new(result)
        } else {
            None
        }
    }

    /// Appends `data`; fails, leaving the queue as it was, when no free slot
    /// would be left beside it.
    pub fn write(&mut self, data: ThreadHandle) -> (r: Result<(), ()>)
        requires
            old(self).wf(),
        ensures
            final(self).wf(),
            final(self).capacity() == old(self).capacity(),
            r is Ok <==> old(self).view().len() + 1 < old(self).capacity(),
            final(self).view() == write_step(old(self).view(), data@, old(self).capacity()),
    {
        let value = data.as_usize();
        let ghost old_view = self.view();
        let cap = self.buf.len();
        let write = self.write;
        let next = if write + 1 == cap { 0 } else { write + 1 };
        if next != self.read {
            if self.buf[write] == 0 {
                self.buf.set(write, value);
                self.write = next;
                assert forall|j: int| 0 <= j < self.buf@.len() implies (#[trigger] self.buf@[j]
                    != 0 <==> self.offset(j) < self.len_spec()) by {
                    if j != write {
                        assert(old(self).buf@[j] == self.buf@[j]);
                    }
                }
                assert forall|k: int| 0 <= k < old_view.len() implies #[trigger] self.view()[k]
                    == old_view[k] by {
                    assert(self.slot(k) == old(self).slot(k));
                    assert(self.slot(k) != write);
                }
                assert(self.slot(old_view.len() as int) == write);
                assert(self.view() =~= old_view.push(value));
                return Ok(());
            } else {
                assert(old(self).offset(write as int) == old_view.len());
            }
        }
        Err(())
    }
}

} // verus!
