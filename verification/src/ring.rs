//! The preallocated power-of-two ring that buffers a time-stretcher's
//! output between blocks: read and write positions wrap with a bit mask,
//! and the number of buffered samples is their masked difference.
use vstd::prelude::*;

verus! {

/// Samples the ring holds room for (a power of two).
pub const RING_CAPACITY: usize = 16384;

/// `RING_CAPACITY - 1`, the mask that wraps a position.
pub const RING_MASK: usize = 16383;

/// A position one step further, wrapped by the mask.
fn next_pos(p: usize) -> (q: usize)
    requires
        p < RING_CAPACITY,
    ensures
        q == (p + 1) % (RING_CAPACITY as int),
        q < RING_CAPACITY,
{
    let q: usize = p + 1;
    assert(q & 16383 == q % 16384) by (bit_vector)
        requires
            q <= 16384,
    ;
    q & RING_MASK
}

/// Number of samples between a read and a write position.
pub open spec fn ring_count(read: int, write: int) -> int {
    if write >= read {
        write - read
    } else {
        RING_CAPACITY + write - read
    }
}

/// A fixed-capacity FIFO of samples in a preallocated buffer.
pub struct SampleRing<T> {
    buf: Vec<T>,
    read: usize,
    write: usize,
}

impl<T: Copy> View for SampleRing<T> {
    type V = Seq<T>;

    /// The buffered samples, oldest first.
    closed spec fn view(&self) -> Seq<T> {
        Seq::new(
            ring_count(self.read as int, self.write as int) as nat,
            |i: int| self.buf@[(self.read + i) % (RING_CAPACITY as int)],
        )
    }
}

impl<T: Copy> SampleRing<T> {
    /// The buffer and both positions are in range.
    pub closed spec fn wf(&self) -> bool {
        &&& self.buf@.len() == RING_CAPACITY
        &&& self.read < RING_CAPACITY
        &&& self.write < RING_CAPACITY
    }

    /// An empty ring whose buffer is filled with `fill`.
    pub fn new(fill: T) -> (r: Self)
        ensures
            r.wf(),
            r@.len() == 0,
    {
        let mut buf: Vec<T> = Vec::new();
        let mut i: usize = 0;
        while i < RING_CAPACITY
            invariant
                i <= RING_CAPACITY,
                buf@.len() == i,
            decreases RING_CAPACITY - i,
        {
            buf.push(fill);
            i = i + 1;
        }
        SampleRing { buf, read: 0, write: 0 }
    }

    /// Number of buffered samples.
    pub fn available(&self) -> (n: usize)
        requires
            self.wf(),
        ensures
            n == self@.len(),
            n < RING_CAPACITY,
    {
        if self.write >= self.read {
            self.write - self.read
        } else {
            RING_CAPACITY - self.read + self.write
        }
    }

    /// Takes the oldest sample, or gives `None` when the ring is empty.
    pub fn pop(&mut self) -> (s: Option<T>)
        requires
            old(self).wf(),
        ensures
            final(self).wf(),
            old(self)@.len() == 0 ==> s is None && final(self)@ == old(self)@,
            old(self)@.len() > 0 ==> s == Some(old(self)@[0]) && final(self)@ == old(self)@.drop_first(),
    {
        if self.read == self.write {
            return None;
        }
        Some(self.pop_front())
    }

    /// Takes the oldest sample of a non-empty ring.
    fn pop_front(&mut self) -> (s: T)
        requires
            old(self).wf(),
            old(self)@.len() > 0,
        ensures
            final(self).wf(),
            s == old(self)@[0],
            final(self)@ == old(self)@.drop_first(),
    {
        let s = self.buf[self.read];
        proof {
            assert(self.read as int % (RING_CAPACITY as int) == self.read);
        }
        self.read = next_pos(self.read);
        proof {
            assert forall|i: int| 0 <= i < self@.len() implies #[trigger] self@[i] == old(self)@.drop_first()[i] by {
                assert(((old(self).read + 1) % (RING_CAPACITY as int) + i) % (RING_CAPACITY as int) == (
                old(self).read + (i + 1)) % (RING_CAPACITY as int));
            }
            assert(self@ =~= old(self)@.drop_first());
        }
        s
    }

    /// Appends `samples` when they fit behind the buffered ones (the ring
    /// holds at most `RING_CAPACITY - 1` samples, since a full ring would
    /// read as empty); a block that does not fit is dropped. Returns whether
    /// the block was written.
    pub fn try_push_slice(&mut self, samples: &[T]) -> (written: bool)
        requires
            old(self).wf(),
        ensures
            final(self).wf(),
            written == (old(self)@.len() + samples@.len() < RING_CAPACITY),
            written ==> final(self)@ == old(self)@ + samples@,
            !written ==> final(self)@ == old(self)@,
    {
        let n = self.available();
        if samples.len() < RING_CAPACITY - n {
            self.push_slice(samples);
            true
        } else {
            false
        }
    }

    /// Appends `samples`, which fit in the free space.
    fn push_slice(&mut self, samples: &[T])
        requires
            old(self).wf(),
            old(self)@.len() + samples@.len() < RING_CAPACITY,
        ensures
            final(self).wf(),
            final(self)@ == old(self)@ + samples@,
    {
        let ghost start = self@;
        let ghost read = self.read;
        let n = samples.len();
        let mut j: usize = 0;
        while j < n
            invariant
                self.wf(),
                self.read == read,
                start == old(self)@,
                n == samples@.len(),
                j <= n,
                start.len() + n < RING_CAPACITY,
                self.write as int == (read + start.len() + j) % (RING_CAPACITY as int),
                forall|i: int|
                    0 <= i < start.len() + j ==> #[trigger] self.buf@[(read + i) % (
                    RING_CAPACITY as int)] == (start + samples@)[i],
            decreases n - j,
        {
            let w = self.write;
            self.buf.set(w, samples[j]);
            proof {
                assert forall|i: int| 0 <= i < start.len() + j + 1 implies #[trigger] self.buf@[(read
                    + i) % (RING_CAPACITY as int)] == (start + samples@)[i] by {
                    if i < start.len() + j {
                        assert((read + i) % (RING_CAPACITY as int) != w);
                    }
                }
            }
            self.write = next_pos(w);
            j = j + 1;
        }
        proof {
            let total = start.len() + n;
            assert(ring_count(self.read as int, self.write as int) == total);
            assert(self@ =~= start + samples@);
        }
    }

    /// Empties the ring.
    pub fn clear(&mut self)
        requires
            old(self).wf(),
        ensures
            final(self).wf(),
            final(self)@.len() == 0,
    {
        self.read = 0;
        self.write = 0;
    }
}

/// The contents left after `k` pops of a ring that holds at least `k`
/// samples, by `SampleRing::pop`'s contract.
pub open spec fn after_pops<T>(s: Seq<T>, k: nat) -> Seq<T>
    decreases k,
{
    if k == 0 {
        s
    } else {
        after_pops(s.drop_first(), (k - 1) as nat)
    }
}

/// First in, first out: once the samples that were buffered before a push
/// have been popped, exactly the pushed samples remain, in push order.
pub proof fn law_ring_fifo<T>(before: Seq<T>, pushed: Seq<T>)
    ensures
        after_pops(before + pushed, before.len()) == pushed,
    decreases before.len(),
{
    if before.len() > 0 {
        assert((before + pushed).drop_first() =~= before.drop_first() + pushed);
        law_ring_fifo(before.drop_first(), pushed);
    } else {
        assert(before + pushed =~= pushed);
    }
}

} // verus!
