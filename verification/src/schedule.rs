//! Frame-addressed command scheduling for the realtime callback.
//!
//! Commands carry the output frame at which they take effect. The callback
//! keeps them in a bounded list sorted by frame and renders each block in
//! slices between event frames, so a command takes effect at its exact
//! frame inside the block rather than at a block boundary.
use vstd::prelude::*;

verus! {

/// Number of pending slots the realtime callback preallocates.
pub const PENDING_CAPACITY: usize = 64;

/// A command waiting for its output frame.
pub struct PendingCommand<T> {
    pub cmd: T,
    pub at_frame: u64,
}

/// True when the frames of `s` never decrease.
pub open spec fn frames_sorted<T>(s: Seq<PendingCommand<T>>) -> bool {
    forall|i: int, j: int| 0 <= i <= j < s.len() ==> #[trigger] s[i].at_frame <= #[trigger] s[j].at_frame
}

/// `pos` splits `s` into the entries due at or before `f` and those after it.
pub open spec fn is_insertion_point<T>(s: Seq<PendingCommand<T>>, f: u64, pos: int) -> bool {
    &&& 0 <= pos <= s.len()
    &&& forall|i: int| 0 <= i < pos ==> #[trigger] s[i].at_frame <= f
    &&& forall|i: int| pos <= i < s.len() ==> #[trigger] s[i].at_frame > f
}

/// Bounded list of pending commands, kept sorted by frame.
pub struct PendingQueue<T> {
    entries: Vec<PendingCommand<T>>,
    capacity: usize,
}

impl<T> View for PendingQueue<T> {
    type V = Seq<PendingCommand<T>>;

    closed spec fn view(&self) -> Seq<PendingCommand<T>> {
        self.entries@
    }
}

impl<T> PendingQueue<T> {
    /// The number of entries the list holds before it overflows.
    pub closed spec fn limit(&self) -> nat {
        self.capacity as nat
    }

    /// Well-formedness: within its limit and sorted by frame.
    pub open spec fn wf(&self) -> bool {
        &&& self@.len() <= self.limit()
        &&& frames_sorted(self@)
    }

    /// An empty list that holds up to `capacity` commands.
    pub fn new(capacity: usize) -> (q: Self)
        ensures
            q.wf(),
            q@ == Seq::<PendingCommand<T>>::empty(),
            q.limit() == capacity,
    {
        PendingQueue { entries: Vec::with_capacity(capacity), capacity }
    }

    /// Number of commands waiting.
    pub fn len(&self) -> (n: usize)
        ensures
            n == self@.len(),
    {
        self.entries.len()
    }

    /// Preallocated capacity of the list.
    pub fn capacity(&self) -> (n: usize)
        ensures
            n == self.limit(),
    {
        self.capacity
    }

    /// Insert a command, keeping the list sorted by frame; a command lands
    /// after every command already scheduled for the same or an earlier
    /// frame. When the list is full nothing is inserted and the command is
    /// handed back, so that the caller applies it at once (fail-safe toward
    /// "happen now" rather than "never happen", with no allocation).
    pub fn insert(&mut self, at_frame: u64, cmd: T) -> (overflow: Option<T>)
        requires
            old(self).wf(),
        ensures
            final(self).wf(),
            final(self).limit() == old(self).limit(),
            old(self)@.len() >= old(self).limit() ==> overflow == Some(cmd) && final(self)@ == old(self)@,
            old(self)@.len() < old(self).limit() ==> {
                &&& overflow is None
                &&& exists|pos: int|
                    #![trigger is_insertion_point(old(self)@, at_frame, pos)]
                    is_insertion_point(old(self)@, at_frame, pos)
                        && final(self)@ == old(self)@.insert(pos, PendingCommand { cmd, at_frame })
            },
    {
        let n = self.entries.len();
        if n >= self.capacity {
            return Some(cmd);
        }
        let mut pos: usize = 0;
        while pos < n && self.entries[pos].at_frame <= at_frame
            invariant
                pos <= n,
                n == self.entries@.len(),
                forall|i: int| 0 <= i < pos ==> #[trigger] self.entries@[i].at_frame <= at_frame,
            decreases n - pos,
        {
            pos = pos + 1;
        }
        let ghost old_s = self.entries@;
        proof {
            assert forall|i: int| pos <= i < old_s.len() implies #[trigger] old_s[i].at_frame > at_frame by {
                assert(old_s[pos as int].at_frame <= old_s[i].at_frame);
            }
            assert(is_insertion_point(old_s, at_frame, pos as int));
        }
        self.entries.insert(pos, PendingCommand { cmd, at_frame });
        proof {
            let s = self.entries@;
            assert forall|i: int, j: int| 0 <= i <= j < s.len() implies #[trigger] s[i].at_frame
                <= #[trigger] s[j].at_frame by {
                if i < pos {
                    if j < pos {
                        assert(s[i] == old_s[i] && s[j] == old_s[j]);
                    } else if j > pos {
                        assert(s[i] == old_s[i] && s[j] == old_s[j - 1]);
                    }
                } else if i == pos {
                    if j > pos {
                        assert(s[j] == old_s[j - 1]);
                    }
                } else {
                    assert(s[i] == old_s[i - 1] && s[j] == old_s[j - 1]);
                }
            }
        }
        None
    }

    /// Remove and return the first command if its frame has arrived
    /// (`at_frame <= frame`). Due commands form a prefix of the sorted list.
    pub fn pop_due(&mut self, frame: u64) -> (due: Option<T>)
        requires
            old(self).wf(),
        ensures
            final(self).wf(),
            final(self).limit() == old(self).limit(),
            old(self)@.len() > 0 && old(self)@[0].at_frame <= frame ==> due == Some(old(self)@[0].cmd)
                && final(self)@ == old(self)@.drop_first(),
            !(old(self)@.len() > 0 && old(self)@[0].at_frame <= frame) ==> due is None && final(self)@
                == old(self)@,
    {
        if self.entries.len() > 0 && self.entries[0].at_frame <= frame {
            let ghost old_s = self.entries@;
            let first = self.entries.remove(0);
            proof {
                assert(self.entries@ =~= old_s.drop_first());
                let s = self.entries@;
                assert forall|i: int, j: int| 0 <= i <= j < s.len() implies #[trigger] s[i].at_frame
                    <= #[trigger] s[j].at_frame by {
                    assert(s[i] == old_s[i + 1] && s[j] == old_s[j + 1]);
                }
            }
            Some(first.cmd)
        } else {
            None
        }
    }

    /// The frame strictly after `frame` at which the next pending command
    /// is scheduled, or `None` when the first command is already due or no
    /// command remains.
    pub fn next_event_frame(&self, frame: u64) -> (next: Option<u64>)
        ensures
            next == (if self@.len() > 0 && self@[0].at_frame > frame {
                Some(self@[0].at_frame)
            } else {
                None::<u64>
            }),
    {
        if self.entries.len() > 0 && self.entries[0].at_frame > frame {
            Some(self.entries[0].at_frame)
        } else {
            None
        }
    }
}

/// What the callback does next while rendering one block.
pub enum BlockStep<T> {
    /// Apply this command now, at the cursor frame.
    Apply { cmd: T },
    /// Render `frames` frames starting at output frame index `first_sample`
    /// of the block.
    Render { first_sample: usize, frames: usize },
    /// The block is complete.
    Finished,
}

/// Progress through one output block.
pub struct BlockRun {
    block_start: u64,
    frames: usize,
    cursor: usize,
}

impl BlockRun {
    /// Output frame at which the block starts.
    pub closed spec fn start(&self) -> u64 {
        self.block_start
    }

    /// Number of frames in the block.
    pub closed spec fn len(&self) -> nat {
        self.frames as nat
    }

    /// Number of frames of the block already rendered.
    pub closed spec fn done(&self) -> nat {
        self.cursor as nat
    }

    pub open spec fn wf(&self) -> bool {
        &&& self.done() <= self.len()
        &&& self.start() + self.len() <= u64::MAX
    }

    /// Output frame at which rendering continues.
    pub open spec fn cursor_frame(&self) -> int {
        self.start() + self.done()
    }

    /// Begin a block of `frames` frames at output frame `block_start`.
    pub fn begin(block_start: u64, frames: usize) -> (run: Self)
        requires
            block_start + frames <= u64::MAX,
        ensures
            run.wf(),
            run.start() == block_start,
            run.len() == frames,
            run.done() == 0,
    {
        BlockRun { block_start, frames, cursor: 0 }
    }

    /// Output frame just past the block.
    pub fn block_end(&self) -> (end: u64)
        requires
            self.wf(),
        ensures
            end == self.start() + self.len(),
    {
        self.block_start + self.frames as u64
    }

    /// Number of frames of the block already rendered.
    pub fn rendered(&self) -> (n: usize)
        ensures
            n == self.done(),
    {
        self.cursor
    }

    /// Decide the next step: apply the first pending command if its frame
    /// has arrived, otherwise render up to the next event frame or the end
    /// of the block, whichever comes first.
    pub fn step<T>(&mut self, pending: &mut PendingQueue<T>) -> (s: BlockStep<T>)
        requires
            old(self).wf(),
            old(pending).wf(),
        ensures
            final(self).wf(),
            final(pending).wf(),
            final(pending).limit() == old(pending).limit(),
            final(self).start() == old(self).start(),
            final(self).len() == old(self).len(),
            old(self).done() >= old(self).len() ==> s is Finished && *final(self) == *old(self)
                && final(pending)@ == old(pending)@,
            old(self).done() < old(self).len() && old(pending)@.len() > 0 && old(pending)@[0].at_frame
                <= old(self).cursor_frame() ==> s == (BlockStep::Apply { cmd: old(pending)@[0].cmd })
                && final(pending)@ == old(pending)@.drop_first() && *final(self) == *old(self),
            old(self).done() < old(self).len() && !(old(pending)@.len() > 0 && old(pending)@[0].at_frame
                <= old(self).cursor_frame()) ==> {
                let next: int = if old(pending)@.len() > 0 && old(pending)@[0].at_frame < old(self).start()
                    + old(self).len() {
                    old(pending)@[0].at_frame as int
                } else {
                    old(self).start() + old(self).len()
                };
                let n: int = if next - old(self).cursor_frame() < old(self).len() - old(self).done() {
                    next - old(self).cursor_frame()
                } else {
                    old(self).len() - old(self).done()
                };
                &&& n >= 1
                &&& s == (BlockStep::<T>::Render { first_sample: old(self).done() as usize, frames: n as usize })
                &&& final(self).done() == old(self).done() + n
                &&& final(pending)@ == old(pending)@
                // No pending command falls inside the rendered slice.
                &&& forall|i: int| 0 <= i < old(pending)@.len() ==> #[trigger] old(pending)@[i].at_frame
                    >= old(self).cursor_frame() + n
            },
    {
        if self.cursor >= self.frames {
            return BlockStep::Finished;
        }
        let cursor_frame = self.block_start + self.cursor as u64;
        match pending.pop_due(cursor_frame) {
            Some(cmd) => BlockStep::Apply { cmd },
            None => {
                let block_end = self.block_start + self.frames as u64;
                let next = match pending.next_event_frame(cursor_frame) {
                    Some(f) => if f < block_end {
                        f
                    } else {
                        block_end
                    },
                    None => block_end,
                };
                let by_event = (next - cursor_frame) as usize;
                let left = self.frames - self.cursor;
                let n = if by_event < left {
                    by_event
                } else {
                    left
                };
                if n == 0 {
                    return BlockStep::Finished;
                }
                let first = self.cursor;
                self.cursor = self.cursor + n;
                proof {
                    let p = pending@;
                    assert forall|i: int| 0 <= i < p.len() implies #[trigger] p[i].at_frame
                        >= cursor_frame + n by {
                        assert(p[0].at_frame <= p[i].at_frame);
                    }
                }
                BlockStep::Render { first_sample: first, frames: n }
            },
        }
    }
}

/// A command scheduled for frame `f`.
pub open spec fn pending_at<T>(cmd: T, f: u64) -> PendingCommand<T> {
    PendingCommand { cmd, at_frame: f }
}

/// Commands sent for the same frame take effect in the order they were
/// sent: after `a` and then `b` are inserted for frame `f` (each at an
/// insertion point, as `PendingQueue::insert` places them), `a` stands
/// before `b`.
pub proof fn law_same_frame_in_send_order<T>(
    s: Seq<PendingCommand<T>>,
    f: u64,
    a: T,
    b: T,
    p1: int,
    p2: int,
)
    requires
        frames_sorted(s),
        is_insertion_point(s, f, p1),
        is_insertion_point(s.insert(p1, pending_at(a, f)), f, p2),
    ensures
        p1 < p2,
        s.insert(p1, pending_at(a, f)).insert(p2, pending_at(b, f))[p1] == pending_at(a, f),
        s.insert(p1, pending_at(a, f)).insert(p2, pending_at(b, f))[p2] == pending_at(b, f),
{
    let s1 = s.insert(p1, pending_at(a, f));
    assert(s1[p1].at_frame == f);
    if p2 <= p1 {
        assert(s1[p1].at_frame > f);
    }
}

/// Counts rendered frames and signals when the meter snapshot is due
/// (about 30 times a second).
pub struct MeterClock {
    counter: u64,
    interval: u64,
}

impl MeterClock {
    /// Frames counted since the last meter update.
    pub closed spec fn count(&self) -> nat {
        self.counter as nat
    }

    /// Frames between meter updates.
    pub closed spec fn period(&self) -> nat {
        self.interval as nat
    }

    /// A clock that fires every `interval` frames.
    pub fn new(interval: u64) -> (c: Self)
        ensures
            c.count() == 0,
            c.period() == interval,
    {
        MeterClock { counter: 0, interval }
    }

    /// Count `frames` more frames. Returns true, and restarts the count,
    /// when the count reaches the interval.
    pub fn tick(&mut self, frames: u64) -> (due: bool)
        requires
            old(self).count() + frames <= u64::MAX,
        ensures
            final(self).period() == old(self).period(),
            due == (old(self).count() + frames >= old(self).period()),
            due ==> final(self).count() == 0,
            !due ==> final(self).count() == old(self).count() + frames,
    {
        self.counter = self.counter + frames;
        if self.counter >= self.interval {
            self.counter = 0;
            true
        } else {
            false
        }
    }
}

} // verus!
