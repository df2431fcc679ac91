//! The per-channel history: the last `LENGTH` samples, oldest first.

use vstd::prelude::*;
use crate::geometry::LENGTH;

verus! {

/// A history of nothing but silence.
pub open spec fn silence() -> Seq<u32> {
    Seq::new(LENGTH as nat, |i: int| 0u32)
}

/// The history after the `fresh` samples have been admitted: the oldest
/// samples leave at the front, as many as arrive at the back.
pub open spec fn shifted(history: Seq<u32>, fresh: Seq<u32>) -> Seq<u32> {
    history.subrange(fresh.len() as int, history.len() as int) + fresh
}

/// The ring slot that holds the sample `offset` places after the oldest one.
pub open spec fn slot(head: int, offset: int) -> int {
    if head + offset < LENGTH {
        head + offset
    } else {
        head + offset - LENGTH
    }
}

/// A ring of `LENGTH` samples. `head` is the slot of the oldest sample; the
/// others follow it, wrapping round at the end of the ring.
pub struct FrameBuffer {
    ring: Vec<u32>,
    head: usize,
}

impl View for FrameBuffer {
    type V = Seq<u32>;

    /// The samples held, oldest first.
    closed spec fn view(&self) -> Seq<u32> {
        Seq::new(self.ring@.len(), |i: int| self.ring@[slot(self.head as int, i)])
    }
}

impl FrameBuffer {
    /// The ring is full and `head` points into it.
    pub closed spec fn wf(&self) -> bool {
        &&& self.ring@.len() == LENGTH
        &&& self.head < LENGTH
    }

    /// A well-formed buffer holds exactly `LENGTH` samples.
    pub proof fn lemma_wf_len(&self)
        requires
            self.wf(),
        ensures
            self@.len() == LENGTH,
    {
    }

    /// A buffer whose whole history is silence.
    pub fn new() -> (r: FrameBuffer)
        ensures
            r.wf(),
            r@ == silence(),
    {
        let r = FrameBuffer { ring: vec![0u32; LENGTH], head: 0 };
        assert(r@ =~= silence());
        r
    }

    /// The number of samples held.
    pub fn len(&self) -> (r: usize)
        requires
            self.wf(),
        ensures
            r == self@.len(),
            r == LENGTH,
    {
        self.ring.len()
    }

    /// Admits `fresh` at the newest end and drops as many samples at the
    /// oldest end.
    pub fn push(&mut self, fresh: &[u32])
        requires
            old(self).wf(),
            fresh@.len() <= LENGTH,
        ensures
            final(self).wf(),
            final(self)@.len() == LENGTH,
            final(self)@ == shifted(old(self)@, fresh@),
    {
        let step: usize = fresh.len();
        let head: usize = self.head;
        let ghost before: Seq<u32> = self.ring@;
        let mut i: usize = 0;
        while i < step
            invariant
                i <= step,
                step == fresh@.len(),
                step <= LENGTH,
                head < LENGTH,
                self.head == head,
                self.ring@.len() == LENGTH,
                before.len() == LENGTH,
                forall|k: int|
                    #![trigger slot(head as int, k)]
                    0 <= k < LENGTH ==> self.ring@[slot(head as int, k)] == (if k < i {
                        fresh@[k]
                    } else {
                        before[slot(head as int, k)]
                    }),
            decreases step - i,
        {
            let at: usize = if head + i < LENGTH {
                head + i
            } else {
                head + i - LENGTH
            };
            assert(at == slot(head as int, i as int));
            self.ring.set(at, fresh[i]);
            i += 1;
        }
        self.head = if head + step < LENGTH {
            head + step
        } else {
            head + step - LENGTH
        };
        proof {
            let after = self@;
            let wanted = shifted(old(self)@, fresh@);
            assert(after.len() == wanted.len());
            assert forall|k: int| 0 <= k < LENGTH implies after[k] == wanted[k] by {
                if k + step < LENGTH {
                    assert(slot(self.head as int, k) == slot(head as int, k + step));
                } else {
                    assert(slot(self.head as int, k) == slot(head as int, k + step - LENGTH));
                }
            }
            assert(after =~= wanted);
        }
    }

    /// The current analysis frame: the samples held, oldest first.
    pub fn frame(&self) -> (r: Vec<u32>)
        requires
            self.wf(),
        ensures
            r@ == self@,
            r@.len() == LENGTH,
    {
        let mut r: Vec<u32> = Vec::with_capacity(LENGTH);
        let mut k: usize = 0;
        while k < LENGTH
            invariant
                k <= LENGTH,
                self.wf(),
                r@.len() == k,
                forall|j: int| 0 <= j < k ==> r@[j] == self@[j],
            decreases LENGTH - k,
        {
            let at: usize = if self.head + k < LENGTH {
                self.head + k
            } else {
                self.head + k - LENGTH
            };
            r.push(self.ring[at]);
            k += 1;
        }
        assert(r@ =~= self@);
        r
    }
}

} // verus!
