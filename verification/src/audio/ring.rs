//! The capture ring: the most recent second of samples, shared between capture and analysis.

use vstd::prelude::*;
use std::collections::VecDeque;
use super::types::RING_CAPACITY;

verus! {

broadcast use vstd::std_specs::vecdeque::group_vec_dequeue_axioms;

/// The last `n` elements of `s` (all of `s` when it is shorter).
pub open spec fn keep_last<T>(s: Seq<T>, n: nat) -> Seq<T> {
    if s.len() > n {
        s.skip(s.len() - n)
    } else {
        s
    }
}

/// Bounded sample history: at most `RING_CAPACITY` samples, oldest first.
pub struct SharedRing<T> {
    samples: VecDeque<T>,
}

impl<T> View for SharedRing<T> {
    type V = Seq<T>;

    closed spec fn view(&self) -> Seq<T> {
        self.samples@
    }
}

impl<T: Copy> SharedRing<T> {
    /// Never more than `RING_CAPACITY` samples are held.
    pub closed spec fn wf(&self) -> bool {
        self.samples@.len() <= RING_CAPACITY
    }

    pub fn new() -> (r: Self)
        ensures
            r@ == Seq::<T>::empty(),
            r.wf(),
    {
        SharedRing { samples: VecDeque::with_capacity(RING_CAPACITY) }
    }

    pub fn clear(&mut self)
        ensures
            final(self)@ == Seq::<T>::empty(),
            final(self).wf(),
    {
        self.samples.clear();
    }

    /// Number of samples held.
    pub fn len(&self) -> (r: usize)
        ensures
            r == self@.len(),
    {
        self.samples.len()
    }

    /// Appends `chunk`, dropping the oldest samples beyond `RING_CAPACITY`.
    pub fn push(&mut self, chunk: &[T])
        requires
            old(self).wf(),
        ensures
            final(self).wf(),
            final(self)@ == keep_last(old(self)@ + chunk@, RING_CAPACITY as nat),
    {
        let ghost start = self.samples@;
        let mut i: usize = 0;
        while i < chunk.len()
            invariant
                i <= chunk@.len(),
                self.samples@.len() <= RING_CAPACITY,
                self.samples@ == keep_last(start + chunk@.take(i as int), RING_CAPACITY as nat),
            decreases chunk@.len() - i,
        {
            let ghost before = self.samples@;
            if self.samples.len() >= RING_CAPACITY {
                let _ = self.samples.pop_front();
            }
            self.samples.push_back(chunk[i]);
            proof {
                let all = start + chunk@.take(i as int);
                let all2 = start + chunk@.take(i + 1);
                assert(all2 =~= all.push(chunk@[i as int]));
                if all.len() > RING_CAPACITY {
                    assert(self.samples@ =~= all2.skip(all2.len() - RING_CAPACITY));
                } else if all.len() == RING_CAPACITY {
                    assert(self.samples@ =~= all2.skip(all2.len() - RING_CAPACITY));
                } else {
                    assert(self.samples@ =~= all2);
                }
            }
            i += 1;
        }
        assert(chunk@.take(chunk@.len() as int) =~= chunk@);
    }

    /// Fills `out` with the newest samples, right-aligned, the rest of it set to
    /// `zero`; returns how many samples were copied.
    pub fn copy_latest(&self, out: &mut [T], zero: T) -> (n: usize)
        ensures
            n == (if old(out)@.len() < self@.len() { old(out)@.len() } else { self@.len() }),
            final(out)@ == Seq::new((old(out)@.len() - n) as nat, |_i: int| zero) + self@.skip(self@.len() - n),
    {
        let len = self.samples.len();
        let m = out.len();
        let n = if m < len { m } else { len };
        let start = len - n;
        let pad = m - n;
        let mut i: usize = 0;
        while i < n
            invariant
                m == out@.len(),
                len == self.samples@.len(),
                n <= m && n <= len,
                start == len - n,
                pad == m - n,
                i <= n,
                forall|j: int| pad <= j < pad + i ==> #[trigger] out@[j] == self.samples@[start + (j - pad)],
                forall|k: int| pad + i <= k < m ==> out@[k] == old(out)@[k],
            decreases n - i,
        {
            out[pad + i] = self.samples[start + i];
            i += 1;
        }
        let mut k: usize = 0;
        while k < pad
            invariant
                m == out@.len(),
                len == self.samples@.len(),
                n <= m && n <= len,
                start == len - n,
                pad == m - n,
                k <= pad,
                forall|j: int| 0 <= j < k ==> #[trigger] out@[j] == zero,
                forall|j: int| pad <= j < m ==> #[trigger] out@[j] == self.samples@[start + (j - pad)],
            decreases pad - k,
        {
            out[k] = zero;
            k += 1;
        }
        assert(out@ =~= Seq::new(pad as nat, |_i: int| zero) + self.samples@.skip(start as int));
        n
    }
}

} // verus!
