//! The metadata-ring pipeline's bookkeeping machine.
//!
//! Per directory, a pool of submission slots carries name probes through
//! a ring: pending names wait for a free slot, a submission binds the
//! front pending name to one free slot, a completion frees its slot
//! again, and the window — how many probes are kept in flight — adapts
//! per iteration. The submissions and completions themselves are the
//! embedding's; every bookkeeping decision is specified here, and the
//! contracts let no pending name be lost or duplicated and no slot be
//! reused before its completion.

use vstd::prelude::*;

use crate::batch_stat::BatchItem;
use crate::tuning::spec_ring_window;

verus! {

/// The pipeline state for one directory.
pub struct RingState {
    /// Ring capacity: slot ids are `0 .. sq_depth`.
    pub sq_depth: usize,
    /// Target in-flight count, within `[1, sq_depth]`.
    pub window: usize,
    /// Consecutive fully-used, failure-free iterations, up to 2.
    pub streak: u8,
    /// Slots ready for use, last taken first.
    pub free: Vec<usize>,
    /// Names awaiting submission, front first.
    pub pending: Vec<BatchItem>,
    /// Slots submitted and awaiting completion.
    pub inflight: Vec<usize>,
}

impl RingState {
    /// Every slot id is in range and held exactly once: the free list
    /// and the in-flight list are duplicate-free and disjoint, and the
    /// window stays within the ring.
    pub open spec fn wf(&self) -> bool {
        &&& 1 <= self.window <= self.sq_depth
        &&& self.streak <= 2
        &&& forall|i: int| 0 <= i < self.free@.len() ==> #[trigger] self.free@[i] < self.sq_depth
        &&& forall|i: int|
            0 <= i < self.inflight@.len() ==> #[trigger] self.inflight@[i] < self.sq_depth
        &&& forall|i: int, j: int|
            0 <= i < j < self.free@.len() ==> self.free@[i] != self.free@[j]
        &&& forall|i: int, j: int|
            0 <= i < j < self.inflight@.len() ==> self.inflight@[i] != self.inflight@[j]
        &&& forall|i: int, j: int|
            0 <= i < self.free@.len() && 0 <= j < self.inflight@.len() ==> #[trigger] self.free@[i]
                != #[trigger] self.inflight@[j]
    }

    /// A fresh pipeline: all `sq_depth` slots free, nothing pending or
    /// in flight, the window clamped into `[1, sq_depth]`.
    pub fn new(sq_depth: usize, window: usize) -> (r: RingState)
        requires
            sq_depth >= 1,
        ensures
            r.wf(),
            r.sq_depth == sq_depth,
            r.window == (if window == 0 {
                1usize
            } else if window > sq_depth {
                sq_depth
            } else {
                window
            }),
            r.streak == 0,
            r.free@.len() == sq_depth,
            forall|i: int| 0 <= i < sq_depth ==> #[trigger] r.free@[i] == i,
            r.pending@.len() == 0,
            r.inflight@.len() == 0,
    {
        let mut free: Vec<usize> = Vec::new();
        let mut i: usize = 0;
        while i < sq_depth
            invariant
                i <= sq_depth,
                free@.len() == i,
                forall|j: int| 0 <= j < i ==> #[trigger] free@[j] == j,
            decreases sq_depth - i,
        {
            free.push(i);
            i = i + 1;
        }
        let w = if window == 0 {
            1
        } else if window > sq_depth {
            sq_depth
        } else {
            window
        };
        RingState { sq_depth, window: w, streak: 0, free, pending: Vec::new(), inflight: Vec::new() }
    }

    /// Queue one name for submission; nothing else moves.
    pub fn push_pending(&mut self, item: BatchItem)
        requires
            old(self).wf(),
        ensures
            final(self).wf(),
            final(self).pending@ == old(self).pending@.push(item),
            final(self).free == old(self).free,
            final(self).inflight == old(self).inflight,
            final(self).window == old(self).window,
            final(self).streak == old(self).streak,
            final(self).sq_depth == old(self).sq_depth,
    {
        self.pending.push(item);
    }

    /// Bind the front pending name to a free slot, if the window admits
    /// another probe and both a slot and a name are there: the name
    /// leaves the pending queue exactly once, into exactly one slot.
    pub fn submit_one(&mut self) -> (r: Option<(usize, BatchItem)>)
        requires
            old(self).wf(),
        ensures
            final(self).wf(),
            final(self).window == old(self).window,
            final(self).streak == old(self).streak,
            final(self).sq_depth == old(self).sq_depth,
            match r {
                None => *final(self) == *old(self) && (old(self).inflight@.len()
                    >= old(self).window || old(self).free@.len() == 0
                    || old(self).pending@.len() == 0),
                Some((slot, item)) => {
                    &&& old(self).inflight@.len() < old(self).window
                    &&& old(self).free@.len() > 0
                    &&& old(self).pending@.len() > 0
                    &&& slot == old(self).free@.last()
                    &&& item == old(self).pending@[0]
                    &&& final(self).free@ == old(self).free@.drop_last()
                    &&& final(self).pending@ == old(self).pending@.drop_first()
                    &&& final(self).inflight@ == old(self).inflight@.push(slot)
                },
            },
    {
        if self.inflight.len() < self.window && self.free.len() > 0 && self.pending.len() > 0 {
            let slot = self.free.pop().unwrap();
            let item = self.pending.remove(0);
            self.inflight.push(slot);
            proof {
                assert(self.pending@ =~= old(self).pending@.drop_first());
                let pre = *old(self);
                assert(slot == pre.free@.last());
                assert forall|i: int, j: int|
                    0 <= i < self.free@.len() && 0 <= j < self.inflight@.len() implies #[trigger]
                    self.free@[i] != #[trigger] self.inflight@[j] by {
                    assert(self.free@[i] == pre.free@[i]);
                    if j < self.inflight@.len() - 1 {
                        assert(self.inflight@[j] == pre.inflight@[j]);
                    } else {
                        assert(self.inflight@[j] == pre.free@[pre.free@.len() - 1]);
                    }
                }
                assert forall|i: int, j: int|
                    0 <= i < j < self.inflight@.len() implies self.inflight@[i]
                    != self.inflight@[j] by {
                    if j < self.inflight@.len() - 1 {
                        assert(self.inflight@[i] == pre.inflight@[i]);
                        assert(self.inflight@[j] == pre.inflight@[j]);
                    } else {
                        assert(self.inflight@[i] == pre.inflight@[i]);
                        assert(self.inflight@[j] == pre.free@[pre.free@.len() - 1]);
                    }
                }
            }
            Some((slot, item))
        } else {
            None
        }
    }

    /// Take one completion: the slot returns to the free pool, usable
    /// again only now. Reports whether the slot was in flight at all.
    pub fn complete(&mut self, slot: usize) -> (r: bool)
        requires
            old(self).wf(),
        ensures
            final(self).wf(),
            final(self).window == old(self).window,
            final(self).streak == old(self).streak,
            final(self).sq_depth == old(self).sq_depth,
            final(self).pending == old(self).pending,
            r == old(self).inflight@.contains(slot),
            !r ==> *final(self) == *old(self),
            r ==> final(self).free@ == old(self).free@.push(slot) && (exists|j: int|
                0 <= j < old(self).inflight@.len() && old(self).inflight@[j] == slot
                    && final(self).inflight@ == old(self).inflight@.remove(j)),
    {
        let n = self.inflight.len();
        let mut j: usize = 0;
        while j < n
            invariant
                *self == *old(self),
                self.wf(),
                n == self.inflight@.len(),
                j <= n,
                forall|k: int| 0 <= k < j ==> self.inflight@[k] != slot,
            decreases n - j,
        {
            if self.inflight[j] == slot {
                let ghost pre = *self;
                self.inflight.remove(j);
                self.free.push(slot);
                proof {
                    assert(pre.inflight@[j as int] == slot);
                    assert(self.inflight@ == pre.inflight@.remove(j as int));
                    assert(pre.inflight@.contains(slot));
                    assert forall|i: int, k: int|
                        0 <= i < self.free@.len() && 0 <= k < self.inflight@.len() implies
                        #[trigger] self.free@[i] != #[trigger] self.inflight@[k] by {
                        assert(self.inflight@[k] == (if k < j as int {
                            pre.inflight@[k]
                        } else {
                            pre.inflight@[k + 1]
                        }));
                        if i < self.free@.len() - 1 {
                            assert(self.free@[i] == pre.free@[i]);
                        } else {
                            assert(self.free@[i] == slot);
                        }
                    }
                    assert forall|i: int, k: int|
                        0 <= i < k < self.free@.len() implies self.free@[i] != self.free@[k] by {
                        assert(self.free@[i] == pre.free@[i]);
                        if k < self.free@.len() - 1 {
                            assert(self.free@[k] == pre.free@[k]);
                        } else {
                            assert(self.free@[k] == slot);
                            assert(pre.free@[i] != pre.inflight@[j as int]);
                        }
                    }
                    assert forall|i: int, k: int|
                        0 <= i < k < self.inflight@.len() implies self.inflight@[i]
                        != self.inflight@[k] by {
                        assert(self.inflight@[i] == (if i < j as int {
                            pre.inflight@[i]
                        } else {
                            pre.inflight@[i + 1]
                        }));
                        assert(self.inflight@[k] == (if k < j as int {
                            pre.inflight@[k]
                        } else {
                            pre.inflight@[k + 1]
                        }));
                    }
                }
                return true;
            }
            j = j + 1;
        }
        proof {
            if self.inflight@.contains(slot) {
                let k = choose|k: int| 0 <= k < self.inflight@.len() && self.inflight@[k] == slot;
                assert(self.inflight@[k] != slot);
            }
        }
        false
    }

    /// Close one pipeline iteration: adapt the window and the streak
    /// from this iteration's failure and completion counters.
    pub fn end_iteration(&mut self, sqe_fails: u64, completions: u64)
        requires
            old(self).wf(),
        ensures
            final(self).wf(),
            (final(self).window, final(self).streak) == spec_ring_window(
                old(self).window,
                old(self).sq_depth,
                old(self).inflight@.len() as usize,
                sqe_fails,
                completions,
                old(self).streak,
            ),
            final(self).free == old(self).free,
            final(self).pending == old(self).pending,
            final(self).inflight == old(self).inflight,
            final(self).sq_depth == old(self).sq_depth,
    {
        let inflight_now = self.inflight.len();
        let r = crate::tuning::next_ring_window(
            self.window,
            self.sq_depth,
            inflight_now,
            sqe_fails,
            completions,
            self.streak,
        );
        self.window = r.0;
        self.streak = r.1;
    }

    /// Whether the final drain is over: nothing in flight, nothing
    /// pending.
    pub fn drained(&self) -> (r: bool)
        ensures
            r == (self.inflight@.len() == 0 && self.pending@.len() == 0),
    {
        self.inflight.len() == 0 && self.pending.len() == 0
    }
}

} // verus!
