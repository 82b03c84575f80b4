//! The work-stealing scheduler's fetch discipline.
//!
//! Each worker owns a FIFO deque and sees two global injectors — high
//! for the root and resume continuations, normal for new child
//! directories — and the other workers' deques. The fetch order on each
//! iteration is: own deque, high injector, normal injector, then a
//! round-robin steal that visits every other worker at most once,
//! starting at a per-worker offset. A fetch comes back empty exactly
//! when all four sources are empty, which is the worker's termination
//! condition.

use vstd::prelude::*;

use crate::path::DirPath;

verus! {

/// A unit of work: a directory to enumerate, optionally resumed from an
/// opaque directory-stream cookie.
pub struct Job {
    pub dir: DirPath,
    pub depth: u32,
    pub resume: Option<u64>,
}

/// Specification view of a job.
pub ghost struct JobV {
    pub dir: Seq<Seq<char>>,
    pub depth: u32,
    pub resume: Option<u64>,
}

impl View for Job {
    type V = JobV;

    open spec fn view(&self) -> JobV {
        JobV { dir: self.dir@, depth: self.depth, resume: self.resume }
    }
}

/// One worker's window onto the scheduler: its own deque, the two
/// injectors, and the other workers' deques it may steal from.
pub struct WorkQueues {
    pub local: Vec<Job>,
    pub high: Vec<Job>,
    pub normal: Vec<Job>,
    pub stealers: Vec<Vec<Job>>,
    /// Round-robin start offset for the steal loop.
    pub next: usize,
}

/// The stealer index the round-robin pass visits at step `kk`.
pub open spec fn rr_index(start: int, kk: int, len: int) -> int {
    (start + kk) % len
}

impl WorkQueues {
    /// The round-robin offset stays within the stealer count.
    pub open spec fn wf(&self) -> bool {
        self.stealers@.len() == 0 || self.next < self.stealers@.len()
    }

    /// The views of the queues, front of each at index 0.
    pub open spec fn local_v(&self) -> Seq<JobV> {
        self.local@.map_values(|j: Job| j@)
    }

    pub open spec fn high_v(&self) -> Seq<JobV> {
        self.high@.map_values(|j: Job| j@)
    }

    pub open spec fn normal_v(&self) -> Seq<JobV> {
        self.normal@.map_values(|j: Job| j@)
    }

    pub open spec fn stealer_v(&self, k: int) -> Seq<JobV> {
        self.stealers@[k]@.map_values(|j: Job| j@)
    }

    /// All four sources are empty: the worker may terminate.
    pub open spec fn all_empty(&self) -> bool {
        &&& self.local_v().len() == 0
        &&& self.high_v().len() == 0
        &&& self.normal_v().len() == 0
        &&& forall|k: int| 0 <= k < self.stealers@.len() ==> self.stealer_v(k).len() == 0
    }

    /// Queue a new child directory on the normal injector.
    pub fn enqueue_dir(&mut self, path: DirPath, depth: u32)
        ensures
            final(self).normal_v() == old(self).normal_v().push(
                JobV { dir: path@, depth, resume: None },
            ),
            final(self).local == old(self).local,
            final(self).high == old(self).high,
            final(self).stealers == old(self).stealers,
            final(self).next == old(self).next,
    {
        self.normal.push(Job { dir: path, depth, resume: None });
        proof {
            assert(self.normal_v() =~= old(self).normal_v().push(
                JobV { dir: self.normal@.last().dir@, depth, resume: None },
            ));
        }
    }

    /// Queue a resume continuation — the next-entry position a yielded
    /// directory segment returned — on the high injector, ahead of new
    /// top-level work, so large directories cannot starve.
    pub fn enqueue_resume(&mut self, path: DirPath, depth: u32, resume: u64)
        ensures
            final(self).high_v() == old(self).high_v().push(
                JobV { dir: path@, depth, resume: Some(resume) },
            ),
            final(self).local == old(self).local,
            final(self).normal == old(self).normal,
            final(self).stealers == old(self).stealers,
            final(self).next == old(self).next,
    {
        self.high.push(Job { dir: path, depth, resume: Some(resume) });
        proof {
            assert(self.high_v() =~= old(self).high_v().push(
                JobV { dir: self.high@.last().dir@, depth, resume: Some(resume) },
            ));
        }
    }

    /// What a fetch promises: the empty result exactly on all-empty
    /// sources, and the job taken from the front of the first non-empty
    /// source in priority order.
    pub open spec fn fetch_post(pre: WorkQueues, post: WorkQueues, r: Option<Job>) -> bool {
        &&& (r is None) == pre.all_empty()
        &&& (pre.local_v().len() > 0 ==> (r matches Some(j) ==> j@ == pre.local_v()[0]) && (
        r is Some) && post.local_v() == pre.local_v().drop_first() && post.high == pre.high
            && post.normal == pre.normal && post.stealers == pre.stealers)
        &&& (pre.local_v().len() == 0 && pre.high_v().len() > 0 ==> (r matches Some(j) ==> j@
            == pre.high_v()[0]) && (r is Some) && post.high_v() == pre.high_v().drop_first()
            && post.local == pre.local && post.normal == pre.normal && post.stealers
            == pre.stealers)
        &&& (pre.local_v().len() == 0 && pre.high_v().len() == 0 && pre.normal_v().len() > 0 ==> (
        r matches Some(j) ==> j@ == pre.normal_v()[0]) && (r is Some) && post.normal_v()
            == pre.normal_v().drop_first() && post.local == pre.local && post.high == pre.high
            && post.stealers == pre.stealers)
        &&& (pre.local_v().len() == 0 && pre.high_v().len() == 0 && pre.normal_v().len() == 0
            && !pre.all_empty() ==> (r is Some) && post.local == pre.local && post.high
            == pre.high && post.normal == pre.normal && (exists|k: int|
            0 <= k < pre.stealers@.len() && pre.stealer_v(k).len() > 0 && (r matches Some(j) && j@
                == pre.stealer_v(k)[0]) && post.stealer_v(k) == pre.stealer_v(k).drop_first() && (
            forall|k2: int|
                0 <= k2 < pre.stealers@.len() && k2 != k ==> post.stealers@[k2]
                    == pre.stealers@[k2])))
        &&& (pre.all_empty() ==> post.local == pre.local && post.high == pre.high && post.normal
            == pre.normal && post.stealers == pre.stealers)
    }

    /// Fetch the next job: own deque first, then the high injector, the
    /// normal injector, and finally one round-robin pass over the other
    /// workers. Returns `None` exactly when every source is empty, and
    /// advances the round-robin offset whenever the steal loop ran.
    pub fn fetch(&mut self) -> (r: Option<Job>)
        requires
            old(self).wf(),
        ensures
            final(self).wf(),
            WorkQueues::fetch_post(*old(self), *final(self), r),
    {
        if self.local.len() > 0 {
            let j = self.local.remove(0);
            proof {
                assert(self.local_v() =~= old(self).local_v().drop_first());
                assert(j@ == old(self).local_v()[0]);
            }
            return Some(j);
        }
        if self.high.len() > 0 {
            let j = self.high.remove(0);
            proof {
                assert(self.high_v() =~= old(self).high_v().drop_first());
                assert(j@ == old(self).high_v()[0]);
            }
            return Some(j);
        }
        if self.normal.len() > 0 {
            let j = self.normal.remove(0);
            proof {
                assert(self.normal_v() =~= old(self).normal_v().drop_first());
                assert(j@ == old(self).normal_v()[0]);
            }
            return Some(j);
        }
        let len = self.stealers.len();
        let start = self.next;
        let mut k: usize = 0;
        let mut found: Option<Job> = None;
        let ghost mut hitq: int = 0;
        while k < len
            invariant
                len == self.stealers@.len(),
                start == self.next,
                len == 0 || start < len,
                k <= len,
                self.local == old(self).local,
                self.high == old(self).high,
                self.normal == old(self).normal,
                self.next == old(self).next,
                found is None ==> self.stealers == old(self).stealers,
                found is None ==> forall|kk: int|
                    0 <= kk < k ==> #[trigger] old(self).stealer_v(
                        rr_index(start as int, kk, len as int),
                    ).len() == 0,
                found matches Some(j) ==> 0 <= hitq < len && old(self).stealer_v(hitq).len() > 0
                    && j@ == old(self).stealer_v(hitq)[0] && self.stealer_v(hitq) == old(
                    self,
                ).stealer_v(hitq).drop_first() && (forall|k2: int|
                    0 <= k2 < len && k2 != hitq ==> self.stealers@[k2] == old(self).stealers@[k2]),
            decreases len - k,
        {
            if found.is_none() {
                let idx = if k < len - start {
                    start + k
                } else {
                    k - (len - start)
                };
                proof {
                    assert(idx < len);
                    if k < len - start {
                        assert((start as int + k as int) % (len as int) == start as int
                            + k as int) by (nonlinear_arith)
                            requires
                                0 <= (start as int + k as int),
                                (start as int + k as int) < len as int,
                        ;
                    } else {
                        assert((start as int + k as int) % (len as int) == start as int + k as int
                            - len as int) by (nonlinear_arith)
                            requires
                                len as int <= (start as int + k as int),
                                (start as int + k as int) < 2 * (len as int),
                                (len as int) > 0,
                        ;
                    }
                    assert(idx as int == rr_index(start as int, k as int, len as int));
                }
                if self.stealers[idx].len() > 0 {
                    let ghost q = idx as int;
                    let lane = &mut self.stealers[idx];
                    let j = lane.remove(0);
                    proof {
                        hitq = q;
                        assert(j@ == old(self).stealer_v(q)[0]);
                        assert(self.stealer_v(q) =~= old(self).stealer_v(q).drop_first());
                    }
                    found = Some(j);
                } else {
                    proof {
                        assert(rr_index(start as int, k as int, len as int) == idx as int);
                        assert(old(self).stealer_v(idx as int).len() == 0);
                    }
                }
            }
            k = k + 1;
        }
        if len > 0 {
            self.next = (start + 1) % len;
        }
        proof {
            if found is Some {
                assert(self.stealer_v(hitq) == old(self).stealer_v(hitq).drop_first());
            }
            if found is None {
                assert forall|kk: int|
                    0 <= kk < self.stealers@.len() implies old(self).stealer_v(kk).len() == 0 by {
                    let shifted = if kk >= start as int {
                        kk - start as int
                    } else {
                        kk + len as int - start as int
                    };
                    assert(0 <= shifted < len as int);
                    if kk >= start as int {
                        assert((start as int + shifted) == kk);
                        assert(kk % (len as int) == kk) by (nonlinear_arith)
                            requires
                                0 <= kk < len as int,
                        ;
                        assert(rr_index(start as int, shifted, len as int) == kk);
                    } else {
                        assert((start as int + shifted) == kk + len as int);
                        assert(((kk + len as int) % (len as int)) == kk) by (nonlinear_arith)
                            requires
                                0 <= kk < len as int && len as int > 0,
                        ;
                        assert(rr_index(start as int, shifted, len as int) == kk);
                    }
                    assert(old(self).stealer_v(rr_index(start as int, shifted, len as int)).len()
                        == 0);
                }
            }
        }
        found
    }
}

} // verus!
