//! Batched metadata probes.
//!
//! A backend gathers names from one directory into a batch of bounded
//! size; the embedding probes their metadata — threaded or through a
//! ring — and hands the outcomes back in batch order. The batch queue
//! and result bookkeeping are specified here; one probe outcome is a
//! `(logical, physical)` pair or `None` for a failed probe.

use vstd::prelude::*;

verus! {

/// One queued name: its bytes, its directory-entry type byte, and
/// whether it is already known to be a directory.
pub struct BatchItem {
    pub name: Vec<u8>,
    pub d_type: u8,
    pub is_dir: bool,
}

/// What a metadata probe learned about one entry.
#[derive(Clone, Copy, Debug, PartialEq, Eq, Structural)]
pub struct EntryStats {
    pub logical: u64,
    pub physical: u64,
    pub dev: u64,
    pub ino: u64,
    pub is_dir: bool,
    pub is_reg: bool,
}

/// Collector of names awaiting a batched metadata probe, bound to the
/// open directory's file descriptor.
pub struct BatchStatCollector {
    pub fd: i32,
    pub batch: Vec<BatchItem>,
    pub results: Vec<Option<(u64, u64)>>,
}

impl BatchStatCollector {
    /// An empty collector for the directory behind `fd`.
    pub fn new(fd: i32) -> (r: BatchStatCollector)
        ensures
            r.fd == fd,
            r.batch@.len() == 0,
            r.results@.len() == 0,
    {
        BatchStatCollector { fd, batch: Vec::new(), results: Vec::new() }
    }

    /// Queue one name for the next probe pass.
    pub fn add(&mut self, name: Vec<u8>, d_type: u8, is_dir: bool)
        ensures
            final(self).batch@ == old(self).batch@.push(BatchItem { name, d_type, is_dir }),
            final(self).fd == old(self).fd,
            final(self).results == old(self).results,
    {
        self.batch.push(BatchItem { name, d_type, is_dir });
    }

    /// Whether the batch reached its bound of 32 names.
    pub fn is_full(&self) -> (r: bool)
        ensures
            r == (self.batch@.len() >= 32),
    {
        self.batch.len() >= 32
    }

    /// Take in the probe outcomes for the current batch, one slot per
    /// batched name, in batch order; the embedding performed the probes
    /// against `fd`.
    pub fn process(&mut self, outcomes: Vec<Option<(u64, u64)>>)
        requires
            outcomes@.len() == old(self).batch@.len(),
        ensures
            final(self).results@ == outcomes@,
            final(self).results@.len() == final(self).batch@.len(),
            final(self).batch == old(self).batch,
            final(self).fd == old(self).fd,
    {
        self.results = outcomes;
    }

    /// Hand the outcomes out, leaving the result buffer empty.
    pub fn take_results(&mut self) -> (r: Vec<Option<(u64, u64)>>)
        ensures
            r@ == old(self).results@,
            final(self).results@.len() == 0,
            final(self).batch == old(self).batch,
            final(self).fd == old(self).fd,
    {
        let mut out: Vec<Option<(u64, u64)>> = Vec::new();
        core::mem::swap(&mut out, &mut self.results);
        out
    }

    /// Drop the batch and any outcomes.
    pub fn clear(&mut self)
        ensures
            final(self).batch@.len() == 0,
            final(self).results@.len() == 0,
            final(self).fd == old(self).fd,
    {
        self.batch.clear();
        self.results.clear();
    }
}

} // verus!
