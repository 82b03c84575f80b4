//! Incremental snapshots: change classification.
//!
//! The optional snapshot store remembers, per file, its modification
//! time, size and identity; a later walk compares what it finds against
//! the store and counts additions, removals and modifications. The store
//! itself and the walking live in the embedding; what makes a file
//! "changed" is decided here.

use vstd::prelude::*;

use crate::path::DirPath;

verus! {

/// One file's remembered state.
pub struct PathSnapshot {
    pub path: DirPath,
    pub mtime: u64,
    pub size: u64,
    pub dev: u64,
    pub ino: u64,
}

/// Counts of differences between a walk and the store.
#[derive(Clone, Copy, Debug, PartialEq, Eq, Structural)]
pub struct DeltaSet {
    pub added: u64,
    pub removed: u64,
    pub modified: u64,
}

impl Default for DeltaSet {
    /// No differences.
    fn default() -> (r: DeltaSet)
        ensures
            r == (DeltaSet { added: 0, removed: 0, modified: 0 }),
    {
        DeltaSet { added: 0, removed: 0, modified: 0 }
    }
}

/// How one found file relates to the store.
#[derive(Clone, Copy, Debug, PartialEq, Eq, Structural)]
pub enum SnapshotChange {
    Added,
    Modified,
    Unchanged,
}

/// Classify one found file against its remembered state: unknown files
/// are additions; a different modification time or size is a
/// modification.
pub fn classify_change(prev: &Option<PathSnapshot>, cur_mtime: u64, cur_size: u64) -> (r:
    SnapshotChange)
    ensures
        r == (match prev {
            None => SnapshotChange::Added,
            Some(p) => if p.mtime != cur_mtime || p.size != cur_size {
                SnapshotChange::Modified
            } else {
                SnapshotChange::Unchanged
            },
        }),
{
    match prev {
        None => SnapshotChange::Added,
        Some(p) => {
            if p.mtime != cur_mtime || p.size != cur_size {
                SnapshotChange::Modified
            } else {
                SnapshotChange::Unchanged
            }
        },
    }
}

impl DeltaSet {
    /// Count one classified change; removals are counted separately by
    /// the store sweep.
    pub fn record(&mut self, change: SnapshotChange)
        ensures
            *final(self) == (match change {
                SnapshotChange::Added => DeltaSet {
                    added: old(self).added.saturating_add(1),
                    ..*old(self)
                },
                SnapshotChange::Modified => DeltaSet {
                    modified: old(self).modified.saturating_add(1),
                    ..*old(self)
                },
                SnapshotChange::Unchanged => *old(self),
            }),
    {
        match change {
            SnapshotChange::Added => {
                self.added = self.added.saturating_add(1);
            },
            SnapshotChange::Modified => {
                self.modified = self.modified.saturating_add(1);
            },
            SnapshotChange::Unchanged => {},
        }
    }

    /// Count one file present in the store but gone from disk.
    pub fn record_removed(&mut self)
        ensures
            *final(self) == (DeltaSet { removed: old(self).removed.saturating_add(1), ..*old(self) }),
    {
        self.removed = self.removed.saturating_add(1);
    }
}

} // verus!
