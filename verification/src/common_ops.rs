//! Operations shared by every enumeration backend: hardlink
//! deduplication, visited-directory tracking, file-stat accumulation,
//! physical-size derivation and progress accounting.

use vstd::prelude::*;

use crate::options::Options;
use crate::Stat;

verus! {

/// A set of `(device, inode)` keys backed by the dashmap crate's
/// concurrent hash map, whose atomic insert-and-report-prior is what the
/// scan's deduplication relies on. Verus sees it through [`inode_keys`].
#[verifier::external_body]
pub struct InodeSet {
    inner: dashmap::DashMap<(u64, u64), ()>,
}

/// The keys an [`InodeSet`] holds.
pub uninterp spec fn inode_keys(s: InodeSet) -> Set<(u64, u64)>;

impl InodeSet {
    /// Relies on dashmap::DashMap::new: the new map holds no key.
    #[verifier::external_body]
    pub fn new() -> (r: InodeSet)
        ensures
            inode_keys(r) == Set::<(u64, u64)>::empty(),
    {
        InodeSet { inner: dashmap::DashMap::new() }
    }

    /// Relies on dashmap::DashMap::insert: inserts the key and returns
    /// the value previously associated with it, if any.
    #[verifier::external_body]
    pub fn check_insert(&mut self, dev: u64, ino: u64) -> (r: bool)
        ensures
            r == inode_keys(*old(self)).contains((dev, ino)),
            inode_keys(*final(self)) == inode_keys(*old(self)).insert((dev, ino)),
    {
        self.inner.insert((dev, ino), ()).is_some()
    }
}

/// The visited-directory tracker for symlink-loop detection: a Bloom
/// filter screens the common never-seen case before the exact key set is
/// touched.
pub struct VisitSet {
    pub bloom: crate::Bloom,
    pub seen: InodeSet,
}

impl VisitSet {
    /// The filter admits every key the exact set holds: a Bloom miss
    /// really means never seen.
    pub open spec fn wf(&self) -> bool {
        &&& self.bloom.wf()
        &&& forall|k: (u64, u64)|
            inode_keys(self.seen).contains(k) ==> crate::bloom_has(self.bloom, k.0, k.1)
    }

    /// The keys recorded so far.
    pub open spec fn keys(&self) -> Set<(u64, u64)> {
        inode_keys(self.seen)
    }

    /// An empty tracker sized for at least `n_bits` filter bits.
    pub fn new(n_bits: usize) -> (r: VisitSet)
        requires
            n_bits <= usize::MAX / 2,
        ensures
            r.wf(),
            r.keys() == Set::<(u64, u64)>::empty(),
    {
        VisitSet { bloom: crate::Bloom::with_bits(n_bits), seen: InodeSet::new() }
    }

    /// Record the key; report whether it had been recorded before. The
    /// filter screens first: only on a filter hit is the exact set
    /// consulted.
    pub fn check_and_record(&mut self, dev: u64, ino: u64) -> (r: bool)
        requires
            old(self).wf(),
        ensures
            final(self).wf(),
            r == old(self).keys().contains((dev, ino)),
            final(self).keys() == old(self).keys().insert((dev, ino)),
    {
        if !self.bloom.test_and_set(dev, ino) {
            // Definitely never seen: record it in the exact set too.
            let prior = self.seen.check_insert(dev, ino);
            proof {
                assert(!prior);
            }
            false
        } else {
            self.seen.check_insert(dev, ino)
        }
    }
}

/// Whether this file is a hardlinked copy that was already counted; the
/// key is recorded as counted unless hardlinks count separately.
pub fn check_hardlink_duplicate(opt: &Options, cache: &mut InodeSet, dev: u64, ino: u64) -> (r:
    bool)
    ensures
        r == (!opt.count_hardlinks && inode_keys(*old(cache)).contains((dev, ino))),
        inode_keys(*final(cache)) == (if opt.count_hardlinks {
            inode_keys(*old(cache))
        } else {
            inode_keys(*old(cache)).insert((dev, ino))
        }),
{
    if opt.count_hardlinks {
        return false;
    }
    cache.check_insert(dev, ino)
}

/// Whether this directory was already visited; the check is active only
/// when symlinks are followed, and records the directory as visited.
pub fn check_visited_directory(opt: &Options, visited: &mut VisitSet, dev: u64, ino: u64) -> (r:
    bool)
    requires
        old(visited).wf(),
    ensures
        final(visited).wf(),
        r == (opt.follow_links && old(visited).keys().contains((dev, ino))),
        final(visited).keys() == (if opt.follow_links {
            old(visited).keys().insert((dev, ino))
        } else {
            old(visited).keys()
        }),
{
    if !opt.follow_links {
        return false;
    }
    visited.check_and_record(dev, ino)
}

/// Accumulate one file into a directory's running totals, saturating.
pub fn update_file_stats(stat_cur: &mut Stat, logical: u64, physical: u64)
    ensures
        *final(stat_cur) == old(stat_cur).spec_sat_add(
            Stat { logical, physical, files: 1u64 },
        ),
{
    stat_cur.logical = stat_cur.logical.saturating_add(logical);
    stat_cur.physical = stat_cur.physical.saturating_add(physical);
    stat_cur.files = stat_cur.files.saturating_add(1);
}

/// The physical size a file contributes: its allocated blocks in bytes,
/// the logical size where block data is absent or physical sizing is off.
pub open spec fn spec_physical_size(o: Options, logical: u64, blocks: u64) -> u64 {
    if !o.compute_physical {
        logical
    } else if blocks * 512 == 0 {
        logical
    } else if blocks * 512 > u64::MAX {
        u64::MAX
    } else {
        (blocks * 512) as u64
    }
}

/// Derive the physical size from the block count, saturating.
pub fn calculate_physical_size(opt: &Options, logical: u64, blocks: u64) -> (r: u64)
    ensures
        r == spec_physical_size(*opt, logical, blocks),
{
    if !opt.compute_physical {
        return logical;
    }
    let block_size = match blocks.checked_mul(512) {
        Some(v) => v,
        None => u64::MAX,
    };
    if block_size == 0 {
        logical
    } else {
        block_size
    }
}

/// Whether name-only filtering suffices: no substring pattern reaches
/// across a path separator.
pub open spec fn spec_fast_exclude(pats: Seq<Seq<char>>) -> bool {
    forall|i: int|
        0 <= i < pats.len() ==> !(#[trigger] pats[i]).contains('/') && !pats[i].contains('\\')
}

/// Whether the substring patterns can be tested against bare names alone.
pub fn should_fast_exclude(opt: &Options) -> (r: bool)
    ensures
        r == spec_fast_exclude(crate::filters::pats_view(opt.exclude_contains@)),
{
    let pats = &opt.exclude_contains;
    let mut i: usize = 0;
    while i < pats.len()
        invariant
            pats@ == opt.exclude_contains@,
            i <= pats.len(),
            forall|j: int|
                0 <= j < i ==> !(#[trigger] crate::filters::pats_view(pats@)[j]).contains('/')
                    && !crate::filters::pats_view(pats@)[j].contains('\\'),
        decreases pats.len() - i,
    {
        let s = pats[i].as_str();
        let n = s.unicode_len();
        let mut j: usize = 0;
        while j < n
            invariant
                pats@ == opt.exclude_contains@,
                i < pats@.len(),
                s@ == pats@[i as int]@,
                n == s@.len(),
                j <= n,
                forall|k: int| 0 <= k < j ==> s@[k] != '/' && s@[k] != '\\',
            decreases n - j,
        {
            let c = s.get_char(j);
            if c == '/' || c == '\\' {
                proof {
                    assert(crate::filters::pats_view(pats@)[i as int] == pats@[i as int]@);
                    assert(crate::filters::pats_view(pats@)[i as int].contains(c));
                }
                return false;
            }
            j = j + 1;
        }
        proof {
            assert(crate::filters::pats_view(pats@)[i as int] == pats@[i as int]@);
        }
        i = i + 1;
    }
    true
}

/// Count one more file toward the progress total; report the new total
/// where a notification is due (`progress_every` divides it), `None`
/// otherwise. The embedding invokes its callbacks on `Some`.
pub fn report_file_progress(opt: &Options, total_files: &mut u64) -> (r: Option<u64>)
    ensures
        *final(total_files) == (if opt.progress_every > 0 {
            old(total_files).saturating_add(1)
        } else {
            *old(total_files)
        }),
        r == (if opt.progress_every > 0 && *final(total_files) % opt.progress_every == 0 {
            Some(*final(total_files))
        } else {
            None::<u64>
        }),
{
    if opt.progress_every == 0 {
        return None;
    }
    *total_files = total_files.saturating_add(1);
    if *total_files % opt.progress_every == 0 {
        Some(*total_files)
    } else {
        None
    }
}

} // verus!
