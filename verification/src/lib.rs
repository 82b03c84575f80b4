//! Verified core of a disk-usage analyzer.
//!
//! The library models a scan over a directory tree: per-directory byte and
//! file totals are accumulated under a configurable filter pipeline
//! (substring, regex and glob layers), a depth cap, a minimum file size,
//! hardlink deduplication, symlink-loop detection and a one-file-system
//! boundary, and are then rolled up from each directory to all of its
//! ancestors. Platform enumeration backends feed the scan from outside;
//! everything from their raw listings to the final statistics map is
//! specified and proved here.

use vstd::prelude::*;

pub mod batch_stat;
pub mod classify;
pub mod common_ops;
pub mod dirent;
pub mod error_handling;
pub mod memory_pool;
pub mod scanner;
pub mod scheduler;
pub mod tuning;
pub mod filters;
pub mod incremental;
pub mod fs_strategy;
pub mod fstree;
pub mod options;
pub mod path;
pub mod ring;
pub mod rollup;
pub mod stat_map;

use crate::common_ops::{inode_keys, InodeSet, VisitSet};
use crate::error_handling::ScanError;
use crate::fstree::{lookup_dir, DirV, EntryKind, EntryV, FsEntry, FsTree, KindV};
use crate::options::Options;
use crate::path::{join_path, DirPath};
use crate::stat_map::{rows_add, rows_ensure, StatMap};

verus! {

/// Output compatibility family requested by the caller. The scan core only
/// carries the value; strict modes influence how backends flag their
/// metadata probes, never the shape of the resulting map.
#[derive(Clone, Copy, Debug, PartialEq, Eq, Structural)]
pub enum CompatMode {
    HyperDU,
    GnuBasic,
    GnuStrict,
    PosixStrict,
}

/// Multi-root scheduling preference: probe and decide, outer parallelism
/// only, or inner parallelism only.
#[derive(Clone, Copy, Debug, PartialEq, Eq, Structural)]
pub enum HeuristicsMode {
    Auto,
    OuterOnly,
    InnerOnly,
}

/// One directory job as a backend sees it: the directory, its depth,
/// and an optional resume cookie to continue a partially read listing.
pub struct DirContext {
    pub dir: DirPath,
    pub depth: u32,
    pub resume: Option<u64>,
}

/// Per-directory totals: logical bytes, physical (allocated) bytes and
/// number of files counted. Additive under merge and rollup.
#[derive(Clone, Copy, Debug, PartialEq, Eq, Structural)]
pub struct Stat {
    pub logical: u64,
    pub physical: u64,
    pub files: u64,
}

impl Default for Stat {
    /// The zero total.
    fn default() -> (r: Stat)
        ensures
            r.logical == 0 && r.physical == 0 && r.files == 0,
    {
        Stat { logical: 0, physical: 0, files: 0 }
    }
}

impl Stat {
    /// The zero total, usable in any position.
    pub fn zero() -> (r: Stat)
        ensures
            r == (Stat { logical: 0, physical: 0, files: 0 }),
    {
        Stat { logical: 0, physical: 0, files: 0 }
    }

    /// Whether adding `other` on top of `self` stays within `u64`.
    pub open spec fn add_fits(self, other: Stat) -> bool {
        &&& self.logical + other.logical <= u64::MAX
        &&& self.physical + other.physical <= u64::MAX
        &&& self.files + other.files <= u64::MAX
    }

    /// The component-wise sum, as a specification value.
    pub open spec fn spec_add(self, other: Stat) -> Stat {
        Stat {
            logical: (self.logical + other.logical) as u64,
            physical: (self.physical + other.physical) as u64,
            files: (self.files + other.files) as u64,
        }
    }

    /// Component-wise sum of two totals.
    pub fn add(self, other: Stat) -> (r: Stat)
        requires
            self.add_fits(other),
        ensures
            r == self.spec_add(other),
    {
        Stat {
            logical: self.logical + other.logical,
            physical: self.physical + other.physical,
            files: self.files + other.files,
        }
    }

    /// The component-wise sum with each component capped at `u64::MAX`, as
    /// a specification value.
    pub open spec fn spec_sat_add(self, other: Stat) -> Stat {
        Stat {
            logical: self.logical.saturating_add(other.logical),
            physical: self.physical.saturating_add(other.physical),
            files: self.files.saturating_add(other.files),
        }
    }

    /// Component-wise saturating sum: accumulation never overflows, it caps.
    pub fn sat_add(self, other: Stat) -> (r: Stat)
        ensures
            r == self.spec_sat_add(other),
            self.add_fits(other) ==> r == self.spec_add(other),
    {
        Stat {
            logical: self.logical.saturating_add(other.logical),
            physical: self.physical.saturating_add(other.physical),
            files: self.files.saturating_add(other.files),
        }
    }

    /// Component-wise order: `self` within `other`.
    pub open spec fn le(self, other: Stat) -> bool {
        self.logical <= other.logical && self.physical <= other.physical && self.files
            <= other.files
    }
}

/// The 128-bit key packing a `(device, inode)` pair.
pub open spec fn bloom_key(dev: u64, ino: u64) -> u128 {
    ((dev as u128) << 64) | (ino as u128)
}

/// The key rotated left by 17 bits, seeding the second probe.
pub open spec fn bloom_rot(key: u128) -> u128 {
    (key << 17) | (key >> 111)
}

/// The mixing step behind both probes.
pub open spec fn bloom_mix(key: u128) -> u128 {
    (key ^ (key >> 33)).wrapping_mul(0xff51afd7ed558ccd)
}

/// The raw word index a mixed key selects, before masking.
pub open spec fn bloom_idx(key: u128) -> u64 {
    (#[verifier::truncate] ((bloom_mix(key) >> 6) as u64))
}

/// The in-word shift a mixed key selects.
pub open spec fn bloom_shift(key: u128) -> u32 {
    (#[verifier::truncate] (bloom_mix(key) as u32)) & 63
}

/// The in-word bit a mixed key selects.
pub open spec fn bloom_bit(key: u128) -> u64 {
    1u64 << bloom_shift(key)
}

/// Whether one probe position of `key` is set in the bit array.
pub open spec fn bloom_probe_set(b: Bloom, key: u128) -> bool {
    b.bits@[(((bloom_idx(key) & b.mask) / 64) as int)] & bloom_bit(key) != 0
}

/// Whether both probe positions of the pair are set: a probable hit.
pub open spec fn bloom_has(b: Bloom, dev: u64, ino: u64) -> bool {
    bloom_probe_set(b, bloom_key(dev, ino)) && bloom_probe_set(b, bloom_rot(bloom_key(dev, ino)))
}

/// A positive power of two.
pub open spec fn is_power_of_two(n: int) -> bool
    decreases n,
{
    if n <= 0 {
        false
    } else if n == 1 {
        true
    } else {
        n % 2 == 0 && is_power_of_two(n / 2)
    }
}

/// 2^20 is a power of two, through the doubling chain.
proof fn lemma_pow2_of_meg()
    ensures
        is_power_of_two(0x100000),
{
    assert(is_power_of_two(1));
    assert(is_power_of_two(2));
    assert(is_power_of_two(4));
    assert(is_power_of_two(8));
    assert(is_power_of_two(16));
    assert(is_power_of_two(32));
    assert(is_power_of_two(64));
    assert(is_power_of_two(128));
    assert(is_power_of_two(256));
    assert(is_power_of_two(512));
    assert(is_power_of_two(1024));
    assert(is_power_of_two(2048));
    assert(is_power_of_two(4096));
    assert(is_power_of_two(8192));
    assert(is_power_of_two(16384));
    assert(is_power_of_two(32768));
    assert(is_power_of_two(65536));
    assert(is_power_of_two(131072));
    assert(is_power_of_two(262144));
    assert(is_power_of_two(524288));
    assert(is_power_of_two(1048576));
}

/// Probabilistic presence filter over `(device, inode)` pairs: a
/// power-of-two bit array with two derived bit positions per key.
/// `test_and_set` reports an earlier presence with no false negative:
/// a key once set is always reported set again.
pub struct Bloom {
    pub mask: u64,
    pub bits: Vec<u64>,
}

impl Bloom {
    /// The mask covers exactly the array: `mask + 1` bits in whole words.
    pub open spec fn wf(&self) -> bool {
        &&& self.bits@.len() * 64 == self.mask + 1
        &&& self.bits@.len() >= 1
    }

    /// A cleared filter sized to the next power of two at or above both
    /// `n_bits` and 2^20.
    pub fn with_bits(n_bits: usize) -> (r: Bloom)
        requires
            n_bits <= usize::MAX / 2,
        ensures
            r.wf(),
            forall|d: u64, i: u64| !bloom_has(r, d, i),
            is_power_of_two(r.mask + 1),
            r.mask + 1 >= 0x100000,
            r.mask + 1 >= n_bits,
            r.mask + 1 == 0x100000 || r.mask + 1 < 2 * n_bits,
    {
        proof {
            assert((1usize << 20) == 0x100000usize) by (bit_vector);
            lemma_pow2_of_meg();
        }
        let mut n: usize = 1usize << 20;
        while n < n_bits
            invariant
                n_bits <= usize::MAX / 2,
                n >= 0x100000usize,
                n % 64 == 0,
                is_power_of_two(n as int),
                n == 0x100000usize || n < 2 * n_bits,
            decreases (if n < n_bits { n_bits - n } else { 0 }),
        {
            n = n * 2;
        }
        let words = n / 64;
        let mut bits: Vec<u64> = Vec::new();
        let mut i: usize = 0;
        while i < words
            invariant
                i <= words,
                bits@.len() == i,
                forall|j: int| 0 <= j < i ==> bits@[j] == 0u64,
            decreases words - i,
        {
            bits.push(0);
            i = i + 1;
        }
        let r = Bloom { mask: (n - 1) as u64, bits };
        proof {
            assert(r.wf());
            assert(forall|x: u64, m: u64| #[trigger] (x & m) <= m) by (bit_vector);
            assert(forall|b: u64| 0u64 & b == 0u64) by (bit_vector);
            assert forall|d: u64, i2: u64| !bloom_has(r, d, i2) by {
                let k1 = bloom_key(d, i2);
                assert(bloom_idx(k1) & r.mask <= r.mask);
                assert(r.bits@[(((bloom_idx(k1) & r.mask) / 64) as int)] == 0u64);
            }
        }
        r
    }

    /// Set both probe positions of the pair; report whether both were
    /// already set. Bits are only ever added, so an earlier hit is never
    /// forgotten.
    pub fn test_and_set(&mut self, dev: u64, ino: u64) -> (r: bool)
        requires
            old(self).wf(),
        ensures
            final(self).wf(),
            final(self).mask == old(self).mask,
            r == bloom_has(*old(self), dev, ino),
            bloom_has(*final(self), dev, ino),
            forall|d: u64, i: u64| bloom_has(*old(self), d, i) ==> bloom_has(*final(self), d, i),
    {
        let key: u128 = ((dev as u128) << 64) | (ino as u128);
        let key2: u128 = (key << 17) | (key >> 111);
        let m1 = (key ^ (key >> 33)).wrapping_mul(0xff51afd7ed558ccd);
        let m2 = (key2 ^ (key2 >> 33)).wrapping_mul(0xff51afd7ed558ccd);
        let t1: u32 = #[verifier::truncate] (m1 as u32);
        let t2: u32 = #[verifier::truncate] (m2 as u32);
        proof {
            assert(t1 & 63 < 64u32) by (bit_vector);
            assert(t2 & 63 < 64u32) by (bit_vector);
        }
        let s1 = t1 & 63;
        let s2 = t2 & 63;
        let b1 = 1u64 << s1;
        let b2 = 1u64 << s2;
        let j1: u64 = #[verifier::truncate] ((m1 >> 6) as u64);
        let j2: u64 = #[verifier::truncate] ((m2 >> 6) as u64);
        proof {
            let mk = self.mask;
            assert(j1 & mk <= mk) by (bit_vector);
            assert(j2 & mk <= mk) by (bit_vector);
        }
        let i1 = j1 & self.mask;
        let i2 = j2 & self.mask;
        let nwords = self.bits.len();
        proof {
            assert(i1 / 64 < nwords && i2 / 64 < nwords);
        }
        let w1 = (i1 / 64) as usize;
        let w2 = (i2 / 64) as usize;
        let old1 = self.bits[w1];
        let e1 = &mut self.bits[w1];
        *e1 = old1 | b1;
        let old2 = self.bits[w2];
        let e2 = &mut self.bits[w2];
        *e2 = old2 | b2;
        let r = (old1 & b1 != 0) && (old2 & b2 != 0);
        proof {
            let k1 = bloom_key(dev, ino);
            let k2 = bloom_rot(k1);
            let pre = *old(self);
            assert(self.bits@.len() == pre.bits@.len());
            assert(s1 == bloom_shift(k1) && s2 == bloom_shift(k2));
            assert(b1 == bloom_bit(k1) && b2 == bloom_bit(k2));
            assert(i1 == (bloom_idx(k1) & pre.mask) && i2 == (bloom_idx(k2) & pre.mask));
            assert(((bloom_idx(k1) & pre.mask) / 64) as int == w1 as int);
            assert(((bloom_idx(k2) & pre.mask) / 64) as int == w2 as int);
            // Word-level facts, each valid for every value of the locals.
            assert(((old1 | (1u64 << (t1 & 63))) & (1u64 << (t1 & 63))) != 0) by (bit_vector);
            assert(((old2 | (1u64 << (t2 & 63))) & (1u64 << (t2 & 63))) != 0) by (bit_vector);
            assert((t1 & 63) != (t2 & 63) ==> (((old1 | (1u64 << (t1 & 63))) & (1u64 << (t2 & 63)))
                != 0) == ((old1 & (1u64 << (t2 & 63))) != 0)) by (bit_vector);
            assert(((old1 | (1u64 << (t1 & 63))) | (1u64 << (t2 & 63))) == (old1 | ((1u64 << (t1
                & 63)) | (1u64 << (t2 & 63))))) by (bit_vector);
            assert((((old1 | (1u64 << (t1 & 63))) | (1u64 << (t2 & 63))) & (1u64 << (t1 & 63)))
                != 0) by (bit_vector);
            // The result reports exactly the prior state of both probes.
            if w1 == w2 {
                assert(old2 == old1 | b1);
                if s1 == s2 {
                    assert(b1 == b2);
                    assert((old1 & b1 != 0) == (old1 & b2 != 0));
                }
            } else {
                assert(old1 == pre.bits@[w1 as int] && old2 == pre.bits@[w2 as int]);
            }
            assert(r == bloom_has(pre, dev, ino));
            // Both probes are set in the updated array.
            if w1 == w2 {
                assert(self.bits@[w1 as int] == (old1 | b1) | b2);
            } else {
                assert(self.bits@[w1 as int] == old1 | b1);
            }
            assert(self.bits@[w2 as int] == old2 | b2);
            assert(bloom_probe_set(*self, k1));
            assert(bloom_probe_set(*self, k2));
            // No bit was cleared: every earlier hit is kept.
            assert forall|d: u64, i: u64|
                bloom_has(pre, d, i) implies bloom_has(*self, d, i) by {
                let q1 = bloom_key(d, i);
                let q2 = bloom_rot(q1);
                let mk = pre.mask;
                let a1 = bloom_idx(q1);
                let a2 = bloom_idx(q2);
                assert(a1 & mk <= mk) by (bit_vector);
                assert(a2 & mk <= mk) by (bit_vector);
                let u1 = ((a1 & mk) / 64) as int;
                let u2 = ((a2 & mk) / 64) as int;
                assert(0 <= u1 < self.bits@.len() && 0 <= u2 < self.bits@.len());
                lemma_probe_kept(pre.bits@, self.bits@, u1, w1 as int, w2 as int, b1, b2,
                    bloom_bit(q1));
                lemma_probe_kept(pre.bits@, self.bits@, u2, w1 as int, w2 as int, b1, b2,
                    bloom_bit(q2));
            }
        }
        r
    }
}

/// After the two probe words gain their bits, no tested bit is lost.
proof fn lemma_probe_kept(
    pre: Seq<u64>,
    post: Seq<u64>,
    u: int,
    w1: int,
    w2: int,
    b1: u64,
    b2: u64,
    probe: u64,
)
    requires
        0 <= u < pre.len(),
        pre.len() == post.len(),
        w1 == w2 ==> post[w1] == (pre[w1] | b1) | b2,
        w1 != w2 ==> post[w1] == pre[w1] | b1 && post[w2] == pre[w2] | b2,
        forall|j: int| 0 <= j < pre.len() && j != w1 && j != w2 ==> post[j] == pre[j],
        0 <= w1 < pre.len(),
        0 <= w2 < pre.len(),
    ensures
        (pre[u] & probe != 0) ==> (post[u] & probe != 0),
{
    let x = pre[u];
    if u == w1 && w1 == w2 {
        assert((x & probe != 0) ==> ((((x | b1) | b2) & probe) != 0)) by (bit_vector);
    } else if u == w1 {
        assert((x & probe != 0) ==> (((x | b1) & probe) != 0)) by (bit_vector);
    } else if u == w2 {
        assert((x & probe != 0) ==> (((x | b2) & probe) != 0)) by (bit_vector);
    }
}


// ---------------------------------------------------------------------------
// The scan: specification.
// ---------------------------------------------------------------------------

/// The evolving state of one scan: directories claimed for processing,
/// directory identities seen while following links, file identities
/// counted, the accumulated per-directory rows, and the remaining
/// directory budget (the cancellation model: an exhausted budget makes
/// every further directory a no-op, and what was gathered still rolls
/// up).
#[verifier::ext_equal]
pub ghost struct ScanV {
    pub processed: Seq<Seq<Seq<char>>>,
    pub visited: Set<(u64, u64)>,
    pub inodes: Set<(u64, u64)>,
    pub rows: Seq<(Seq<Seq<char>>, Stat)>,
    pub budget: nat,
}

/// Whether the depth cap admits children of a directory at `depth`.
pub open spec fn depth_permits(o: Options, depth: u32) -> bool {
    o.max_depth == 0 || depth < o.max_depth
}

/// Whether an entry is excluded: its bare name by the name-directed
/// layers, or its full path by any layer.
pub open spec fn spec_entry_excluded(o: Options, name: Seq<char>, child_str: Seq<char>) -> bool {
    crate::filters::name_matches_spec(o, name) || crate::filters::path_excluded_spec(o, child_str)
}

/// The logical and physical size a file entry contributes: a nominal
/// 4096 bytes in approximate mode without physical sizing or a size
/// floor, the probed sizes otherwise.
pub open spec fn spec_file_sizes(o: Options, e: EntryV) -> (u64, u64) {
    if o.approximate_sizes && !o.compute_physical && o.min_file_size == 0 {
        (4096u64, 4096u64)
    } else {
        (e.size, crate::common_ops::spec_physical_size(o, e.size, e.blocks))
    }
}

/// Count one file entry into its directory's row: skipped when it sits on
/// a foreign device under the one-file-system rule, when it is under the
/// size floor, or when it is a hardlinked copy already counted.
pub open spec fn spec_count_file(
    o: Options,
    root_dev: u64,
    p: Seq<Seq<char>>,
    e: EntryV,
    st: ScanV,
) -> ScanV {
    if o.one_file_system && e.dev != root_dev {
        st
    } else {
        let l = spec_file_sizes(o, e).0;
        let ph = spec_file_sizes(o, e).1;
        if l < o.min_file_size {
            st
        } else {
            let dup = !o.count_hardlinks && st.inodes.contains((e.dev, e.ino));
            let inodes2 = if o.count_hardlinks {
                st.inodes
            } else {
                st.inodes.insert((e.dev, e.ino))
            };
            if dup {
                ScanV { inodes: inodes2, ..st }
            } else {
                ScanV {
                    inodes: inodes2,
                    rows: rows_add(
                        st.rows,
                        p,
                        Stat { logical: l, physical: ph, files: 1u64 },
                    ),
                    ..st
                }
            }
        }
    }
}

/// Consider descending into the directory `target` whose entry carried
/// identity `(dev, ino)`: the one-file-system rule, the depth cap, the
/// visited set (when following links) and the claimed set gate the
/// descent; a known listing is scanned, an unknown one still gets its
/// empty row.
pub open spec fn spec_enter_dir(
    t: Seq<DirV>,
    o: Options,
    root_dev: u64,
    target: Seq<Seq<char>>,
    dev: u64,
    ino: u64,
    depth: u32,
    st: ScanV,
    fuel: nat,
) -> ScanV
    decreases fuel, 0nat, 0nat,
{
    if o.one_file_system && dev != root_dev {
        st
    } else if !depth_permits(o, depth) || depth == u32::MAX {
        st
    } else {
        let hit = o.follow_links && st.visited.contains((dev, ino));
        let stv = ScanV {
            visited: if o.follow_links {
                st.visited.insert((dev, ino))
            } else {
                st.visited
            },
            ..st
        };
        if hit {
            stv
        } else {
            match lookup_dir(t, target) {
                Some(_) => {
                    if stv.processed.contains(target) {
                        stv
                    } else {
                        let stp = ScanV { processed: stv.processed.push(target), ..stv };
                        if fuel == 0 {
                            stp
                        } else {
                            spec_scan_dir(
                                t,
                                o,
                                root_dev,
                                target,
                                (depth + 1) as u32,
                                stp,
                                (fuel - 1) as nat,
                            )
                        }
                    }
                },
                None => ScanV { rows: rows_ensure(stv.rows, target), ..stv },
            }
        }
    }
}

/// Process one entry of the directory at `p`.
pub open spec fn spec_scan_entry(
    t: Seq<DirV>,
    o: Options,
    root_dev: u64,
    p: Seq<Seq<char>>,
    depth: u32,
    e: EntryV,
    st: ScanV,
    fuel: nat,
) -> ScanV
    decreases fuel, 0nat, 1nat,
{
    let child = p.push(e.name);
    let child_str = join_path(child);
    if spec_entry_excluded(o, e.name, child_str) {
        st
    } else {
        match e.kind {
            KindV::File => spec_count_file(o, root_dev, p, e, st),
            KindV::SymlinkFile => if o.follow_links {
                spec_count_file(o, root_dev, p, e, st)
            } else {
                st
            },
            KindV::Dir => spec_enter_dir(t, o, root_dev, child, e.dev, e.ino, depth, st, fuel),
            KindV::SymlinkDir(target) => if o.follow_links {
                spec_enter_dir(t, o, root_dev, target, e.dev, e.ino, depth, st, fuel)
            } else {
                st
            },
        }
    }
}

/// Process the entries of the directory at `p` from position `i` on.
pub open spec fn spec_scan_entries(
    t: Seq<DirV>,
    o: Options,
    root_dev: u64,
    p: Seq<Seq<char>>,
    depth: u32,
    es: Seq<EntryV>,
    i: int,
    st: ScanV,
    fuel: nat,
) -> ScanV
    decreases fuel, 1nat, es.len() - i,
{
    if i < 0 || i >= es.len() {
        st
    } else {
        let st1 = spec_scan_entry(t, o, root_dev, p, depth, es[i], st, fuel);
        spec_scan_entries(t, o, root_dev, p, depth, es, i + 1, st1, fuel)
    }
}

/// Process the directory at `p`: consume one budget unit, make sure the
/// directory has a row, and walk its listing.
pub open spec fn spec_scan_dir(
    t: Seq<DirV>,
    o: Options,
    root_dev: u64,
    p: Seq<Seq<char>>,
    depth: u32,
    st: ScanV,
    fuel: nat,
) -> ScanV
    decreases fuel, 2nat, 0nat,
{
    if st.budget == 0 {
        st
    } else {
        let st0 = ScanV {
            budget: (st.budget - 1) as nat,
            rows: rows_ensure(st.rows, p),
            ..st
        };
        match lookup_dir(t, p) {
            Some(d) => spec_scan_entries(t, o, root_dev, p, depth, d.entries, 0, st0, fuel),
            None => st0,
        }
    }
}

/// The rows a whole scan of `root` gathers before rollup: the root is
/// claimed up front, the recursion depth is bounded by the number of
/// known directories, and `budget` directories may be processed.
pub open spec fn spec_scan_rows(
    t: Seq<DirV>,
    o: Options,
    root: Seq<Seq<char>>,
    budget: nat,
) -> Seq<(Seq<Seq<char>>, Stat)> {
    match lookup_dir(t, root) {
        Some(d) => spec_scan_dir(
            t,
            o,
            d.dev,
            root,
            0,
            ScanV {
                processed: seq![root],
                visited: Set::empty(),
                inodes: Set::empty(),
                rows: Seq::empty(),
                budget,
            },
            t.len(),
        ).rows,
        None => Seq::empty(),
    }
}

// ---------------------------------------------------------------------------
// The scan: executable engine.
// ---------------------------------------------------------------------------

/// The executable scan state; [`ScanState::model`] is its mathematical
/// content.
pub struct ScanState {
    pub map: StatMap,
    pub processed: Vec<DirPath>,
    pub visited: VisitSet,
    pub inodes: InodeSet,
    pub budget: usize,
}

impl ScanState {
    /// Structural soundness of the pieces.
    pub open spec fn wf(&self) -> bool {
        self.map.wf() && self.visited.wf()
    }

    /// The specification state this value stands for.
    pub open spec fn model(&self) -> ScanV {
        ScanV {
            processed: self.processed@.map_values(|q: DirPath| q@),
            visited: self.visited.keys(),
            inodes: inode_keys(self.inodes),
            rows: self.map.entries_view(),
            budget: self.budget as nat,
        }
    }
}

/// Whether the claimed-directory list holds the path.
fn processed_contains(v: &Vec<DirPath>, p: &DirPath) -> (r: bool)
    ensures
        r == v@.map_values(|q: DirPath| q@).contains(p@),
{
    let ghost vv = v@.map_values(|q: DirPath| q@);
    let mut i: usize = 0;
    while i < v.len()
        invariant
            vv == v@.map_values(|q: DirPath| q@),
            i <= v.len(),
            forall|j: int| 0 <= j < i ==> vv[j] != p@,
        decreases v.len() - i,
    {
        if v[i].path_eq(p) {
            proof {
                assert(vv[i as int] == p@);
            }
            return true;
        }
        proof {
            assert(vv[i as int] == v@[i as int]@);
        }
        i = i + 1;
    }
    proof {
        if vv.contains(p@) {
            let j = choose|j: int| 0 <= j < vv.len() && vv[j] == p@;
            assert(vv[j] != p@);
        }
    }
    false
}

/// Count one file entry into its directory's row.
fn count_file(opt: &Options, root_dev: u64, p: &DirPath, e: &FsEntry, st: &mut ScanState)
    requires
        old(st).wf(),
    ensures
        final(st).wf(),
        final(st).model() == spec_count_file(*opt, root_dev, p@, e@, old(st).model()),
{
    if opt.one_file_system && e.dev != root_dev {
        return ;
    }
    let logical: u64;
    let physical: u64;
    if opt.approximate_sizes && !opt.compute_physical && opt.min_file_size == 0 {
        logical = 4096;
        physical = 4096;
    } else {
        logical = e.size;
        physical = crate::common_ops::calculate_physical_size(opt, e.size, e.blocks);
    }
    if logical < opt.min_file_size {
        return ;
    }
    let dup = crate::common_ops::check_hardlink_duplicate(opt, &mut st.inodes, e.dev, e.ino);
    if !dup {
        st.map.add_assign(p, Stat { logical, physical, files: 1 });
    }
    proof {
        assert(st.model() =~= spec_count_file(*opt, root_dev, p@, e@, old(st).model()));
    }
}

/// Consider descending into `target`, reached through an entry with
/// identity `(dev, ino)`.
fn enter_dir(
    tree: &FsTree,
    opt: &Options,
    root_dev: u64,
    target: &DirPath,
    dev: u64,
    ino: u64,
    depth: u32,
    st: &mut ScanState,
    fuel: usize,
)
    requires
        old(st).wf(),
        tree.wf(),
    ensures
        final(st).wf(),
        final(st).model() == spec_enter_dir(
            tree@,
            *opt,
            root_dev,
            target@,
            dev,
            ino,
            depth,
            old(st).model(),
            fuel as nat,
        ),
    decreases fuel, 0int, 0int,
{
    if opt.one_file_system && dev != root_dev {
        return ;
    }
    if !(opt.max_depth == 0 || depth < opt.max_depth) || depth == u32::MAX {
        return ;
    }
    let hit = crate::common_ops::check_visited_directory(opt, &mut st.visited, dev, ino);
    if hit {
        proof {
            assert(st.model() =~= spec_enter_dir(
                tree@,
                *opt,
                root_dev,
                target@,
                dev,
                ino,
                depth,
                old(st).model(),
                fuel as nat,
            ));
        }
        return ;
    }
    match tree.find_dir(target) {
        Some(_) => {
            if processed_contains(&st.processed, target) {
                proof {
                    assert(st.model() =~= spec_enter_dir(
                        tree@,
                        *opt,
                        root_dev,
                        target@,
                        dev,
                        ino,
                        depth,
                        old(st).model(),
                        fuel as nat,
                    ));
                }
                return ;
            }
            st.processed.push(target.dup());
            proof {
                assert(st.model().processed =~= old(st).model().processed.push(target@));
            }
            if fuel == 0 {
                proof {
                    assert(st.model() =~= spec_enter_dir(
                        tree@,
                        *opt,
                        root_dev,
                        target@,
                        dev,
                        ino,
                        depth,
                        old(st).model(),
                        fuel as nat,
                    ));
                }
                return ;
            }
            scan_dir(tree, opt, root_dev, target, depth + 1, st, fuel - 1);
        },
        None => {
            st.map.ensure_entry(target);
            proof {
                assert(st.model() =~= spec_enter_dir(
                    tree@,
                    *opt,
                    root_dev,
                    target@,
                    dev,
                    ino,
                    depth,
                    old(st).model(),
                    fuel as nat,
                ));
            }
        },
    }
}

/// Process one entry of the directory at `p`.
fn scan_entry(
    tree: &FsTree,
    opt: &Options,
    root_dev: u64,
    p: &DirPath,
    depth: u32,
    e: &FsEntry,
    st: &mut ScanState,
    fuel: usize,
)
    requires
        old(st).wf(),
        tree.wf(),
    ensures
        final(st).wf(),
        final(st).model() == spec_scan_entry(
            tree@,
            *opt,
            root_dev,
            p@,
            depth,
            e@,
            old(st).model(),
            fuel as nat,
        ),
    decreases fuel, 0int, 1int,
{
    let child = p.child(&e.name);
    let child_str = child.to_path_string();
    if crate::filters::name_matches(e.name.as_str(), opt) {
        return ;
    }
    if crate::filters::path_excluded(child_str.as_str(), opt) {
        return ;
    }
    match &e.kind {
        EntryKind::File => {
            count_file(opt, root_dev, p, e, st);
        },
        EntryKind::SymlinkFile => {
            if opt.follow_links {
                count_file(opt, root_dev, p, e, st);
            }
        },
        EntryKind::Dir => {
            enter_dir(tree, opt, root_dev, &child, e.dev, e.ino, depth, st, fuel);
        },
        EntryKind::SymlinkDir(target) => {
            if opt.follow_links {
                enter_dir(tree, opt, root_dev, target, e.dev, e.ino, depth, st, fuel);
            }
        },
    }
}

/// Process the directory at `p`: consume one budget unit, make sure the
/// directory has a row, and walk its listing.
fn scan_dir(
    tree: &FsTree,
    opt: &Options,
    root_dev: u64,
    p: &DirPath,
    depth: u32,
    st: &mut ScanState,
    fuel: usize,
)
    requires
        old(st).wf(),
        tree.wf(),
    ensures
        final(st).wf(),
        final(st).model() == spec_scan_dir(
            tree@,
            *opt,
            root_dev,
            p@,
            depth,
            old(st).model(),
            fuel as nat,
        ),
    decreases fuel, 2int, 0int,
{
    if st.budget == 0 {
        return ;
    }
    st.budget = st.budget - 1;
    st.map.ensure_entry(p);
    let ghost st0 = st.model();
    match tree.find_dir(p) {
        None => {},
        Some(di) => {
            let n = tree.dirs[di].entries.len();
            proof {
                assert(tree@[di as int].entries.len() == n);
            }
            let mut i: usize = 0;
            while i < n
                invariant
                    st.wf(),
                    tree.wf(),
                    di < tree.dirs@.len(),
                    lookup_dir(tree@, p@) == Some(tree@[di as int]),
                    n == tree@[di as int].entries.len(),
                    i <= n,
                    spec_scan_entries(
                        tree@,
                        *opt,
                        root_dev,
                        p@,
                        depth,
                        tree@[di as int].entries,
                        i as int,
                        st.model(),
                        fuel as nat,
                    ) == spec_scan_entries(
                        tree@,
                        *opt,
                        root_dev,
                        p@,
                        depth,
                        tree@[di as int].entries,
                        0,
                        st0,
                        fuel as nat,
                    ),
                decreases n - i,
            {
                let ghost pre = st.model();
                let e = &tree.dirs[di].entries[i];
                proof {
                    assert(e@ == tree@[di as int].entries[i as int]);
                }
                scan_entry(tree, opt, root_dev, p, depth, e, st, fuel);
                i = i + 1;
            }
        },
    }
}


/// Scan the tree from `root`, processing at most `budget` directories,
/// and return the rolled-up statistics map. An exhausted budget models a
/// set cancel flag: the scan stops claiming directories and what was
/// gathered is still merged and rolled up, a valid partial aggregate.
pub fn scan_directory_with_budget(
    root: &DirPath,
    opt: &Options,
    tree: &FsTree,
    budget: usize,
) -> (r: Result<StatMap, ScanError>)
    requires
        tree.wf(),
    ensures
        match r {
            Ok(m) => {
                &&& lookup_dir(tree@, root@) is Some
                &&& m.wf()
                &&& forall|p: Seq<Seq<char>>| #[trigger]
                    m@.dom().contains(p) <==> crate::rollup::closure_has(
                        spec_scan_rows(tree@, *opt, root@, budget as nat),
                        p,
                    )
                &&& forall|p: Seq<Seq<char>>| #[trigger]
                    m@.dom().contains(p) ==> m@[p] == crate::stat_map::sum_under(
                        spec_scan_rows(tree@, *opt, root@, budget as nat),
                        p,
                    )
            },
            Err(e) => {
                &&& lookup_dir(tree@, root@) is None
                &&& match e {
                    ScanError::InvalidPath { path } => path@ == root@,
                    _ => false,
                }
            },
        },
{
    match tree.find_dir(root) {
        None => Err(ScanError::InvalidPath { path: root.dup() }),
        Some(di) => {
            let root_dev = tree.dirs[di].dev;
            proof {
                assert(tree@[di as int].dev == root_dev);
            }
            proof {
                assert((1usize << 20) == 0x100000usize) by (bit_vector);
            }
            let mut st = ScanState {
                map: StatMap::new(),
                processed: Vec::new(),
                visited: VisitSet::new(1usize << 20),
                inodes: InodeSet::new(),
                budget,
            };
            st.processed.push(root.dup());
            proof {
                assert(st.model() =~= ScanV {
                    processed: seq![root@],
                    visited: Set::empty(),
                    inodes: Set::empty(),
                    rows: Seq::empty(),
                    budget: budget as nat,
                });
            }
            let fuel = tree.dirs.len();
            scan_dir(tree, opt, root_dev, root, 0, &mut st, fuel);
            proof {
                assert(st.model().rows == spec_scan_rows(tree@, *opt, root@, budget as nat));
            }
            let m = crate::rollup::rollup_child_to_parent(st.map);
            Ok(m)
        },
    }
}

/// Scan the tree from `root` and return the rolled-up statistics map:
/// a row for every ancestor-or-self of a gathered directory, holding the
/// saturating sum of everything counted at or below it. Fails exactly
/// when `root` is not a known directory.
pub fn scan_directory(root: &DirPath, opt: &Options, tree: &FsTree) -> (r: Result<
    StatMap,
    ScanError,
>)
    requires
        tree.wf(),
    ensures
        match r {
            Ok(m) => {
                &&& lookup_dir(tree@, root@) is Some
                &&& m.wf()
                &&& forall|p: Seq<Seq<char>>| #[trigger]
                    m@.dom().contains(p) <==> crate::rollup::closure_has(
                        spec_scan_rows(tree@, *opt, root@, usize::MAX as nat),
                        p,
                    )
                &&& forall|p: Seq<Seq<char>>| #[trigger]
                    m@.dom().contains(p) ==> m@[p] == crate::stat_map::sum_under(
                        spec_scan_rows(tree@, *opt, root@, usize::MAX as nat),
                        p,
                    )
            },
            Err(e) => {
                &&& lookup_dir(tree@, root@) is None
                &&& match e {
                    ScanError::InvalidPath { path } => path@ == root@,
                    _ => false,
                }
            },
        },
{
    scan_directory_with_budget(root, opt, tree, usize::MAX)
}



/// Process the entries of the directory at `p` from position `i` up to
/// (not through) position `end`: the window one yield segment covers.
pub open spec fn spec_scan_entries_range(
    t: Seq<DirV>,
    o: Options,
    root_dev: u64,
    p: Seq<Seq<char>>,
    depth: u32,
    es: Seq<EntryV>,
    i: int,
    end: int,
    st: ScanV,
    fuel: nat,
) -> ScanV
    decreases fuel, 1nat, end - i,
{
    if i < 0 || i >= end || i >= es.len() {
        st
    } else {
        let st1 = spec_scan_entry(t, o, root_dev, p, depth, es[i], st, fuel);
        spec_scan_entries_range(t, o, root_dev, p, depth, es, i + 1, end, st1, fuel)
    }
}

/// Two consecutive segments walk exactly the joined window: chaining a
/// yield segment with its resume continuation neither repeats nor skips
/// an entry.
pub proof fn lemma_segments_compose(
    t: Seq<DirV>,
    o: Options,
    root_dev: u64,
    p: Seq<Seq<char>>,
    depth: u32,
    es: Seq<EntryV>,
    i: int,
    m: int,
    end: int,
    st: ScanV,
    fuel: nat,
)
    requires
        0 <= i <= m <= end,
    ensures
        spec_scan_entries_range(t, o, root_dev, p, depth, es, i, end, st, fuel)
            == spec_scan_entries_range(
            t,
            o,
            root_dev,
            p,
            depth,
            es,
            m,
            end,
            spec_scan_entries_range(t, o, root_dev, p, depth, es, i, m, st, fuel),
            fuel,
        ),
    decreases m - i,
{
    if i < m && i < es.len() {
        let st1 = spec_scan_entry(t, o, root_dev, p, depth, es[i], st, fuel);
        lemma_segments_compose(t, o, root_dev, p, depth, es, i + 1, m, end, st1, fuel);
    }
}

/// A segment that reaches the listing's length is the rest of the whole
/// walk.
pub proof fn lemma_segment_to_end_is_whole(
    t: Seq<DirV>,
    o: Options,
    root_dev: u64,
    p: Seq<Seq<char>>,
    depth: u32,
    es: Seq<EntryV>,
    i: int,
    st: ScanV,
    fuel: nat,
)
    ensures
        spec_scan_entries_range(t, o, root_dev, p, depth, es, i, es.len() as int, st, fuel)
            == spec_scan_entries(t, o, root_dev, p, depth, es, i, st, fuel),
    decreases es.len() - i,
{
    if 0 <= i < es.len() {
        let st1 = spec_scan_entry(t, o, root_dev, p, depth, es[i], st, fuel);
        lemma_segment_to_end_is_whole(t, o, root_dev, p, depth, es, i + 1, st1, fuel);
    }
}

/// Walk one yield segment of the directory at `p`: entries `start` up to
/// `start + max_take` (clamped to the listing), without touching the
/// budget or the directory's row — those belong to the segment at
/// position zero of a whole walk. Returns the resume position, `None`
/// when the listing is exhausted; by [`lemma_segments_compose`] and
/// [`lemma_segment_to_end_is_whole`], chaining the segments from zero
/// through the returned positions equals one whole walk of the listing.
pub fn scan_dir_segment(
    tree: &FsTree,
    opt: &Options,
    root_dev: u64,
    p: &DirPath,
    depth: u32,
    start: usize,
    max_take: usize,
    st: &mut ScanState,
    fuel: usize,
) -> (next: Option<usize>)
    requires
        old(st).wf(),
        tree.wf(),
    ensures
        final(st).wf(),
        match lookup_dir(tree@, p@) {
            Some(d) => {
                let end = if start + max_take < d.entries.len() {
                    start + max_take
                } else {
                    d.entries.len() as int
                };
                &&& final(st).model() == spec_scan_entries_range(
                    tree@,
                    *opt,
                    root_dev,
                    p@,
                    depth,
                    d.entries,
                    start as int,
                    end,
                    old(st).model(),
                    fuel as nat,
                )
                &&& next == (if end < d.entries.len() {
                    Some(end as usize)
                } else {
                    None::<usize>
                })
            },
            None => final(st).model() == old(st).model() && next is None,
        },
    decreases fuel, 3int, 0int,
{
    match tree.find_dir(p) {
        None => None,
        Some(di) => {
            let n = tree.dirs[di].entries.len();
            proof {
                assert(tree@[di as int].entries.len() == n);
            }
            if start >= n {
                return None;
            }
            let remaining = n - start;
            let take = if max_take < remaining {
                max_take
            } else {
                remaining
            };
            let end = start + take;
            let ghost st0 = st.model();
            let mut i: usize = start;
            while i < end
                invariant
                    st.wf(),
                    tree.wf(),
                    di < tree.dirs@.len(),
                    lookup_dir(tree@, p@) == Some(tree@[di as int]),
                    n == tree@[di as int].entries.len(),
                    start <= i <= end,
                    end <= n,
                    spec_scan_entries_range(
                        tree@,
                        *opt,
                        root_dev,
                        p@,
                        depth,
                        tree@[di as int].entries,
                        i as int,
                        end as int,
                        st.model(),
                        fuel as nat,
                    ) == spec_scan_entries_range(
                        tree@,
                        *opt,
                        root_dev,
                        p@,
                        depth,
                        tree@[di as int].entries,
                        start as int,
                        end as int,
                        st0,
                        fuel as nat,
                    ),
                decreases end - i,
            {
                let e = &tree.dirs[di].entries[i];
                proof {
                    assert(e@ == tree@[di as int].entries[i as int]);
                }
                scan_entry(tree, opt, root_dev, p, depth, e, st, fuel);
                i = i + 1;
            }
            if end < n {
                Some(end)
            } else {
                None
            }
        },
    }
}

// ---------------------------------------------------------------------------
// Stated laws of the scan.
// ---------------------------------------------------------------------------

/// Whether a file entry is counted against the state `st`: it sits on the
/// root device where the one-file-system rule applies, meets the size
/// floor, and is either no hardlink duplicate or duplicates count.
pub open spec fn spec_file_counted(o: Options, root_dev: u64, e: EntryV, st: ScanV) -> bool {
    &&& !(o.one_file_system && e.dev != root_dev)
    &&& spec_file_sizes(o, e).0 >= o.min_file_size
    &&& (o.count_hardlinks || !st.inodes.contains((e.dev, e.ino)))
}

/// A file entry contributes one file and its sizes to its directory's
/// row exactly when [`spec_file_counted`] holds; otherwise the rows are
/// untouched. With the exclusion gate in [`spec_scan_entry`], this is
/// the per-entry content of the counted-leaves characterization.
pub proof fn lemma_file_counted(o: Options, root_dev: u64, p: Seq<Seq<char>>, e: EntryV, st: ScanV)
    ensures
        spec_file_counted(o, root_dev, e, st) ==> spec_count_file(o, root_dev, p, e, st).rows
            == rows_add(
            st.rows,
            p,
            Stat {
                logical: spec_file_sizes(o, e).0,
                physical: spec_file_sizes(o, e).1,
                files: 1u64,
            },
        ),
        !spec_file_counted(o, root_dev, e, st) ==> spec_count_file(o, root_dev, p, e, st).rows
            == st.rows,
{
}

/// Hardlink deduplication, the skipping half: with deduplication on, a
/// file whose `(device, inode)` key was already recorded adds nothing.
pub proof fn lemma_hardlink_dedup_skips(
    o: Options,
    root_dev: u64,
    p: Seq<Seq<char>>,
    e: EntryV,
    st: ScanV,
)
    requires
        !o.count_hardlinks,
        st.inodes.contains((e.dev, e.ino)),
    ensures
        spec_count_file(o, root_dev, p, e, st).rows == st.rows,
{
}

/// Hardlink deduplication, the recording half: with deduplication on,
/// any counted file leaves its key recorded, so no later copy of the
/// same inode can pass [`spec_file_counted`] again.
pub proof fn lemma_hardlink_dedup_records(
    o: Options,
    root_dev: u64,
    p: Seq<Seq<char>>,
    e: EntryV,
    st: ScanV,
)
    requires
        !o.count_hardlinks,
        spec_count_file(o, root_dev, p, e, st).rows != st.rows,
    ensures
        spec_count_file(o, root_dev, p, e, st).inodes.contains((e.dev, e.ino)),
        !spec_file_counted(o, root_dev, e, spec_count_file(o, root_dev, p, e, st)),
{
}

/// One file system: with the rule on, an entry on a device other than
/// the root's is not counted and not descended into — it leaves the
/// whole state unchanged.
pub proof fn lemma_one_file_system(
    t: Seq<DirV>,
    o: Options,
    root_dev: u64,
    p: Seq<Seq<char>>,
    target: Seq<Seq<char>>,
    e: EntryV,
    st: ScanV,
    depth: u32,
    fuel: nat,
)
    requires
        o.one_file_system,
        e.dev != root_dev,
    ensures
        spec_count_file(o, root_dev, p, e, st) == st,
        spec_enter_dir(t, o, root_dev, target, e.dev, e.ino, depth, st, fuel) == st,
{
}

/// Loop safety beyond termination: reaching a directory that was already
/// claimed — a symlink cycle closing on itself — gathers nothing new;
/// at most its identity is noted in the visited set.
pub proof fn lemma_cycle_adds_nothing(
    t: Seq<DirV>,
    o: Options,
    root_dev: u64,
    target: Seq<Seq<char>>,
    dev: u64,
    ino: u64,
    depth: u32,
    st: ScanV,
    fuel: nat,
)
    requires
        st.processed.contains(target),
        lookup_dir(t, target) is Some,
    ensures
        spec_enter_dir(t, o, root_dev, target, dev, ino, depth, st, fuel).rows == st.rows,
        spec_enter_dir(t, o, root_dev, target, dev, ino, depth, st, fuel).processed
            == st.processed,
{
}

/// Cancellation: a scan whose budget is exhausted claims no further
/// directory — the state passes through untouched, and what was already
/// gathered still rolls up.
pub proof fn lemma_cancel_stops_work(
    t: Seq<DirV>,
    o: Options,
    root_dev: u64,
    p: Seq<Seq<char>>,
    depth: u32,
    st: ScanV,
    fuel: nat,
)
    requires
        st.budget == 0,
    ensures
        spec_scan_dir(t, o, root_dev, p, depth, st, fuel) == st,
{
}

/// Idempotence: any two well-formed maps that satisfy the scan's
/// contract for the same tree, options, root and budget are the same
/// map.
pub proof fn lemma_scan_idempotent(
    m1: StatMap,
    m2: StatMap,
    t: Seq<DirV>,
    o: Options,
    root: Seq<Seq<char>>,
    budget: nat,
)
    requires
        forall|p: Seq<Seq<char>>| #[trigger]
            m1@.dom().contains(p) <==> crate::rollup::closure_has(
                spec_scan_rows(t, o, root, budget),
                p,
            ),
        forall|p: Seq<Seq<char>>| #[trigger]
            m1@.dom().contains(p) ==> m1@[p] == crate::stat_map::sum_under(
                spec_scan_rows(t, o, root, budget),
                p,
            ),
        forall|p: Seq<Seq<char>>| #[trigger]
            m2@.dom().contains(p) <==> crate::rollup::closure_has(
                spec_scan_rows(t, o, root, budget),
                p,
            ),
        forall|p: Seq<Seq<char>>| #[trigger]
            m2@.dom().contains(p) ==> m2@[p] == crate::stat_map::sum_under(
                spec_scan_rows(t, o, root, budget),
                p,
            ),
    ensures
        m1@ == m2@,
{
    assert forall|p: Seq<Seq<char>>| #[trigger] m1@.dom().contains(p) implies m2@.dom().contains(
        p,
    ) && m2@[p] == m1@[p] by {
        assert(crate::rollup::closure_has(spec_scan_rows(t, o, root, budget), p));
        assert(m2@.dom().contains(p));
        assert(m2@[p] == crate::stat_map::sum_under(spec_scan_rows(t, o, root, budget), p));
        assert(m1@[p] == crate::stat_map::sum_under(spec_scan_rows(t, o, root, budget), p));
    }
    assert forall|p: Seq<Seq<char>>| #[trigger] m2@.dom().contains(p) implies m1@.dom().contains(
        p,
    ) by {
        assert(crate::rollup::closure_has(spec_scan_rows(t, o, root, budget), p));
        assert(m1@.dom().contains(p));
    }
    assert(m1@ =~= m2@);
}


/// Whether every row of `a` also stands in `b` with totals at least as
/// large: the pointwise order on gathered statistics.
pub open spec fn rows_le(a: Seq<(Seq<Seq<char>>, Stat)>, b: Seq<(Seq<Seq<char>>, Stat)>) -> bool {
    forall|k: Seq<Seq<char>>| #[trigger]
        crate::stat_map::rows_has(a, k) ==> crate::stat_map::rows_has(b, k)
            && crate::stat_map::rows_get_or_zero(a, k).le(crate::stat_map::rows_get_or_zero(b, k))
}

/// A pattern list that extends another excludes at least as much,
/// whatever the added patterns are.
pub proof fn lemma_pattern_layers_monotone(
    p1: Seq<Seq<char>>,
    p2: Seq<Seq<char>>,
    text: Seq<char>,
)
    requires
        crate::path::is_prefix_of(p1, p2),
    ensures
        crate::filters::contains_layer(p1, text) ==> crate::filters::contains_layer(p2, text),
        crate::filters::any_pat_substring(p1, text) ==> crate::filters::any_pat_substring(
            p2,
            text,
        ),
        crate::filters::any_regex_matches(p1, text) ==> crate::filters::any_regex_matches(
            p2,
            text,
        ),
        crate::filters::any_glob_matches(p1, text) ==> crate::filters::any_glob_matches(p2, text),
{
    assert(forall|i: int| 0 <= i < p1.len() ==> p2[i] == #[trigger] p1[i]);
}

/// The per-layer pattern lists of `o1`, each extended by `o2`.
pub open spec fn filters_extended(o1: Options, o2: Options) -> bool {
    &&& crate::path::is_prefix_of(
        crate::filters::pats_view(o1.exclude_contains@),
        crate::filters::pats_view(o2.exclude_contains@),
    )
    &&& match (o1.exclude_ac, o2.exclude_ac) {
        (Some(a1), Some(a2)) => crate::path::is_prefix_of(
            crate::filters::ac_pats(a1),
            crate::filters::ac_pats(a2),
        ),
        (None, _) => true,
        (Some(_), None) => false,
    }
    &&& match (o1.exclude_regex_set, o2.exclude_regex_set) {
        (Some(r1), Some(r2)) => crate::path::is_prefix_of(
            crate::filters::regex_set_pats(r1),
            crate::filters::regex_set_pats(r2),
        ),
        (None, _) => true,
        (Some(_), None) => false,
    }
    &&& match (o1.exclude_glob_set, o2.exclude_glob_set) {
        (Some(g1), Some(g2)) => crate::path::is_prefix_of(
            crate::filters::glob_set_pats(g1),
            crate::filters::glob_set_pats(g2),
        ),
        (None, _) => true,
        (Some(_), None) => false,
    }
}

/// Under extended pattern lists, every entry the narrower filters
/// exclude stays excluded.
pub proof fn lemma_exclusion_monotone(
    o1: Options,
    o2: Options,
    name: Seq<char>,
    child_str: Seq<char>,
)
    requires
        filters_extended(o1, o2),
    ensures
        spec_entry_excluded(o1, name, child_str) ==> spec_entry_excluded(o2, name, child_str),
{
    lemma_pattern_layers_monotone(
        crate::filters::pats_view(o1.exclude_contains@),
        crate::filters::pats_view(o2.exclude_contains@),
        name,
    );
    lemma_pattern_layers_monotone(
        crate::filters::pats_view(o1.exclude_contains@),
        crate::filters::pats_view(o2.exclude_contains@),
        child_str,
    );
    match (o1.exclude_ac, o2.exclude_ac) {
        (Some(a1), Some(a2)) => {
            lemma_pattern_layers_monotone(
                crate::filters::ac_pats(a1),
                crate::filters::ac_pats(a2),
                name,
            );
        },
        _ => {},
    }
    match (o1.exclude_regex_set, o2.exclude_regex_set) {
        (Some(r1), Some(r2)) => {
            lemma_pattern_layers_monotone(
                crate::filters::regex_set_pats(r1),
                crate::filters::regex_set_pats(r2),
                name,
            );
            lemma_pattern_layers_monotone(
                crate::filters::regex_set_pats(r1),
                crate::filters::regex_set_pats(r2),
                child_str,
            );
        },
        _ => {},
    }
    match (o1.exclude_glob_set, o2.exclude_glob_set) {
        (Some(g1), Some(g2)) => {
            lemma_pattern_layers_monotone(
                crate::filters::glob_set_pats(g1),
                crate::filters::glob_set_pats(g2),
                child_str,
            );
        },
        _ => {},
    }
}

/// A higher depth cap (0 meaning no cap) lets through every depth the
/// lower cap let through.
pub proof fn lemma_depth_monotone(o1: Options, o2: Options, depth: u32)
    requires
        o2.max_depth == 0 || (o1.max_depth != 0 && o1.max_depth <= o2.max_depth),
    ensures
        depth_permits(o1, depth) ==> depth_permits(o2, depth),
{
}


/// Accumulating the same totals on both sides keeps the pointwise order.
proof fn lemma_rows_le_add_both(
    a: Seq<(Seq<Seq<char>>, Stat)>,
    b: Seq<(Seq<Seq<char>>, Stat)>,
    k: Seq<Seq<char>>,
    v: Stat,
)
    requires
        crate::stat_map::keys_distinct(a),
        crate::stat_map::keys_distinct(b),
        rows_le(a, b),
    ensures
        rows_le(rows_add(a, k, v), rows_add(b, k, v)),
{
    crate::stat_map::lemma_rows_add_distinct(a, k, v);
    crate::stat_map::lemma_rows_add_distinct(b, k, v);
    assert forall|k2: Seq<Seq<char>>| #[trigger]
        crate::stat_map::rows_has(rows_add(a, k, v), k2) implies crate::stat_map::rows_has(
        rows_add(b, k, v),
        k2,
    ) && crate::stat_map::rows_get_or_zero(rows_add(a, k, v), k2).le(
        crate::stat_map::rows_get_or_zero(rows_add(b, k, v), k2),
    ) by {
        crate::stat_map::lemma_rows_add_get(a, k, v, k2);
        crate::stat_map::lemma_rows_add_get(b, k, v, k2);
        if k2 != k {
            if crate::stat_map::rows_has(a, k2) {
                assert(crate::stat_map::rows_has(b, k2));
            } else {
                assert(crate::stat_map::rows_get_or_zero(a, k2) == (Stat {
                    logical: 0,
                    physical: 0,
                    files: 0,
                }));
            }
        }
    }
}

/// Accumulating only on the larger side keeps the pointwise order.
proof fn lemma_rows_le_grow(
    a: Seq<(Seq<Seq<char>>, Stat)>,
    b: Seq<(Seq<Seq<char>>, Stat)>,
    k: Seq<Seq<char>>,
    v: Stat,
)
    requires
        crate::stat_map::keys_distinct(b),
        rows_le(a, b),
    ensures
        rows_le(a, rows_add(b, k, v)),
{
    crate::stat_map::lemma_rows_add_distinct(b, k, v);
    assert forall|k2: Seq<Seq<char>>| #[trigger]
        crate::stat_map::rows_has(a, k2) implies crate::stat_map::rows_has(rows_add(b, k, v), k2)
        && crate::stat_map::rows_get_or_zero(a, k2).le(
        crate::stat_map::rows_get_or_zero(rows_add(b, k, v), k2),
    ) by {
        crate::stat_map::lemma_rows_add_get(b, k, v, k2);
    }
}

/// Making sure a row exists on both sides keeps the pointwise order.
proof fn lemma_rows_le_ensure(
    a: Seq<(Seq<Seq<char>>, Stat)>,
    b: Seq<(Seq<Seq<char>>, Stat)>,
    k: Seq<Seq<char>>,
)
    requires
        crate::stat_map::keys_distinct(a),
        crate::stat_map::keys_distinct(b),
        rows_le(a, b),
    ensures
        crate::stat_map::keys_distinct(rows_ensure(a, k)),
        crate::stat_map::keys_distinct(rows_ensure(b, k)),
        rows_le(rows_ensure(a, k), rows_ensure(b, k)),
{
    crate::stat_map::lemma_rows_add_distinct(a, k, Stat { logical: 0, physical: 0, files: 0 });
    crate::stat_map::lemma_rows_add_distinct(b, k, Stat { logical: 0, physical: 0, files: 0 });
    let ea = rows_ensure(a, k);
    let eb = rows_ensure(b, k);
    assert forall|k2: Seq<Seq<char>>| #[trigger]
        crate::stat_map::rows_has(ea, k2) implies crate::stat_map::rows_has(eb, k2)
        && crate::stat_map::rows_get_or_zero(ea, k2).le(
        crate::stat_map::rows_get_or_zero(eb, k2),
    ) by {
        if crate::stat_map::rows_has(a, k2) {
            let i = crate::stat_map::rows_idx(a, k2);
            crate::stat_map::lemma_rows_get_at(a, i);
            assert(ea[i] == a[i]);
            crate::stat_map::lemma_rows_get_at(ea, i);
            let j = crate::stat_map::rows_idx(b, k2);
            crate::stat_map::lemma_rows_get_at(b, j);
            assert(eb[j] == b[j]);
            crate::stat_map::lemma_rows_get_at(eb, j);
        } else {
            assert(k2 == k) by {
                let i = choose|i: int| 0 <= i < ea.len() && ea[i].0 == k2;
                if i < a.len() {
                    assert(a[i].0 == k2);
                }
            }
            assert(ea[a.len() as int].0 == k);
            crate::stat_map::lemma_rows_get_at(ea, a.len() as int);
            if crate::stat_map::rows_has(b, k) {
                let j = crate::stat_map::rows_idx(b, k);
                crate::stat_map::lemma_rows_get_at(b, j);
                assert(eb[j] == b[j]);
                crate::stat_map::lemma_rows_get_at(eb, j);
            } else {
                assert(eb[b.len() as int].0 == k);
                crate::stat_map::lemma_rows_get_at(eb, b.len() as int);
            }
        }
    }
}

/// The options agree on every pure per-file test, and hardlinked copies
/// count separately, so no traversal state couples distinct files.
pub open spec fn same_file_policy(o1: Options, o2: Options) -> bool {
    &&& o1.min_file_size == o2.min_file_size
    &&& o1.compute_physical == o2.compute_physical
    &&& o1.approximate_sizes == o2.approximate_sizes
    &&& o1.one_file_system == o2.one_file_system
    &&& o1.follow_links == o2.follow_links
    &&& o1.count_hardlinks
    &&& o2.count_hardlinks
}

/// Only file entries from position `i` on: no descent happens here.
pub open spec fn flat_listing(es: Seq<EntryV>, i: int) -> bool {
    forall|j: int|
        i <= j < es.len() ==> ((#[trigger] es[j]).kind is File || es[j].kind is SymlinkFile)
}

/// Walking one directory's file entries under the extended pattern
/// lists of `o2` gathers rows pointwise within what the walk gathers
/// under `o1`, the file policy being equal. Hardlink deduplication is
/// left aside: with it, excluding one copy of an inode can hand its
/// count to a copy in another directory.
pub proof fn lemma_flat_entries_monotone(
    t: Seq<DirV>,
    o1: Options,
    o2: Options,
    root_dev: u64,
    p: Seq<Seq<char>>,
    depth: u32,
    es: Seq<EntryV>,
    i: int,
    st1: ScanV,
    st2: ScanV,
    fuel: nat,
)
    requires
        filters_extended(o1, o2),
        same_file_policy(o1, o2),
        flat_listing(es, i),
        crate::stat_map::keys_distinct(st1.rows),
        crate::stat_map::keys_distinct(st2.rows),
        rows_le(st2.rows, st1.rows),
    ensures
        crate::stat_map::keys_distinct(
            spec_scan_entries(t, o1, root_dev, p, depth, es, i, st1, fuel).rows,
        ),
        crate::stat_map::keys_distinct(
            spec_scan_entries(t, o2, root_dev, p, depth, es, i, st2, fuel).rows,
        ),
        rows_le(
            spec_scan_entries(t, o2, root_dev, p, depth, es, i, st2, fuel).rows,
            spec_scan_entries(t, o1, root_dev, p, depth, es, i, st1, fuel).rows,
        ),
    decreases es.len() - i,
{
    if i < 0 || i >= es.len() {
    } else {
        let e = es[i];
        let child = p.push(e.name);
        let child_str = join_path(child);
        lemma_exclusion_monotone(o1, o2, e.name, child_str);
        let st1b = spec_scan_entry(t, o1, root_dev, p, depth, e, st1, fuel);
        let st2b = spec_scan_entry(t, o2, root_dev, p, depth, e, st2, fuel);
        let counts = !(e.kind is SymlinkFile && !o1.follow_links) && !(o1.one_file_system
            && e.dev != root_dev) && spec_file_sizes(o1, e).0 >= o1.min_file_size;
        let v = Stat {
            logical: spec_file_sizes(o1, e).0,
            physical: spec_file_sizes(o1, e).1,
            files: 1u64,
        };
        if spec_entry_excluded(o2, e.name, child_str) {
            assert(st2b == st2);
            if !spec_entry_excluded(o1, e.name, child_str) && counts {
                assert(st1b.rows == rows_add(st1.rows, p, v));
                crate::stat_map::lemma_rows_add_distinct(st1.rows, p, v);
                lemma_rows_le_grow(st2.rows, st1.rows, p, v);
            } else {
                assert(st1b.rows == st1.rows);
            }
        } else {
            assert(!spec_entry_excluded(o1, e.name, child_str));
            assert(spec_file_sizes(o2, e) == spec_file_sizes(o1, e));
            if counts {
                assert(st1b.rows == rows_add(st1.rows, p, v));
                assert(st2b.rows == rows_add(st2.rows, p, v));
                crate::stat_map::lemma_rows_add_distinct(st1.rows, p, v);
                crate::stat_map::lemma_rows_add_distinct(st2.rows, p, v);
                lemma_rows_le_add_both(st2.rows, st1.rows, p, v);
            } else {
                assert(st1b.rows == st1.rows);
                assert(st2b.rows == st2.rows);
            }
        }
        lemma_flat_entries_monotone(
            t,
            o1,
            o2,
            root_dev,
            p,
            depth,
            es,
            i + 1,
            st1b,
            st2b,
            fuel,
        );
    }
}

/// Scanning one whole directory of files under the extended pattern
/// lists gathers pointwise no more than under the narrower lists.
pub proof fn lemma_flat_dir_monotone(
    t: Seq<DirV>,
    o1: Options,
    o2: Options,
    root_dev: u64,
    p: Seq<Seq<char>>,
    depth: u32,
    st: ScanV,
    fuel: nat,
)
    requires
        filters_extended(o1, o2),
        same_file_policy(o1, o2),
        lookup_dir(t, p) is Some ==> flat_listing(lookup_dir(t, p).unwrap().entries, 0),
        crate::stat_map::keys_distinct(st.rows),
    ensures
        rows_le(
            spec_scan_dir(t, o2, root_dev, p, depth, st, fuel).rows,
            spec_scan_dir(t, o1, root_dev, p, depth, st, fuel).rows,
        ),
{
    assert(rows_le(st.rows, st.rows));
    if st.budget == 0 {
    } else {
        lemma_rows_le_ensure(st.rows, st.rows, p);
        let st1a = ScanV {
            budget: (st.budget - 1) as nat,
            rows: rows_ensure(st.rows, p),
            ..st
        };
        match lookup_dir(t, p) {
            Some(d) => {
                lemma_flat_entries_monotone(
                    t,
                    o1,
                    o2,
                    root_dev,
                    p,
                    depth,
                    d.entries,
                    0,
                    st1a,
                    st1a,
                    fuel,
                );
            },
            None => {},
        }
    }
}


/// Counting a file never removes a recorded inode key.
proof fn lemma_count_file_inodes_monotone(
    o: Options,
    root_dev: u64,
    p: Seq<Seq<char>>,
    e: EntryV,
    st: ScanV,
)
    ensures
        st.inodes.subset_of(spec_count_file(o, root_dev, p, e, st).inodes),
{
    assert(st.inodes.subset_of(st.inodes.insert((e.dev, e.ino))));
}

/// The whole walk below one directory never removes a recorded inode
/// key: the dedup cache only grows.
pub proof fn lemma_scan_dir_inodes_monotone(
    t: Seq<DirV>,
    o: Options,
    root_dev: u64,
    p: Seq<Seq<char>>,
    depth: u32,
    st: ScanV,
    fuel: nat,
)
    ensures
        st.inodes.subset_of(spec_scan_dir(t, o, root_dev, p, depth, st, fuel).inodes),
    decreases fuel, 2nat, 0nat,
{
    if st.budget != 0 {
        let st0 = ScanV { budget: (st.budget - 1) as nat, rows: rows_ensure(st.rows, p), ..st };
        match lookup_dir(t, p) {
            Some(d) => {
                lemma_scan_entries_inodes_monotone(t, o, root_dev, p, depth, d.entries, 0, st0, fuel);
            },
            None => {},
        }
    }
}

/// Entry-list form of the growing-cache fact.
proof fn lemma_scan_entries_inodes_monotone(
    t: Seq<DirV>,
    o: Options,
    root_dev: u64,
    p: Seq<Seq<char>>,
    depth: u32,
    es: Seq<EntryV>,
    i: int,
    st: ScanV,
    fuel: nat,
)
    ensures
        st.inodes.subset_of(spec_scan_entries(t, o, root_dev, p, depth, es, i, st, fuel).inodes),
    decreases fuel, 1nat, es.len() - i,
{
    if 0 <= i < es.len() {
        let st1 = spec_scan_entry(t, o, root_dev, p, depth, es[i], st, fuel);
        lemma_scan_entry_inodes_monotone(t, o, root_dev, p, depth, es[i], st, fuel);
        lemma_scan_entries_inodes_monotone(t, o, root_dev, p, depth, es, i + 1, st1, fuel);
    }
}

/// Single-entry form of the growing-cache fact.
proof fn lemma_scan_entry_inodes_monotone(
    t: Seq<DirV>,
    o: Options,
    root_dev: u64,
    p: Seq<Seq<char>>,
    depth: u32,
    e: EntryV,
    st: ScanV,
    fuel: nat,
)
    ensures
        st.inodes.subset_of(spec_scan_entry(t, o, root_dev, p, depth, e, st, fuel).inodes),
    decreases fuel, 0nat, 1nat,
{
    let child = p.push(e.name);
    let child_str = join_path(child);
    if !spec_entry_excluded(o, e.name, child_str) {
        match e.kind {
            KindV::File => {
                lemma_count_file_inodes_monotone(o, root_dev, p, e, st);
            },
            KindV::SymlinkFile => {
                if o.follow_links {
                    lemma_count_file_inodes_monotone(o, root_dev, p, e, st);
                }
            },
            KindV::Dir => {
                lemma_enter_dir_inodes_monotone(
                    t, o, root_dev, child, e.dev, e.ino, depth, st, fuel,
                );
            },
            KindV::SymlinkDir(target) => {
                if o.follow_links {
                    lemma_enter_dir_inodes_monotone(
                        t, o, root_dev, target, e.dev, e.ino, depth, st, fuel,
                    );
                }
            },
        }
    }
}

/// Descent form of the growing-cache fact.
proof fn lemma_enter_dir_inodes_monotone(
    t: Seq<DirV>,
    o: Options,
    root_dev: u64,
    target: Seq<Seq<char>>,
    dev: u64,
    ino: u64,
    depth: u32,
    st: ScanV,
    fuel: nat,
)
    ensures
        st.inodes.subset_of(
            spec_enter_dir(t, o, root_dev, target, dev, ino, depth, st, fuel).inodes,
        ),
    decreases fuel, 0nat, 0nat,
{
    if !(o.one_file_system && dev != root_dev) && depth_permits(o, depth) && depth != u32::MAX {
        let hit = o.follow_links && st.visited.contains((dev, ino));
        let stv = ScanV {
            visited: if o.follow_links {
                st.visited.insert((dev, ino))
            } else {
                st.visited
            },
            ..st
        };
        if !hit {
            match lookup_dir(t, target) {
                Some(_) => {
                    if !stv.processed.contains(target) {
                        let stp = ScanV { processed: stv.processed.push(target), ..stv };
                        if fuel != 0 {
                            lemma_scan_dir_inodes_monotone(
                                t,
                                o,
                                root_dev,
                                target,
                                (depth + 1) as u32,
                                stp,
                                (fuel - 1) as nat,
                            );
                        }
                    }
                },
                None => {},
            }
        }
    }
}

/// Hardlink deduplication over a whole walk: a key once recorded stays
/// recorded through everything scanned afterwards, so by
/// [`lemma_hardlink_dedup_skips`] no later copy of that inode is
/// counted anywhere in the remainder of the scan.
pub proof fn lemma_hardlink_key_persists(
    t: Seq<DirV>,
    o: Options,
    root_dev: u64,
    p: Seq<Seq<char>>,
    depth: u32,
    st: ScanV,
    fuel: nat,
    dev: u64,
    ino: u64,
)
    requires
        st.inodes.contains((dev, ino)),
    ensures
        spec_scan_dir(t, o, root_dev, p, depth, st, fuel).inodes.contains((dev, ino)),
{
    lemma_scan_dir_inodes_monotone(t, o, root_dev, p, depth, st, fuel);
}


/// Rows-level soundness of one step: counting a file keeps the rows'
/// keys distinct and only raises totals.
proof fn lemma_count_file_rows_grow(
    o: Options,
    root_dev: u64,
    p: Seq<Seq<char>>,
    e: EntryV,
    st: ScanV,
)
    requires
        crate::stat_map::keys_distinct(st.rows),
    ensures
        crate::stat_map::keys_distinct(spec_count_file(o, root_dev, p, e, st).rows),
        rows_le(st.rows, spec_count_file(o, root_dev, p, e, st).rows),
{
    assert(rows_le(st.rows, st.rows));
    let after = spec_count_file(o, root_dev, p, e, st);
    if after.rows != st.rows {
        let v = Stat {
            logical: spec_file_sizes(o, e).0,
            physical: spec_file_sizes(o, e).1,
            files: 1u64,
        };
        crate::stat_map::lemma_rows_add_distinct(st.rows, p, v);
        lemma_rows_le_grow(st.rows, st.rows, p, v);
    }
}

/// The walk below one directory keeps the rows' keys distinct and only
/// raises totals: what a scan gathered is never lost or reduced, however
/// early it stops.
pub proof fn lemma_scan_dir_rows_grow(
    t: Seq<DirV>,
    o: Options,
    root_dev: u64,
    p: Seq<Seq<char>>,
    depth: u32,
    st: ScanV,
    fuel: nat,
)
    requires
        crate::stat_map::keys_distinct(st.rows),
    ensures
        crate::stat_map::keys_distinct(spec_scan_dir(t, o, root_dev, p, depth, st, fuel).rows),
        rows_le(st.rows, spec_scan_dir(t, o, root_dev, p, depth, st, fuel).rows),
    decreases fuel, 2nat, 0nat,
{
    assert(rows_le(st.rows, st.rows));
    if st.budget != 0 {
        let st0 = ScanV { budget: (st.budget - 1) as nat, rows: rows_ensure(st.rows, p), ..st };
        lemma_rows_le_ensure(st.rows, st.rows, p);
        assert(rows_le(st.rows, st0.rows)) by {
            if !crate::stat_map::rows_has(st.rows, p) {
                assert forall|k2: Seq<Seq<char>>| #[trigger]
                    crate::stat_map::rows_has(st.rows, k2) implies crate::stat_map::rows_has(
                    st0.rows,
                    k2,
                ) && crate::stat_map::rows_get_or_zero(st.rows, k2).le(
                    crate::stat_map::rows_get_or_zero(st0.rows, k2),
                ) by {
                    let i = crate::stat_map::rows_idx(st.rows, k2);
                    crate::stat_map::lemma_rows_get_at(st.rows, i);
                    assert(st0.rows[i] == st.rows[i]);
                    crate::stat_map::lemma_rows_get_at(st0.rows, i);
                }
            }
        }
        match lookup_dir(t, p) {
            Some(d) => {
                lemma_scan_entries_rows_grow(t, o, root_dev, p, depth, d.entries, 0, st0, fuel);
                lemma_rows_le_trans(
                    st.rows,
                    st0.rows,
                    spec_scan_entries(t, o, root_dev, p, depth, d.entries, 0, st0, fuel).rows,
                );
            },
            None => {},
        }
    }
}

/// The pointwise order on rows is transitive.
proof fn lemma_rows_le_trans(
    a: Seq<(Seq<Seq<char>>, Stat)>,
    b: Seq<(Seq<Seq<char>>, Stat)>,
    c: Seq<(Seq<Seq<char>>, Stat)>,
)
    requires
        rows_le(a, b),
        rows_le(b, c),
    ensures
        rows_le(a, c),
{
    assert forall|k: Seq<Seq<char>>| #[trigger]
        crate::stat_map::rows_has(a, k) implies crate::stat_map::rows_has(c, k)
        && crate::stat_map::rows_get_or_zero(a, k).le(
        crate::stat_map::rows_get_or_zero(c, k),
    ) by {
        assert(crate::stat_map::rows_has(b, k));
    }
}

/// Entry-list form of the growing-rows fact.
proof fn lemma_scan_entries_rows_grow(
    t: Seq<DirV>,
    o: Options,
    root_dev: u64,
    p: Seq<Seq<char>>,
    depth: u32,
    es: Seq<EntryV>,
    i: int,
    st: ScanV,
    fuel: nat,
)
    requires
        crate::stat_map::keys_distinct(st.rows),
    ensures
        crate::stat_map::keys_distinct(
            spec_scan_entries(t, o, root_dev, p, depth, es, i, st, fuel).rows,
        ),
        rows_le(st.rows, spec_scan_entries(t, o, root_dev, p, depth, es, i, st, fuel).rows),
    decreases fuel, 1nat, es.len() - i,
{
    assert(rows_le(st.rows, st.rows));
    if 0 <= i < es.len() {
        let st1 = spec_scan_entry(t, o, root_dev, p, depth, es[i], st, fuel);
        lemma_scan_entry_rows_grow(t, o, root_dev, p, depth, es[i], st, fuel);
        lemma_scan_entries_rows_grow(t, o, root_dev, p, depth, es, i + 1, st1, fuel);
        lemma_rows_le_trans(
            st.rows,
            st1.rows,
            spec_scan_entries(t, o, root_dev, p, depth, es, i + 1, st1, fuel).rows,
        );
    }
}

/// Single-entry form of the growing-rows fact.
proof fn lemma_scan_entry_rows_grow(
    t: Seq<DirV>,
    o: Options,
    root_dev: u64,
    p: Seq<Seq<char>>,
    depth: u32,
    e: EntryV,
    st: ScanV,
    fuel: nat,
)
    requires
        crate::stat_map::keys_distinct(st.rows),
    ensures
        crate::stat_map::keys_distinct(
            spec_scan_entry(t, o, root_dev, p, depth, e, st, fuel).rows,
        ),
        rows_le(st.rows, spec_scan_entry(t, o, root_dev, p, depth, e, st, fuel).rows),
    decreases fuel, 0nat, 1nat,
{
    assert(rows_le(st.rows, st.rows));
    let child = p.push(e.name);
    let child_str = join_path(child);
    if !spec_entry_excluded(o, e.name, child_str) {
        match e.kind {
            KindV::File => {
                lemma_count_file_rows_grow(o, root_dev, p, e, st);
            },
            KindV::SymlinkFile => {
                if o.follow_links {
                    lemma_count_file_rows_grow(o, root_dev, p, e, st);
                }
            },
            KindV::Dir => {
                lemma_enter_dir_rows_grow(t, o, root_dev, child, e.dev, e.ino, depth, st, fuel);
            },
            KindV::SymlinkDir(target) => {
                if o.follow_links {
                    lemma_enter_dir_rows_grow(
                        t, o, root_dev, target, e.dev, e.ino, depth, st, fuel,
                    );
                }
            },
        }
    }
}

/// Descent form of the growing-rows fact.
proof fn lemma_enter_dir_rows_grow(
    t: Seq<DirV>,
    o: Options,
    root_dev: u64,
    target: Seq<Seq<char>>,
    dev: u64,
    ino: u64,
    depth: u32,
    st: ScanV,
    fuel: nat,
)
    requires
        crate::stat_map::keys_distinct(st.rows),
    ensures
        crate::stat_map::keys_distinct(
            spec_enter_dir(t, o, root_dev, target, dev, ino, depth, st, fuel).rows,
        ),
        rows_le(st.rows, spec_enter_dir(t, o, root_dev, target, dev, ino, depth, st, fuel).rows),
    decreases fuel, 0nat, 0nat,
{
    assert(rows_le(st.rows, st.rows));
    if !(o.one_file_system && dev != root_dev) && depth_permits(o, depth) && depth != u32::MAX {
        let hit = o.follow_links && st.visited.contains((dev, ino));
        let stv = ScanV {
            visited: if o.follow_links {
                st.visited.insert((dev, ino))
            } else {
                st.visited
            },
            ..st
        };
        if !hit {
            match lookup_dir(t, target) {
                Some(_) => {
                    if !stv.processed.contains(target) {
                        let stp = ScanV { processed: stv.processed.push(target), ..stv };
                        if fuel != 0 {
                            lemma_scan_dir_rows_grow(
                                t,
                                o,
                                root_dev,
                                target,
                                (depth + 1) as u32,
                                stp,
                                (fuel - 1) as nat,
                            );
                        }
                    }
                },
                None => {
                    lemma_rows_le_ensure(st.rows, st.rows, target);
                    if !crate::stat_map::rows_has(st.rows, target) {
                        assert forall|k2: Seq<Seq<char>>| #[trigger]
                            crate::stat_map::rows_has(st.rows, k2) implies
                            crate::stat_map::rows_has(rows_ensure(st.rows, target), k2)
                            && crate::stat_map::rows_get_or_zero(st.rows, k2).le(
                            crate::stat_map::rows_get_or_zero(rows_ensure(st.rows, target), k2),
                        ) by {
                            let i = crate::stat_map::rows_idx(st.rows, k2);
                            crate::stat_map::lemma_rows_get_at(st.rows, i);
                            assert(rows_ensure(st.rows, target)[i] == st.rows[i]);
                            crate::stat_map::lemma_rows_get_at(rows_ensure(st.rows, target), i);
                        }
                    }
                },
            }
        }
    }
}


/// Whether one file entry is counted: the entry-level content of the
/// counted-leaves characterization, 1 for a counted entry and 0 for a
/// skipped one.
pub open spec fn cnt_file(o: Options, root_dev: u64, e: EntryV, st: ScanV) -> nat {
    if spec_file_counted(o, root_dev, e, st) {
        1nat
    } else {
        0nat
    }
}

/// Entries one entry contributes to the count: files through
/// [`cnt_file`], directories through the subtree they open.
pub open spec fn cnt_entry(
    t: Seq<DirV>,
    o: Options,
    root_dev: u64,
    p: Seq<Seq<char>>,
    depth: u32,
    e: EntryV,
    st: ScanV,
    fuel: nat,
) -> nat
    decreases fuel, 0nat, 1nat,
{
    let child = p.push(e.name);
    let child_str = join_path(child);
    if spec_entry_excluded(o, e.name, child_str) {
        0nat
    } else {
        match e.kind {
            KindV::File => cnt_file(o, root_dev, e, st),
            KindV::SymlinkFile => if o.follow_links {
                cnt_file(o, root_dev, e, st)
            } else {
                0nat
            },
            KindV::Dir => cnt_enter(t, o, root_dev, child, e.dev, e.ino, depth, st, fuel),
            KindV::SymlinkDir(target) => if o.follow_links {
                cnt_enter(t, o, root_dev, target, e.dev, e.ino, depth, st, fuel)
            } else {
                0nat
            },
        }
    }
}

/// Entries counted from position `i` on of one listing.
pub open spec fn cnt_entries(
    t: Seq<DirV>,
    o: Options,
    root_dev: u64,
    p: Seq<Seq<char>>,
    depth: u32,
    es: Seq<EntryV>,
    i: int,
    st: ScanV,
    fuel: nat,
) -> nat
    decreases fuel, 1nat, es.len() - i,
{
    if i < 0 || i >= es.len() {
        0nat
    } else {
        cnt_entry(t, o, root_dev, p, depth, es[i], st, fuel) + cnt_entries(
            t,
            o,
            root_dev,
            p,
            depth,
            es,
            i + 1,
            spec_scan_entry(t, o, root_dev, p, depth, es[i], st, fuel),
            fuel,
        )
    }
}

/// Entries counted below one admitted descent.
pub open spec fn cnt_enter(
    t: Seq<DirV>,
    o: Options,
    root_dev: u64,
    target: Seq<Seq<char>>,
    dev: u64,
    ino: u64,
    depth: u32,
    st: ScanV,
    fuel: nat,
) -> nat
    decreases fuel, 0nat, 0nat,
{
    if o.one_file_system && dev != root_dev {
        0nat
    } else if !depth_permits(o, depth) || depth == u32::MAX {
        0nat
    } else {
        let hit = o.follow_links && st.visited.contains((dev, ino));
        let stv = ScanV {
            visited: if o.follow_links {
                st.visited.insert((dev, ino))
            } else {
                st.visited
            },
            ..st
        };
        if hit {
            0nat
        } else {
            match lookup_dir(t, target) {
                Some(_) => {
                    if stv.processed.contains(target) {
                        0nat
                    } else {
                        let stp = ScanV { processed: stv.processed.push(target), ..stv };
                        if fuel == 0 {
                            0nat
                        } else {
                            cnt_dir(t, o, root_dev, target, (depth + 1) as u32, stp, (fuel - 1) as nat)
                        }
                    }
                },
                None => 0nat,
            }
        }
    }
}

/// Entries counted by the walk below one directory.
pub open spec fn cnt_dir(
    t: Seq<DirV>,
    o: Options,
    root_dev: u64,
    p: Seq<Seq<char>>,
    depth: u32,
    st: ScanV,
    fuel: nat,
) -> nat
    decreases fuel, 2nat, 0nat,
{
    if st.budget == 0 {
        0nat
    } else {
        let st0 = ScanV { budget: (st.budget - 1) as nat, rows: rows_ensure(st.rows, p), ..st };
        match lookup_dir(t, p) {
            Some(d) => cnt_entries(t, o, root_dev, p, depth, d.entries, 0, st0, fuel),
            None => 0nat,
        }
    }
}

/// Counting a file changes the total file count by exactly its verdict.
proof fn lemma_count_file_total(o: Options, root_dev: u64, p: Seq<Seq<char>>, e: EntryV, st: ScanV)
    requires
        crate::stat_map::keys_distinct(st.rows),
        crate::stat_map::rows_total_files(st.rows) + cnt_file(o, root_dev, e, st) <= u64::MAX,
    ensures
        crate::stat_map::rows_total_files(spec_count_file(o, root_dev, p, e, st).rows)
            == crate::stat_map::rows_total_files(st.rows) + cnt_file(o, root_dev, e, st),
{
    let after = spec_count_file(o, root_dev, p, e, st);
    if spec_file_counted(o, root_dev, e, st) {
        let v = Stat {
            logical: spec_file_sizes(o, e).0,
            physical: spec_file_sizes(o, e).1,
            files: 1u64,
        };
        assert(after.rows == rows_add(st.rows, p, v));
        if crate::stat_map::rows_has(st.rows, p) {
            let i = crate::stat_map::rows_idx(st.rows, p);
            crate::stat_map::lemma_rows_get_at(st.rows, i);
            crate::stat_map::lemma_rows_total_bound(st.rows, i);
        }
        crate::stat_map::lemma_rows_add_total(st.rows, p, v);
    } else {
        assert(after.rows == st.rows);
    }
}

/// One entry changes the total file count by exactly its tally.
proof fn lemma_scan_entry_total(
    t: Seq<DirV>,
    o: Options,
    root_dev: u64,
    p: Seq<Seq<char>>,
    depth: u32,
    e: EntryV,
    st: ScanV,
    fuel: nat,
)
    requires
        crate::stat_map::keys_distinct(st.rows),
        crate::stat_map::rows_total_files(st.rows) + cnt_entry(
            t,
            o,
            root_dev,
            p,
            depth,
            e,
            st,
            fuel,
        ) <= u64::MAX,
    ensures
        crate::stat_map::rows_total_files(spec_scan_entry(t, o, root_dev, p, depth, e, st, fuel).rows)
            == crate::stat_map::rows_total_files(st.rows) + cnt_entry(
            t,
            o,
            root_dev,
            p,
            depth,
            e,
            st,
            fuel,
        ),
    decreases fuel, 0nat, 1nat,
{
    let child = p.push(e.name);
    let child_str = join_path(child);
    if !spec_entry_excluded(o, e.name, child_str) {
        match e.kind {
            KindV::File => {
                lemma_count_file_total(o, root_dev, p, e, st);
            },
            KindV::SymlinkFile => {
                if o.follow_links {
                    lemma_count_file_total(o, root_dev, p, e, st);
                }
            },
            KindV::Dir => {
                lemma_enter_dir_total(t, o, root_dev, child, e.dev, e.ino, depth, st, fuel);
            },
            KindV::SymlinkDir(target) => {
                if o.follow_links {
                    lemma_enter_dir_total(t, o, root_dev, target, e.dev, e.ino, depth, st, fuel);
                }
            },
        }
    }
}

/// A listing suffix changes the total file count by exactly its tally.
proof fn lemma_scan_entries_total(
    t: Seq<DirV>,
    o: Options,
    root_dev: u64,
    p: Seq<Seq<char>>,
    depth: u32,
    es: Seq<EntryV>,
    i: int,
    st: ScanV,
    fuel: nat,
)
    requires
        crate::stat_map::keys_distinct(st.rows),
        crate::stat_map::rows_total_files(st.rows) + cnt_entries(
            t,
            o,
            root_dev,
            p,
            depth,
            es,
            i,
            st,
            fuel,
        ) <= u64::MAX,
    ensures
        crate::stat_map::rows_total_files(
            spec_scan_entries(t, o, root_dev, p, depth, es, i, st, fuel).rows,
        ) == crate::stat_map::rows_total_files(st.rows) + cnt_entries(
            t,
            o,
            root_dev,
            p,
            depth,
            es,
            i,
            st,
            fuel,
        ),
    decreases fuel, 1nat, es.len() - i,
{
    if 0 <= i < es.len() {
        let st1 = spec_scan_entry(t, o, root_dev, p, depth, es[i], st, fuel);
        lemma_scan_entry_total(t, o, root_dev, p, depth, es[i], st, fuel);
        lemma_scan_entry_rows_grow(t, o, root_dev, p, depth, es[i], st, fuel);
        lemma_scan_entries_total(t, o, root_dev, p, depth, es, i + 1, st1, fuel);
    }
}

/// A descent changes the total file count by exactly its tally.
proof fn lemma_enter_dir_total(
    t: Seq<DirV>,
    o: Options,
    root_dev: u64,
    target: Seq<Seq<char>>,
    dev: u64,
    ino: u64,
    depth: u32,
    st: ScanV,
    fuel: nat,
)
    requires
        crate::stat_map::keys_distinct(st.rows),
        crate::stat_map::rows_total_files(st.rows) + cnt_enter(
            t,
            o,
            root_dev,
            target,
            dev,
            ino,
            depth,
            st,
            fuel,
        ) <= u64::MAX,
    ensures
        crate::stat_map::rows_total_files(
            spec_enter_dir(t, o, root_dev, target, dev, ino, depth, st, fuel).rows,
        ) == crate::stat_map::rows_total_files(st.rows) + cnt_enter(
            t,
            o,
            root_dev,
            target,
            dev,
            ino,
            depth,
            st,
            fuel,
        ),
    decreases fuel, 0nat, 0nat,
{
    if !(o.one_file_system && dev != root_dev) && depth_permits(o, depth) && depth != u32::MAX {
        let hit = o.follow_links && st.visited.contains((dev, ino));
        let stv = ScanV {
            visited: if o.follow_links {
                st.visited.insert((dev, ino))
            } else {
                st.visited
            },
            ..st
        };
        if !hit {
            match lookup_dir(t, target) {
                Some(_) => {
                    if !stv.processed.contains(target) {
                        let stp = ScanV { processed: stv.processed.push(target), ..stv };
                        if fuel != 0 {
                            lemma_scan_dir_total(
                                t,
                                o,
                                root_dev,
                                target,
                                (depth + 1) as u32,
                                stp,
                                (fuel - 1) as nat,
                            );
                        }
                    }
                },
                None => {
                    crate::stat_map::lemma_rows_add_total(
                        st.rows,
                        target,
                        Stat { logical: 0, physical: 0, files: 0 },
                    );
                },
            }
        }
    }
}

/// The counted-leaves law over a whole walk: the file total the walk
/// adds to the gathered rows is exactly the number of entries that pass
/// every gate — the filters, the size floor, the one-file-system rule
/// and the hardlink check of [`spec_file_counted`] — each counted once.
/// The cap hypothesis keeps the saturating counters exact.
pub proof fn lemma_scan_dir_total(
    t: Seq<DirV>,
    o: Options,
    root_dev: u64,
    p: Seq<Seq<char>>,
    depth: u32,
    st: ScanV,
    fuel: nat,
)
    requires
        crate::stat_map::keys_distinct(st.rows),
        crate::stat_map::rows_total_files(st.rows) + cnt_dir(t, o, root_dev, p, depth, st, fuel)
            <= u64::MAX,
    ensures
        crate::stat_map::rows_total_files(spec_scan_dir(t, o, root_dev, p, depth, st, fuel).rows)
            == crate::stat_map::rows_total_files(st.rows) + cnt_dir(
            t,
            o,
            root_dev,
            p,
            depth,
            st,
            fuel,
        ),
    decreases fuel, 2nat, 0nat,
{
    if st.budget != 0 {
        let st0 = ScanV { budget: (st.budget - 1) as nat, rows: rows_ensure(st.rows, p), ..st };
        crate::stat_map::lemma_rows_add_total(
            st.rows,
            p,
            Stat { logical: 0, physical: 0, files: 0 },
        );
        crate::stat_map::lemma_rows_add_distinct(
            st.rows,
            p,
            Stat { logical: 0, physical: 0, files: 0 },
        );
        match lookup_dir(t, p) {
            Some(d) => {
                lemma_scan_entries_total(t, o, root_dev, p, depth, d.entries, 0, st0, fuel);
            },
            None => {},
        }
    }
}


/// The rows stay rooted when one is raised or created at a rooted key.
proof fn lemma_rows_add_rooted(
    s: Seq<(Seq<Seq<char>>, Stat)>,
    base: Seq<Seq<char>>,
    k: Seq<Seq<char>>,
    v: Stat,
)
    requires
        crate::stat_map::rows_rooted(s, base),
        crate::path::is_prefix_of(base, k),
    ensures
        crate::stat_map::rows_rooted(rows_add(s, k, v), base),
        crate::stat_map::rows_rooted(rows_ensure(s, k), base),
{
    let t = rows_add(s, k, v);
    assert forall|i: int| 0 <= i < t.len() implies crate::path::is_prefix_of(
        base,
        (#[trigger] t[i]).0,
    ) by {
        if crate::stat_map::rows_has(s, k) {
            if i != crate::stat_map::rows_idx(s, k) {
                assert(t[i] == s[i]);
            }
        } else {
            if i < s.len() {
                assert(t[i] == s[i]);
            }
        }
    }
    let e = rows_ensure(s, k);
    assert forall|i: int| 0 <= i < e.len() implies crate::path::is_prefix_of(
        base,
        (#[trigger] e[i]).0,
    ) by {
        if i < s.len() {
            assert(e[i] == s[i]);
        }
    }
}

/// A child path extends everything its parent extends.
proof fn lemma_prefix_of_push(base: Seq<Seq<char>>, p: Seq<Seq<char>>, name: Seq<char>)
    requires
        crate::path::is_prefix_of(base, p),
    ensures
        crate::path::is_prefix_of(base, p.push(name)),
{
    assert(p.push(name).subrange(0, base.len() as int) =~= p.subrange(0, base.len() as int));
}

/// With symlinks not followed, a walk below a directory that extends
/// `base` only ever touches rows that extend `base`.
pub proof fn lemma_scan_dir_rows_rooted(
    t: Seq<DirV>,
    o: Options,
    root_dev: u64,
    base: Seq<Seq<char>>,
    p: Seq<Seq<char>>,
    depth: u32,
    st: ScanV,
    fuel: nat,
)
    requires
        !o.follow_links,
        crate::stat_map::rows_rooted(st.rows, base),
        crate::path::is_prefix_of(base, p),
    ensures
        crate::stat_map::rows_rooted(spec_scan_dir(t, o, root_dev, p, depth, st, fuel).rows, base),
    decreases fuel, 2nat, 0nat,
{
    if st.budget != 0 {
        lemma_rows_add_rooted(st.rows, base, p, Stat { logical: 0, physical: 0, files: 0 });
        let st0 = ScanV { budget: (st.budget - 1) as nat, rows: rows_ensure(st.rows, p), ..st };
        match lookup_dir(t, p) {
            Some(d) => {
                lemma_scan_entries_rows_rooted(
                    t, o, root_dev, base, p, depth, d.entries, 0, st0, fuel,
                );
            },
            None => {},
        }
    }
}

/// Entry-list form of the rooted-rows fact.
proof fn lemma_scan_entries_rows_rooted(
    t: Seq<DirV>,
    o: Options,
    root_dev: u64,
    base: Seq<Seq<char>>,
    p: Seq<Seq<char>>,
    depth: u32,
    es: Seq<EntryV>,
    i: int,
    st: ScanV,
    fuel: nat,
)
    requires
        !o.follow_links,
        crate::stat_map::rows_rooted(st.rows, base),
        crate::path::is_prefix_of(base, p),
    ensures
        crate::stat_map::rows_rooted(
            spec_scan_entries(t, o, root_dev, p, depth, es, i, st, fuel).rows,
            base,
        ),
    decreases fuel, 1nat, es.len() - i,
{
    if 0 <= i < es.len() {
        let st1 = spec_scan_entry(t, o, root_dev, p, depth, es[i], st, fuel);
        lemma_scan_entry_rows_rooted(t, o, root_dev, base, p, depth, es[i], st, fuel);
        lemma_scan_entries_rows_rooted(t, o, root_dev, base, p, depth, es, i + 1, st1, fuel);
    }
}

/// Single-entry form of the rooted-rows fact.
proof fn lemma_scan_entry_rows_rooted(
    t: Seq<DirV>,
    o: Options,
    root_dev: u64,
    base: Seq<Seq<char>>,
    p: Seq<Seq<char>>,
    depth: u32,
    e: EntryV,
    st: ScanV,
    fuel: nat,
)
    requires
        !o.follow_links,
        crate::stat_map::rows_rooted(st.rows, base),
        crate::path::is_prefix_of(base, p),
    ensures
        crate::stat_map::rows_rooted(
            spec_scan_entry(t, o, root_dev, p, depth, e, st, fuel).rows,
            base,
        ),
    decreases fuel, 0nat, 1nat,
{
    let child = p.push(e.name);
    let child_str = join_path(child);
    lemma_prefix_of_push(base, p, e.name);
    if !spec_entry_excluded(o, e.name, child_str) {
        match e.kind {
            KindV::File => {
                if spec_file_counted(o, root_dev, e, st) {
                    let v = Stat {
                        logical: spec_file_sizes(o, e).0,
                        physical: spec_file_sizes(o, e).1,
                        files: 1u64,
                    };
                    lemma_rows_add_rooted(st.rows, base, p, v);
                }
            },
            KindV::SymlinkFile => {},
            KindV::Dir => {
                lemma_enter_dir_rows_rooted(
                    t, o, root_dev, base, child, e.dev, e.ino, depth, st, fuel,
                );
            },
            KindV::SymlinkDir(_) => {},
        }
    }
}

/// Descent form of the rooted-rows fact.
proof fn lemma_enter_dir_rows_rooted(
    t: Seq<DirV>,
    o: Options,
    root_dev: u64,
    base: Seq<Seq<char>>,
    target: Seq<Seq<char>>,
    dev: u64,
    ino: u64,
    depth: u32,
    st: ScanV,
    fuel: nat,
)
    requires
        !o.follow_links,
        crate::stat_map::rows_rooted(st.rows, base),
        crate::path::is_prefix_of(base, target),
    ensures
        crate::stat_map::rows_rooted(
            spec_enter_dir(t, o, root_dev, target, dev, ino, depth, st, fuel).rows,
            base,
        ),
    decreases fuel, 0nat, 0nat,
{
    if !(o.one_file_system && dev != root_dev) && depth_permits(o, depth) && depth != u32::MAX {
        match lookup_dir(t, target) {
            Some(_) => {
                if !st.processed.contains(target) {
                    let stp = ScanV { processed: st.processed.push(target), ..st };
                    if fuel != 0 {
                        lemma_scan_dir_rows_rooted(
                            t,
                            o,
                            root_dev,
                            base,
                            target,
                            (depth + 1) as u32,
                            stp,
                            (fuel - 1) as nat,
                        );
                    }
                }
            },
            None => {
                lemma_rows_add_rooted(
                    st.rows,
                    base,
                    target,
                    Stat { logical: 0, physical: 0, files: 0 },
                );
            },
        }
    }
}

/// The counted-leaves law at the root: with symlinks not followed, the
/// rolled-up file count at the scanned root is exactly the number of
/// entries the walk counted — one per entry passing every gate of
/// [`spec_file_counted`]. The cap hypothesis keeps the saturating
/// counters exact.
pub proof fn lemma_root_files_counted(t: Seq<DirV>, o: Options, root: Seq<Seq<char>>, budget: nat)
    requires
        !o.follow_links,
        lookup_dir(t, root) is Some,
        cnt_dir(
            t,
            o,
            lookup_dir(t, root).unwrap().dev,
            root,
            0,
            ScanV {
                processed: seq![root],
                visited: Set::empty(),
                inodes: Set::empty(),
                rows: Seq::empty(),
                budget,
            },
            t.len(),
        ) <= u64::MAX,
    ensures
        crate::stat_map::sum_under(spec_scan_rows(t, o, root, budget), root).files == cnt_dir(
            t,
            o,
            lookup_dir(t, root).unwrap().dev,
            root,
            0,
            ScanV {
                processed: seq![root],
                visited: Set::empty(),
                inodes: Set::empty(),
                rows: Seq::empty(),
                budget,
            },
            t.len(),
        ),
{
    let root_dev = lookup_dir(t, root).unwrap().dev;
    let st0 = ScanV {
        processed: seq![root],
        visited: Set::empty(),
        inodes: Set::empty(),
        rows: Seq::empty(),
        budget,
    };
    let rows = spec_scan_dir(t, o, root_dev, root, 0, st0, t.len()).rows;
    assert(crate::stat_map::keys_distinct(st0.rows));
    assert(crate::stat_map::rows_total_files(st0.rows) == 0);
    lemma_scan_dir_total(t, o, root_dev, root, 0, st0, t.len());
    assert(crate::stat_map::rows_rooted(st0.rows, root));
    assert(crate::path::is_prefix_of(root, root)) by {
        assert(root.subrange(0, root.len() as int) =~= root);
    }
    lemma_scan_dir_rows_rooted(t, o, root_dev, root, root, 0, st0, t.len());
    crate::stat_map::lemma_rooted_exact_is_total(rows, root);
    crate::stat_map::lemma_sum_under_exact_files(rows, root);
}


/// 1 where this file entry is counted and carries the inode key.
pub open spec fn cnt_key_file(
    o: Options,
    root_dev: u64,
    e: EntryV,
    st: ScanV,
    dev: u64,
    ino: u64,
) -> nat {
    if e.dev == dev && e.ino == ino && spec_file_counted(o, root_dev, e, st) {
        1nat
    } else {
        0nat
    }
}

/// Entries with the inode key one entry contributes to the count.
pub open spec fn cnt_key_entry(
    t: Seq<DirV>,
    o: Options,
    root_dev: u64,
    p: Seq<Seq<char>>,
    depth: u32,
    e: EntryV,
    st: ScanV,
    fuel: nat,
    dev: u64,
    ino: u64,
) -> nat
    decreases fuel, 0nat, 1nat,
{
    let child = p.push(e.name);
    let child_str = join_path(child);
    if spec_entry_excluded(o, e.name, child_str) {
        0nat
    } else {
        match e.kind {
            KindV::File => cnt_key_file(o, root_dev, e, st, dev, ino),
            KindV::SymlinkFile => if o.follow_links {
                cnt_key_file(o, root_dev, e, st, dev, ino)
            } else {
                0nat
            },
            KindV::Dir => cnt_key_enter(
                t, o, root_dev, child, e.dev, e.ino, depth, st, fuel, dev, ino,
            ),
            KindV::SymlinkDir(target) => if o.follow_links {
                cnt_key_enter(t, o, root_dev, target, e.dev, e.ino, depth, st, fuel, dev, ino)
            } else {
                0nat
            },
        }
    }
}

/// Entries with the inode key counted from position `i` on.
pub open spec fn cnt_key_entries(
    t: Seq<DirV>,
    o: Options,
    root_dev: u64,
    p: Seq<Seq<char>>,
    depth: u32,
    es: Seq<EntryV>,
    i: int,
    st: ScanV,
    fuel: nat,
    dev: u64,
    ino: u64,
) -> nat
    decreases fuel, 1nat, es.len() - i,
{
    if i < 0 || i >= es.len() {
        0nat
    } else {
        cnt_key_entry(t, o, root_dev, p, depth, es[i], st, fuel, dev, ino) + cnt_key_entries(
            t,
            o,
            root_dev,
            p,
            depth,
            es,
            i + 1,
            spec_scan_entry(t, o, root_dev, p, depth, es[i], st, fuel),
            fuel,
            dev,
            ino,
        )
    }
}

/// Entries with the inode key counted below one admitted descent.
pub open spec fn cnt_key_enter(
    t: Seq<DirV>,
    o: Options,
    root_dev: u64,
    target: Seq<Seq<char>>,
    edev: u64,
    eino: u64,
    depth: u32,
    st: ScanV,
    fuel: nat,
    dev: u64,
    ino: u64,
) -> nat
    decreases fuel, 0nat, 0nat,
{
    if o.one_file_system && edev != root_dev {
        0nat
    } else if !depth_permits(o, depth) || depth == u32::MAX {
        0nat
    } else {
        let hit = o.follow_links && st.visited.contains((edev, eino));
        let stv = ScanV {
            visited: if o.follow_links {
                st.visited.insert((edev, eino))
            } else {
                st.visited
            },
            ..st
        };
        if hit {
            0nat
        } else {
            match lookup_dir(t, target) {
                Some(_) => {
                    if stv.processed.contains(target) {
                        0nat
                    } else {
                        let stp = ScanV { processed: stv.processed.push(target), ..stv };
                        if fuel == 0 {
                            0nat
                        } else {
                            cnt_key_dir(
                                t,
                                o,
                                root_dev,
                                target,
                                (depth + 1) as u32,
                                stp,
                                (fuel - 1) as nat,
                                dev,
                                ino,
                            )
                        }
                    }
                },
                None => 0nat,
            }
        }
    }
}

/// Entries with the inode key counted by the walk below one directory.
pub open spec fn cnt_key_dir(
    t: Seq<DirV>,
    o: Options,
    root_dev: u64,
    p: Seq<Seq<char>>,
    depth: u32,
    st: ScanV,
    fuel: nat,
    dev: u64,
    ino: u64,
) -> nat
    decreases fuel, 2nat, 0nat,
{
    if st.budget == 0 {
        0nat
    } else {
        let st0 = ScanV { budget: (st.budget - 1) as nat, rows: rows_ensure(st.rows, p), ..st };
        match lookup_dir(t, p) {
            Some(d) => cnt_key_entries(t, o, root_dev, p, depth, d.entries, 0, st0, fuel, dev, ino),
            None => 0nat,
        }
    }
}

/// With deduplication on: a recorded key is never counted again, a walk
/// counts any key at most once, and a counted key ends up recorded.
pub proof fn lemma_dedup_key_dir(
    t: Seq<DirV>,
    o: Options,
    root_dev: u64,
    p: Seq<Seq<char>>,
    depth: u32,
    st: ScanV,
    fuel: nat,
    dev: u64,
    ino: u64,
)
    requires
        !o.count_hardlinks,
    ensures
        st.inodes.contains((dev, ino)) ==> cnt_key_dir(
            t, o, root_dev, p, depth, st, fuel, dev, ino,
        ) == 0,
        cnt_key_dir(t, o, root_dev, p, depth, st, fuel, dev, ino) <= 1,
        cnt_key_dir(t, o, root_dev, p, depth, st, fuel, dev, ino) == 1 ==> spec_scan_dir(
            t, o, root_dev, p, depth, st, fuel,
        ).inodes.contains((dev, ino)),
    decreases fuel, 2nat, 0nat,
{
    if st.budget != 0 {
        let st0 = ScanV { budget: (st.budget - 1) as nat, rows: rows_ensure(st.rows, p), ..st };
        match lookup_dir(t, p) {
            Some(d) => {
                lemma_dedup_key_entries(
                    t, o, root_dev, p, depth, d.entries, 0, st0, fuel, dev, ino,
                );
            },
            None => {},
        }
    }
}

/// Entry-list form of the at-most-once law.
proof fn lemma_dedup_key_entries(
    t: Seq<DirV>,
    o: Options,
    root_dev: u64,
    p: Seq<Seq<char>>,
    depth: u32,
    es: Seq<EntryV>,
    i: int,
    st: ScanV,
    fuel: nat,
    dev: u64,
    ino: u64,
)
    requires
        !o.count_hardlinks,
    ensures
        st.inodes.contains((dev, ino)) ==> cnt_key_entries(
            t, o, root_dev, p, depth, es, i, st, fuel, dev, ino,
        ) == 0,
        cnt_key_entries(t, o, root_dev, p, depth, es, i, st, fuel, dev, ino) <= 1,
        cnt_key_entries(t, o, root_dev, p, depth, es, i, st, fuel, dev, ino) == 1
            ==> spec_scan_entries(t, o, root_dev, p, depth, es, i, st, fuel).inodes.contains(
            (dev, ino),
        ),
    decreases fuel, 1nat, es.len() - i,
{
    if 0 <= i < es.len() {
        let st1 = spec_scan_entry(t, o, root_dev, p, depth, es[i], st, fuel);
        lemma_dedup_key_entry(t, o, root_dev, p, depth, es[i], st, fuel, dev, ino);
        lemma_scan_entry_inodes_monotone(t, o, root_dev, p, depth, es[i], st, fuel);
        lemma_dedup_key_entries(t, o, root_dev, p, depth, es, i + 1, st1, fuel, dev, ino);
        lemma_scan_entries_inodes_monotone(t, o, root_dev, p, depth, es, i + 1, st1, fuel);
    }
}

/// Single-entry form of the at-most-once law.
proof fn lemma_dedup_key_entry(
    t: Seq<DirV>,
    o: Options,
    root_dev: u64,
    p: Seq<Seq<char>>,
    depth: u32,
    e: EntryV,
    st: ScanV,
    fuel: nat,
    dev: u64,
    ino: u64,
)
    requires
        !o.count_hardlinks,
    ensures
        st.inodes.contains((dev, ino)) ==> cnt_key_entry(
            t, o, root_dev, p, depth, e, st, fuel, dev, ino,
        ) == 0,
        cnt_key_entry(t, o, root_dev, p, depth, e, st, fuel, dev, ino) <= 1,
        cnt_key_entry(t, o, root_dev, p, depth, e, st, fuel, dev, ino) == 1 ==> spec_scan_entry(
            t, o, root_dev, p, depth, e, st, fuel,
        ).inodes.contains((dev, ino)),
    decreases fuel, 0nat, 1nat,
{
    let child = p.push(e.name);
    let child_str = join_path(child);
    if !spec_entry_excluded(o, e.name, child_str) {
        match e.kind {
            KindV::File => {},
            KindV::SymlinkFile => {},
            KindV::Dir => {
                lemma_dedup_key_enter(
                    t, o, root_dev, child, e.dev, e.ino, depth, st, fuel, dev, ino,
                );
            },
            KindV::SymlinkDir(target) => {
                if o.follow_links {
                    lemma_dedup_key_enter(
                        t, o, root_dev, target, e.dev, e.ino, depth, st, fuel, dev, ino,
                    );
                }
            },
        }
    }
}

/// Descent form of the at-most-once law.
proof fn lemma_dedup_key_enter(
    t: Seq<DirV>,
    o: Options,
    root_dev: u64,
    target: Seq<Seq<char>>,
    edev: u64,
    eino: u64,
    depth: u32,
    st: ScanV,
    fuel: nat,
    dev: u64,
    ino: u64,
)
    requires
        !o.count_hardlinks,
    ensures
        st.inodes.contains((dev, ino)) ==> cnt_key_enter(
            t, o, root_dev, target, edev, eino, depth, st, fuel, dev, ino,
        ) == 0,
        cnt_key_enter(t, o, root_dev, target, edev, eino, depth, st, fuel, dev, ino) <= 1,
        cnt_key_enter(t, o, root_dev, target, edev, eino, depth, st, fuel, dev, ino) == 1
            ==> spec_enter_dir(t, o, root_dev, target, edev, eino, depth, st, fuel).inodes.contains(
            (dev, ino),
        ),
    decreases fuel, 0nat, 0nat,
{
    if !(o.one_file_system && edev != root_dev) && depth_permits(o, depth) && depth != u32::MAX {
        let hit = o.follow_links && st.visited.contains((edev, eino));
        let stv = ScanV {
            visited: if o.follow_links {
                st.visited.insert((edev, eino))
            } else {
                st.visited
            },
            ..st
        };
        if !hit {
            match lookup_dir(t, target) {
                Some(_) => {
                    if !stv.processed.contains(target) {
                        let stp = ScanV { processed: stv.processed.push(target), ..stv };
                        if fuel != 0 {
                            lemma_dedup_key_dir(
                                t,
                                o,
                                root_dev,
                                target,
                                (depth + 1) as u32,
                                stp,
                                (fuel - 1) as nat,
                                dev,
                                ino,
                            );
                        }
                    }
                },
                None => {},
            }
        }
    }
}

} // verus!










