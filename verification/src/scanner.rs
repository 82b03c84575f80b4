//! Backend selection shell.
//!
//! The platform enumeration backends live outside the verified core;
//! they turn syscalls into the tree picture of [`crate::fstree`] and the
//! per-entry operations of [`crate::common_ops`]. The marker type here
//! names the default, platform-chosen backend for callers that select
//! backends by value.

use vstd::prelude::*;

verus! {

/// The default, platform-chosen enumeration backend.
#[derive(Clone, Copy, Debug, PartialEq, Eq, Structural)]
pub struct PlatformScanner;

/// The default scanner value.
pub fn platform_scanner() -> (r: PlatformScanner)
    ensures
        r == PlatformScanner,
{
    PlatformScanner
}


/// How a multi-root scan should be run: all roots in parallel with the
/// workers split among them, or one root after another with full inner
/// parallelism.
#[derive(Clone, Copy, Debug, PartialEq, Eq, Structural)]
pub enum MultiRootPlan {
    OuterParallel,
    InnerSequential,
}

/// Choose the multi-root plan: a forced preference wins; a single root
/// always scans alone; otherwise outer parallelism is taken when roots
/// are plentiful or inner workers are few, unless the probed root
/// fan-out is very large.
pub fn auto_scan_choice(
    mode: crate::HeuristicsMode,
    n_roots: usize,
    cpus: usize,
    threads: usize,
    avg_width: usize,
) -> (r: MultiRootPlan)
    ensures
        mode == crate::HeuristicsMode::OuterOnly ==> r == MultiRootPlan::OuterParallel,
        mode == crate::HeuristicsMode::InnerOnly ==> r == MultiRootPlan::InnerSequential,
        mode == crate::HeuristicsMode::Auto && n_roots <= 1 ==> r
            == MultiRootPlan::InnerSequential,
        mode == crate::HeuristicsMode::Auto && n_roots > 1 ==> r == (if (n_roots >= cpus / 2
            || threads <= 2) && avg_width < 4096 {
            MultiRootPlan::OuterParallel
        } else {
            MultiRootPlan::InnerSequential
        }),
{
    match mode {
        crate::HeuristicsMode::OuterOnly => MultiRootPlan::OuterParallel,
        crate::HeuristicsMode::InnerOnly => MultiRootPlan::InnerSequential,
        crate::HeuristicsMode::Auto => {
            if n_roots <= 1 {
                MultiRootPlan::InnerSequential
            } else if (n_roots >= cpus / 2 || threads <= 2) && avg_width < 4096 {
                MultiRootPlan::OuterParallel
            } else {
                MultiRootPlan::InnerSequential
            }
        },
    }
}

/// Workers each root gets when roots are scanned in parallel: the
/// configured count split evenly over the scheduled roots, at least one
/// each; a single-worker configuration stays single.
pub fn threads_per_root(threads: usize, pool_workers: usize, n_roots: usize) -> (r: usize)
    ensures
        threads <= 1 ==> r == threads,
        threads > 1 ==> ({
            let denom = if pool_workers < n_roots {
                pool_workers
            } else {
                n_roots
            };
            let d = if denom == 0 {
                1usize
            } else {
                denom
            };
            r == (if threads / d == 0 {
                1usize
            } else {
                threads / d
            })
        }),
{
    if threads <= 1 {
        return threads;
    }
    let denom = if pool_workers < n_roots {
        pool_workers
    } else {
        n_roots
    };
    let d = if denom == 0 {
        1
    } else {
        denom
    };
    let per = threads / d;
    if per == 0 {
        1
    } else {
        per
    }
}

} // verus!

