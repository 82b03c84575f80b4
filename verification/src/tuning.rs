//! The adaptive tuner's decision rules.
//!
//! A background task samples the live counters on a coarse tick and
//! adjusts three knobs: the directory-yield granularity, the ring batch
//! size and the active worker count. The sampling loop and the clock
//! belong to the embedding; every decision it applies is computed and
//! specified here. Rates are compared as exact rationals — files over
//! elapsed nanoseconds — so a five-percent improvement means
//! `20 * new_rate > 21 * old_rate`.

use vstd::prelude::*;

verus! {

/// The directory-yield candidate ladder; index 0 disables yielding.
pub open spec fn spec_yield_step(i: int) -> usize {
    if i <= 0 {
        0usize
    } else if i == 1 {
        4096usize
    } else if i == 2 {
        8192usize
    } else if i == 3 {
        16384usize
    } else if i == 4 {
        32768usize
    } else if i == 5 {
        65536usize
    } else {
        131072usize
    }
}

/// The yield value at one ladder position.
pub fn yield_step(i: usize) -> (r: usize)
    requires
        i <= 6,
    ensures
        r == spec_yield_step(i as int),
{
    if i == 0 {
        0
    } else if i == 1 {
        4096
    } else if i == 2 {
        8192
    } else if i == 3 {
        16384
    } else if i == 4 {
        32768
    } else if i == 5 {
        65536
    } else {
        131072
    }
}

/// A per-tick counter clamped to 32 bits: beyond four billion events in
/// one tick every rate comparison is saturated anyway.
pub open spec fn spec_clamp32(x: u64) -> u64 {
    if x > 0xffff_ffffu64 {
        0xffff_ffffu64
    } else {
        x
    }
}

/// Whether the new rate beats the old by more than five percent:
/// `new_files / new_ns > 1.05 * old_files / old_ns`, compared exactly as
/// rationals over the clamped counters. A zero old rate or an empty
/// interval never counts as an improvement.
pub open spec fn spec_rate_improved(new_n: u64, new_ns: u64, old_n: u64, old_ns: u64) -> bool {
    old_n > 0 && old_ns > 0 && new_ns > 0 && 20 * spec_clamp32(new_n) * spec_clamp32(old_ns) > 21
        * spec_clamp32(old_n) * spec_clamp32(new_ns)
}

/// Clamp a per-tick counter to 32 bits.
fn clamp32(x: u64) -> (r: u64)
    ensures
        r == spec_clamp32(x),
        r <= 0xffff_ffffu64,
{
    if x > 0xffff_ffff {
        0xffff_ffff
    } else {
        x
    }
}

/// Exact five-percent rate comparison.
pub fn rate_improved(new_n: u64, new_ns: u64, old_n: u64, old_ns: u64) -> (r: bool)
    ensures
        r == spec_rate_improved(new_n, new_ns, old_n, old_ns),
{
    if old_n == 0 || old_ns == 0 || new_ns == 0 {
        return false;
    }
    let a = clamp32(new_n);
    let b = clamp32(old_ns);
    let c = clamp32(old_n);
    let d = clamp32(new_ns);
    proof {
        assert(20 * (a as int) * (b as int) <= 20 * 0xffff_ffffu64 * 0xffff_ffffu64)
            by (nonlinear_arith)
            requires
                a <= 0xffff_ffffu64 && b <= 0xffff_ffffu64,
        ;
        assert(21 * (c as int) * (d as int) <= 21 * 0xffff_ffffu64 * 0xffff_ffffu64)
            by (nonlinear_arith)
            requires
                c <= 0xffff_ffffu64 && d <= 0xffff_ffffu64,
        ;
    }
    let lhs: u128 = 20u128 * (a as u128) * (b as u128);
    let rhs: u128 = 21u128 * (c as u128) * (d as u128);
    lhs > rhs
}

/// Step the yield ladder: on improvement keep the direction and take one
/// step; otherwise reverse the direction and take one step; always
/// clamped to the ladder.
pub fn next_yield_index(idx: usize, dir_up: bool, improved: bool) -> (r: (usize, bool))
    requires
        idx <= 6,
    ensures
        r.1 == (if improved {
            dir_up
        } else {
            !dir_up
        }),
        r.0 == (if r.1 {
            if idx < 6 {
                (idx + 1) as usize
            } else {
                idx
            }
        } else {
            if idx > 0 {
                (idx - 1) as usize
            } else {
                idx
            }
        }),
        r.0 <= 6,
{
    let dir = if improved {
        dir_up
    } else {
        !dir_up
    };
    let next = if dir {
        if idx < 6 {
            idx + 1
        } else {
            idx
        }
    } else {
        if idx > 0 {
            idx - 1
        } else {
            idx
        }
    };
    (next, dir)
}

/// Whether the average submit wait per completion exceeds a nanosecond
/// threshold, compared exactly over the clamped completion counter.
pub open spec fn spec_wait_exceeds(dwait_ns: u64, dcqe: u64, threshold_ns: u64) -> bool {
    dcqe > 0 && dwait_ns > threshold_ns * spec_clamp32(dcqe)
}

/// Exact average-wait threshold test.
pub fn wait_exceeds(dwait_ns: u64, dcqe: u64, threshold_ns: u64) -> (r: bool)
    ensures
        r == spec_wait_exceeds(dwait_ns, dcqe, threshold_ns),
{
    if dcqe == 0 {
        return false;
    }
    let q = clamp32(dcqe);
    proof {
        assert((threshold_ns as int) * (q as int) <= 0xffff_ffff_ffff_ffffu64 * 0xffff_ffffu64)
            by (nonlinear_arith)
            requires
                threshold_ns <= 0xffff_ffff_ffff_ffffu64 && q <= 0xffff_ffffu64,
        ;
    }
    let lhs: u128 = dwait_ns as u128;
    let rhs: u128 = (threshold_ns as u128) * (q as u128);
    lhs > rhs
}

/// The next ring batch size, within [64, 4096]: shrink by 64 on any
/// submission failure, by 32 on an average submit wait above two
/// milliseconds, otherwise grow by 32.
pub fn next_uring_batch(batch: usize, dfail: u64, dwait_ns: u64, dcqe: u64) -> (r: usize)
    ensures
        dfail > 0 ==> r == (if batch >= 128 {
            (batch - 64) as usize
        } else {
            64usize
        }),
        dfail == 0 && spec_wait_exceeds(dwait_ns, dcqe, 2000000) ==> r == (if batch >= 96 {
            (batch - 32) as usize
        } else {
            64usize
        }),
        dfail == 0 && !spec_wait_exceeds(dwait_ns, dcqe, 2000000) ==> r == (if batch + 32 <= 4096 {
            (batch + 32) as usize
        } else {
            4096usize
        }),
{
    if dfail > 0 {
        if batch >= 128 {
            batch - 64
        } else {
            64
        }
    } else if wait_exceeds(dwait_ns, dcqe, 2000000) {
        if batch >= 96 {
            batch - 32
        } else {
            64
        }
    } else {
        if batch <= 4064 {
            batch + 32
        } else {
            4096
        }
    }
}

/// The next active-worker count, within [1, threads]: back off by one on
/// submission failures or an average submit wait above three
/// milliseconds; ramp up by one on a clear rate improvement.
pub fn next_active_threads(
    active: usize,
    threads: usize,
    dfail: u64,
    dwait_ns: u64,
    dcqe: u64,
    improved: bool,
) -> (r: usize)
    ensures
        ({
            let maxt = if threads == 0 {
                1usize
            } else {
                threads
            };
            let cur = if active == 0 {
                1usize
            } else if active > maxt {
                maxt
            } else {
                active
            };
            r == (if dfail > 0 || spec_wait_exceeds(dwait_ns, dcqe, 3000000) {
                if cur > 1 {
                    (cur - 1) as usize
                } else {
                    cur
                }
            } else if improved && cur < maxt {
                (cur + 1) as usize
            } else {
                cur
            })
        }),
{
    let maxt = if threads == 0 {
        1
    } else {
        threads
    };
    let cur = if active == 0 {
        1
    } else if active > maxt {
        maxt
    } else {
        active
    };
    if dfail > 0 || wait_exceeds(dwait_ns, dcqe, 3000000) {
        if cur > 1 {
            cur - 1
        } else {
            cur
        }
    } else if improved && cur < maxt {
        cur + 1
    } else {
        cur
    }
}


/// The in-flight window of a metadata ring after one pipeline
/// iteration, and the new full-use streak: any submission failure
/// shrinks the window by one, floor one; three consecutive fully-used
/// iterations without failures and with completions grow it by one, up
/// to the ring depth.
pub open spec fn spec_ring_window(
    window: usize,
    sq_depth: usize,
    inflight: usize,
    sqe_fails: u64,
    completions: u64,
    streak: u8,
) -> (usize, u8) {
    if sqe_fails > 0 {
        (if window >= 2 {
            (window - 1) as usize
        } else {
            1usize
        }, 0u8)
    } else if inflight == window && completions > 0 {
        if streak >= 2 {
            (if window < sq_depth {
                (window + 1) as usize
            } else {
                window
            }, 0u8)
        } else {
            (window, (streak + 1) as u8)
        }
    } else {
        (window, 0u8)
    }
}

/// Compute the next window and streak.
pub fn next_ring_window(
    window: usize,
    sq_depth: usize,
    inflight: usize,
    sqe_fails: u64,
    completions: u64,
    streak: u8,
) -> (r: (usize, u8))
    requires
        streak <= 2,
    ensures
        r == spec_ring_window(window, sq_depth, inflight, sqe_fails, completions, streak),
{
    if sqe_fails > 0 {
        (if window >= 2 {
            window - 1
        } else {
            1
        }, 0)
    } else if inflight == window && completions > 0 {
        if streak >= 2 {
            (if window < sq_depth {
                window + 1
            } else {
                window
            }, 0)
        } else {
            (window, streak + 1)
        }
    } else {
        (window, 0)
    }
}

} // verus!

