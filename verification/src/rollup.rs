//! Rollup: propagate each directory's totals to all of its ancestors.
//!
//! After a scan every row holds only the direct contents of its
//! directory. The rollup produces a map whose key set is the
//! ancestor-closure of the row keys and whose value at a path is the
//! saturating sum of every row lying at or below it.

use vstd::prelude::*;

use crate::path::{is_prefix_of, DirPath};
use crate::stat_map::{sum_under, StatMap};
use crate::Stat;

verus! {

/// Number of components of a path.
pub fn depth_of(p: &DirPath) -> (r: usize)
    ensures
        r == p@.len(),
{
    p.depth()
}

/// Whether some row key lies at or below `p`.
pub open spec fn closure_has(s: Seq<(Seq<Seq<char>>, Stat)>, p: Seq<Seq<char>>) -> bool {
    exists|i: int| 0 <= i < s.len() && is_prefix_of(p, #[trigger] s[i].0)
}

/// A path with no row at or below it gathers nothing.
proof fn lemma_sum_under_zero(s: Seq<(Seq<Seq<char>>, Stat)>, p: Seq<Seq<char>>)
    requires
        !closure_has(s, p),
    ensures
        sum_under(s, p) == (Stat { logical: 0, physical: 0, files: 0 }),
    decreases s.len(),
{
    if s.len() > 0 {
        assert(!closure_has(s.drop_last(), p)) by {
            if closure_has(s.drop_last(), p) {
                let i = choose|i: int|
                    0 <= i < s.drop_last().len() && is_prefix_of(p, #[trigger] s.drop_last()[i].0);
                assert(s.drop_last()[i] == s[i]);
                assert(is_prefix_of(p, s[i].0));
            }
        }
        lemma_sum_under_zero(s.drop_last(), p);
        assert(!is_prefix_of(p, s[s.len() - 1].0));
    }
}

/// One more row extends the sums at exactly its own ancestors.
proof fn lemma_sum_under_step(s: Seq<(Seq<Seq<char>>, Stat)>, i: int, p: Seq<Seq<char>>)
    requires
        0 <= i < s.len(),
    ensures
        sum_under(s.subrange(0, i + 1), p) == (if is_prefix_of(p, s[i].0) {
            sum_under(s.subrange(0, i), p).spec_sat_add(s[i].1)
        } else {
            sum_under(s.subrange(0, i), p)
        }),
{
    let t = s.subrange(0, i + 1);
    assert(t.drop_last() =~= s.subrange(0, i));
    assert(t.last() == s[i]);
}

/// Add row `i`'s totals onto the ancestor of its key with `j`
/// components, keeping the partial-rollup picture one prefix further.
fn rollup_add_prefix(
    out: &mut StatMap,
    q: &DirPath,
    s: Stat,
    j: usize,
    Ghost(rows): Ghost<Seq<(Seq<Seq<char>>, Stat)>>,
    Ghost(i): Ghost<int>,
)
    requires
        old(out).wf(),
        0 <= i < rows.len(),
        rows[i] == (q@, s),
        j <= q@.len(),
        forall|p: Seq<Seq<char>>| #[trigger]
            old(out)@.dom().contains(p) <==> (closure_has(rows.subrange(0, i), p) || (
            is_prefix_of(p, q@) && p.len() < j)),
        forall|p: Seq<Seq<char>>| #[trigger]
            old(out)@.dom().contains(p) ==> old(out)@[p] == (if is_prefix_of(p, q@) && p.len()
                < j {
                sum_under(rows.subrange(0, i + 1), p)
            } else {
                sum_under(rows.subrange(0, i), p)
            }),
    ensures
        final(out).wf(),
        forall|p: Seq<Seq<char>>| #[trigger]
            final(out)@.dom().contains(p) <==> (closure_has(rows.subrange(0, i), p) || (
            is_prefix_of(p, q@) && p.len() < j + 1)),
        forall|p: Seq<Seq<char>>| #[trigger]
            final(out)@.dom().contains(p) ==> final(out)@[p] == (if is_prefix_of(p, q@)
                && p.len() < j + 1 {
                sum_under(rows.subrange(0, i + 1), p)
            } else {
                sum_under(rows.subrange(0, i), p)
            }),
{
    let pre = q.prefix(j);
    let ghost out0 = *out;
    proof {
        assert(is_prefix_of(pre@, q@));
        assert(pre@.len() == j);
        lemma_sum_under_step(rows, i, pre@);
        if !out0@.dom().contains(pre@) {
            assert(!closure_has(rows.subrange(0, i), pre@));
            lemma_sum_under_zero(rows.subrange(0, i), pre@);
        }
    }
    out.add_assign(&pre, s);
    proof {
        assert forall|p: Seq<Seq<char>>| #[trigger]
            out@.dom().contains(p) <==> (closure_has(rows.subrange(0, i), p) || (is_prefix_of(
            p,
            q@,
        ) && p.len() < j + 1)) by {
            if p == pre@ {
            } else {
                assert(out@.dom().contains(p) == out0@.dom().contains(p));
                if is_prefix_of(p, q@) && p.len() < j + 1 && p.len() == j {
                    assert(p =~= pre@);
                }
            }
        }
        assert forall|p: Seq<Seq<char>>| #[trigger]
            out@.dom().contains(p) implies out@[p] == (if is_prefix_of(p, q@) && p.len() < j
            + 1 {
            sum_under(rows.subrange(0, i + 1), p)
        } else {
            sum_under(rows.subrange(0, i), p)
        }) by {
            if p == pre@ {
                assert(out@[p] == out0.get_or_zero(p).spec_sat_add(s));
            } else {
                assert(out@[p] == out0@[p]);
                if is_prefix_of(p, q@) && p.len() == j {
                    assert(p =~= pre@);
                }
            }
        }
    }
}

/// Roll each row's totals up to all of its ancestors. The result maps
/// every ancestor-or-self of a row key, and nothing else, to the
/// saturating sum of the rows at or below it.
pub fn rollup_child_to_parent(merged: StatMap) -> (r: StatMap)
    requires
        merged.wf(),
    ensures
        r.wf(),
        forall|p: Seq<Seq<char>>| #[trigger]
            r@.dom().contains(p) <==> closure_has(merged.entries_view(), p),
        forall|p: Seq<Seq<char>>| #[trigger]
            r@.dom().contains(p) ==> r@[p] == sum_under(merged.entries_view(), p),
{
    let ghost rows = merged.entries_view();
    let mut out = StatMap::new();
    let n = merged.len();
    let mut i: usize = 0;
    while i < n
        invariant
            merged.wf(),
            rows == merged.entries_view(),
            n == rows.len(),
            i <= n,
            out.wf(),
            forall|p: Seq<Seq<char>>| #[trigger]
                out@.dom().contains(p) <==> closure_has(rows.subrange(0, i as int), p),
            forall|p: Seq<Seq<char>>| #[trigger]
                out@.dom().contains(p) ==> out@[p] == sum_under(rows.subrange(0, i as int), p),
        decreases n - i,
    {
        let q = &merged.entries[i].path;
        let s = merged.entries[i].stat;
        proof {
            assert(rows[i as int] == (q@, s));
        }
        let qlen = q.depth();
        let mut j: usize = 0;
        while j < qlen
            invariant
                merged.wf(),
                rows == merged.entries_view(),
                n == rows.len(),
                i < n,
                rows[i as int] == (q@, s),
                qlen == q@.len(),
                j <= qlen,
                out.wf(),
                forall|p: Seq<Seq<char>>| #[trigger]
                    out@.dom().contains(p) <==> (closure_has(rows.subrange(0, i as int), p) || (
                    is_prefix_of(p, q@) && p.len() < j)),
                forall|p: Seq<Seq<char>>| #[trigger]
                    out@.dom().contains(p) ==> out@[p] == (if is_prefix_of(p, q@) && p.len() < j {
                        sum_under(rows.subrange(0, i + 1 as int), p)
                    } else {
                        sum_under(rows.subrange(0, i as int), p)
                    }),
            decreases qlen - j,
        {
            rollup_add_prefix(&mut out, q, s, j, Ghost(rows), Ghost(i as int));
            j = j + 1;
        }
        rollup_add_prefix(&mut out, q, s, qlen, Ghost(rows), Ghost(i as int));
        proof {
            assert forall|p: Seq<Seq<char>>| #[trigger]
                out@.dom().contains(p) <==> closure_has(rows.subrange(0, i + 1 as int), p) by {
                if closure_has(rows.subrange(0, i + 1 as int), p) && !closure_has(
                    rows.subrange(0, i as int),
                    p,
                ) {
                    let k = choose|k: int|
                        0 <= k < rows.subrange(0, i + 1 as int).len() && is_prefix_of(
                            p,
                            #[trigger] rows.subrange(0, i + 1 as int)[k].0,
                        );
                    if k < i as int {
                        assert(rows.subrange(0, i as int)[k] == rows.subrange(0, i + 1 as int)[k]);
                        assert(closure_has(rows.subrange(0, i as int), p));
                    } else {
                        assert(is_prefix_of(p, q@));
                        assert(p.len() <= q@.len());
                    }
                }
                if closure_has(rows.subrange(0, i as int), p) {
                    let k = choose|k: int|
                        0 <= k < rows.subrange(0, i as int).len() && is_prefix_of(
                            p,
                            #[trigger] rows.subrange(0, i as int)[k].0,
                        );
                    assert(rows.subrange(0, i + 1 as int)[k] == rows.subrange(0, i as int)[k]);
                    assert(closure_has(rows.subrange(0, i + 1 as int), p));
                }
                if is_prefix_of(p, q@) && p.len() < qlen + 1 {
                    assert(rows.subrange(0, i + 1 as int)[i as int].0 == q@);
                    assert(closure_has(rows.subrange(0, i + 1 as int), p));
                }
            }
            assert forall|p: Seq<Seq<char>>| #[trigger]
                out@.dom().contains(p) implies out@[p] == sum_under(
                rows.subrange(0, i + 1 as int),
                p,
            ) by {
                lemma_sum_under_step(rows, i as int, p);
                if !(is_prefix_of(p, q@) && p.len() < qlen + 1) {
                    assert(!is_prefix_of(p, q@) || p.len() > q@.len());
                }
            }
        }
        i = i + 1;
    }
    proof {
        assert(rows.subrange(0, n as int) =~= rows);
    }
    out
}

} // verus!
