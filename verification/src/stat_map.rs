//! The per-directory statistics map.
//!
//! A scan produces a mapping from directory path to [`Stat`]. The map is
//! held as a vector of entries with pairwise distinct paths; its
//! mathematical content is the finite `Map` from path view to totals.
//! Accumulation is saturating, so no input can overflow a counter.

use vstd::prelude::*;

use crate::path::DirPath;
use crate::Stat;

verus! {

/// One row of the statistics map.
pub struct StatEntry {
    pub path: DirPath,
    pub stat: Stat,
}

impl View for StatEntry {
    type V = (Seq<Seq<char>>, Stat);

    open spec fn view(&self) -> (Seq<Seq<char>>, Stat) {
        (self.path@, self.stat)
    }
}

/// Pairwise distinct keys in an entry sequence.
pub open spec fn keys_distinct(s: Seq<(Seq<Seq<char>>, Stat)>) -> bool {
    forall|i: int, j: int| 0 <= i < j < s.len() ==> s[i].0 != s[j].0
}

/// The finite map denoted by an entry sequence (later rows win; with
/// distinct keys the order is irrelevant).
pub open spec fn assoc_map(s: Seq<(Seq<Seq<char>>, Stat)>) -> Map<Seq<Seq<char>>, Stat>
    decreases s.len(),
{
    if s.len() == 0 {
        Map::empty()
    } else {
        assoc_map(s.drop_last()).insert(s.last().0, s.last().1)
    }
}

/// The key set of the denoted map is exactly the keys of the rows.
pub proof fn lemma_assoc_map_dom(s: Seq<(Seq<Seq<char>>, Stat)>)
    ensures
        forall|k: Seq<Seq<char>>|
            #[trigger] assoc_map(s).dom().contains(k) <==> exists|i: int|
                0 <= i < s.len() && s[i].0 == k,
    decreases s.len(),
{
    if s.len() > 0 {
        lemma_assoc_map_dom(s.drop_last());
        assert forall|k: Seq<Seq<char>>| #[trigger]
            assoc_map(s).dom().contains(k) implies exists|i: int|
            0 <= i < s.len() && s[i].0 == k by {
            if k == s.last().0 {
                assert(s[s.len() - 1].0 == k);
            } else {
                assert(assoc_map(s.drop_last()).dom().contains(k));
                let i = choose|i: int|
                    0 <= i < s.drop_last().len() && s.drop_last()[i].0 == k;
                assert(s.drop_last()[i] == s[i]);
                assert(s[i].0 == k);
            }
        }
        assert forall|k: Seq<Seq<char>>|
            (exists|i: int| 0 <= i < s.len() && s[i].0 == k) implies #[trigger]
            assoc_map(s).dom().contains(k) by {
            let i = choose|i: int| 0 <= i < s.len() && s[i].0 == k;
            if i < s.len() - 1 {
                assert(s.drop_last()[i].0 == k);
                assert(assoc_map(s.drop_last()).dom().contains(k));
            }
        }
    }
}

/// With distinct keys, the row holding a key gives the map's value there.
pub proof fn lemma_assoc_map_at(s: Seq<(Seq<Seq<char>>, Stat)>, i: int)
    requires
        keys_distinct(s),
        0 <= i < s.len(),
    ensures
        assoc_map(s).dom().contains(s[i].0),
        assoc_map(s)[s[i].0] == s[i].1,
    decreases s.len(),
{
    if i == s.len() - 1 {
        lemma_assoc_map_dom(s);
    } else {
        lemma_assoc_map_at(s.drop_last(), i);
        assert(s.drop_last()[i] == s[i]);
        assert(s[i].0 != s.last().0);
    }
}

/// The saturating sum over the rows whose key has `p` as ancestor-or-self,
/// in row order: what the rollup owes each path.
pub open spec fn sum_under(s: Seq<(Seq<Seq<char>>, Stat)>, p: Seq<Seq<char>>) -> Stat
    decreases s.len(),
{
    if s.len() == 0 {
        Stat { logical: 0, physical: 0, files: 0 }
    } else {
        let rest = sum_under(s.drop_last(), p);
        if crate::path::is_prefix_of(p, s.last().0) {
            rest.spec_sat_add(s.last().1)
        } else {
            rest
        }
    }
}

/// Whether a row sequence holds the key.
pub open spec fn rows_has(s: Seq<(Seq<Seq<char>>, Stat)>, p: Seq<Seq<char>>) -> bool {
    exists|i: int| 0 <= i < s.len() && s[i].0 == p
}

/// The position of the key's row (meaningful only when present).
pub open spec fn rows_idx(s: Seq<(Seq<Seq<char>>, Stat)>, p: Seq<Seq<char>>) -> int {
    choose|i: int| 0 <= i < s.len() && s[i].0 == p
}

/// The key's totals, or zero where absent.
pub open spec fn rows_get_or_zero(s: Seq<(Seq<Seq<char>>, Stat)>, p: Seq<Seq<char>>) -> Stat {
    if rows_has(s, p) {
        s[rows_idx(s, p)].1
    } else {
        Stat { logical: 0, physical: 0, files: 0 }
    }
}

/// The rows after making sure the key has a row, zero where new.
pub open spec fn rows_ensure(s: Seq<(Seq<Seq<char>>, Stat)>, p: Seq<Seq<char>>) -> Seq<
    (Seq<Seq<char>>, Stat),
> {
    if rows_has(s, p) {
        s
    } else {
        s.push((p, Stat { logical: 0, physical: 0, files: 0 }))
    }
}

/// The rows after accumulating `v` onto the key, saturating.
pub open spec fn rows_add(s: Seq<(Seq<Seq<char>>, Stat)>, p: Seq<Seq<char>>, v: Stat) -> Seq<
    (Seq<Seq<char>>, Stat),
> {
    if rows_has(s, p) {
        s.update(rows_idx(s, p), (p, s[rows_idx(s, p)].1.spec_sat_add(v)))
    } else {
        s.push((p, Stat { logical: 0, physical: 0, files: 0 }.spec_sat_add(v)))
    }
}

/// The mapping from directory path to its accumulated totals.
pub struct StatMap {
    pub entries: Vec<StatEntry>,
}

impl View for StatMap {
    type V = Map<Seq<Seq<char>>, Stat>;

    open spec fn view(&self) -> Map<Seq<Seq<char>>, Stat> {
        assoc_map(self.entries_view())
    }
}

impl StatMap {
    /// The row sequence behind the map.
    pub open spec fn entries_view(&self) -> Seq<(Seq<Seq<char>>, Stat)> {
        self.entries@.map_values(|e: StatEntry| e@)
    }

    /// Structural soundness: pairwise distinct keys.
    pub open spec fn wf(&self) -> bool {
        keys_distinct(self.entries_view())
    }

    /// The value at `p`, or the zero total where `p` is absent.
    pub open spec fn get_or_zero(&self, p: Seq<Seq<char>>) -> Stat {
        if self@.dom().contains(p) {
            self@[p]
        } else {
            Stat { logical: 0, physical: 0, files: 0 }
        }
    }

    /// The empty map.
    pub fn new() -> (r: StatMap)
        ensures
            r.wf(),
            r@ == Map::<Seq<Seq<char>>, Stat>::empty(),
            r.entries_view() == Seq::<(Seq<Seq<char>>, Stat)>::empty(),
    {
        StatMap { entries: Vec::new() }
    }

    /// Number of rows, which is the size of the key set.
    pub fn len(&self) -> (r: usize)
        ensures
            r == self.entries_view().len(),
    {
        self.entries.len()
    }

    /// The row index holding `p`, if any.
    fn find(&self, p: &DirPath) -> (r: Option<usize>)
        ensures
            match r {
                Some(i) => i < self.entries_view().len() && self.entries_view()[i as int].0 == p@,
                None => forall|i: int|
                    0 <= i < self.entries_view().len() ==> self.entries_view()[i].0 != p@,
            },
    {
        let mut i: usize = 0;
        while i < self.entries.len()
            invariant
                i <= self.entries.len(),
                forall|j: int| 0 <= j < i ==> self.entries_view()[j].0 != p@,
            decreases self.entries.len() - i,
        {
            if self.entries[i].path.path_eq(p) {
                return Some(i);
            }
            i = i + 1;
        }
        None
    }

    /// Whether `p` has a row.
    pub fn contains(&self, p: &DirPath) -> (r: bool)
        requires
            self.wf(),
        ensures
            r == self@.dom().contains(p@),
    {
        proof {
            lemma_assoc_map_dom(self.entries_view());
        }
        match self.find(p) {
            Some(_) => true,
            None => false,
        }
    }

    /// The totals recorded for `p`.
    pub fn get(&self, p: &DirPath) -> (r: Option<Stat>)
        requires
            self.wf(),
        ensures
            match r {
                Some(s) => self@.dom().contains(p@) && s == self@[p@],
                None => !self@.dom().contains(p@),
            },
    {
        proof {
            lemma_assoc_map_dom(self.entries_view());
        }
        match self.find(p) {
            Some(i) => {
                proof {
                    lemma_assoc_map_at(self.entries_view(), i as int);
                }
                Some(self.entries[i].stat)
            },
            None => None,
        }
    }

    /// The totals recorded for `p`, or the zero total.
    pub fn get_or_default(&self, p: &DirPath) -> (r: Stat)
        requires
            self.wf(),
        ensures
            r == self.get_or_zero(p@),
    {
        match self.get(p) {
            Some(s) => s,
            None => Stat::zero(),
        }
    }

    /// Add a row for `p` with the zero total where none exists.
    pub fn ensure_entry(&mut self, p: &DirPath)
        requires
            old(self).wf(),
        ensures
            final(self).wf(),
            final(self)@ == old(self)@.insert(p@, old(self).get_or_zero(p@)),
            final(self).entries_view() == rows_ensure(old(self).entries_view(), p@),
    {
        proof {
            lemma_assoc_map_dom(self.entries_view());
        }
        match self.find(p) {
            Some(i) => {
                proof {
                    lemma_assoc_map_at(self.entries_view(), i as int);
                    assert(old(self)@.insert(p@, old(self).get_or_zero(p@)) =~= old(self)@);
                    assert(rows_has(self.entries_view(), p@));
                }
            },
            None => {
                self.entries.push(StatEntry { path: p.dup(), stat: Stat::zero() });
                proof {
                    let s0 = old(self).entries_view();
                    assert(self.entries_view() =~= s0.push(
                        (p@, Stat { logical: 0, physical: 0, files: 0 }),
                    ));
                    assert(self.entries_view().drop_last() =~= s0);
                }
            },
        }
    }

    /// Accumulate `s` onto `p`'s totals, creating the row if absent; each
    /// component saturates at `u64::MAX`.
    pub fn add_assign(&mut self, p: &DirPath, s: Stat)
        requires
            old(self).wf(),
        ensures
            final(self).wf(),
            final(self)@ == old(self)@.insert(p@, old(self).get_or_zero(p@).spec_sat_add(s)),
            final(self).entries_view() == rows_add(old(self).entries_view(), p@, s),
    {
        proof {
            lemma_assoc_map_dom(self.entries_view());
        }
        match self.find(p) {
            Some(i) => {
                proof {
                    lemma_assoc_map_at(self.entries_view(), i as int);
                    assert(rows_has(self.entries_view(), p@));
                    let j = rows_idx(self.entries_view(), p@);
                    assert(0 <= j < self.entries_view().len() && self.entries_view()[j].0 == p@);
                    assert(j == i as int);
                }
                let e = &mut self.entries[i];
                e.stat = e.stat.sat_add(s);
                proof {
                    let s0 = old(self).entries_view();
                    let v = s0[i as int].1.spec_sat_add(s);
                    assert(self.entries_view() =~= s0.update(i as int, (p@, v)));
                    lemma_assoc_update(s0, i as int, v);
                    assert(self@ =~= old(self)@.insert(
                        p@,
                        old(self).get_or_zero(p@).spec_sat_add(s),
                    ));
                }
            },
            None => {
                let zero = Stat::zero();
                self.entries.push(StatEntry { path: p.dup(), stat: zero.sat_add(s) });
                proof {
                    let s0 = old(self).entries_view();
                    let v = Stat { logical: 0, physical: 0, files: 0 }.spec_sat_add(s);
                    assert(self.entries_view() =~= s0.push((p@, v)));
                    assert(self.entries_view().drop_last() =~= s0);
                }
            },
        }
    }

    /// Merge another map in additively: every path's totals gain the
    /// other map's totals for it, saturating — the per-worker and
    /// per-root maps combine exactly this way.
    pub fn merge_add(&mut self, other: &StatMap)
        requires
            old(self).wf(),
            other.wf(),
        ensures
            final(self).wf(),
            forall|p: Seq<Seq<char>>| #[trigger]
                final(self)@.dom().contains(p) <==> (old(self)@.dom().contains(p)
                    || other@.dom().contains(p)),
            forall|p: Seq<Seq<char>>| #[trigger]
                final(self).get_or_zero(p) == old(self).get_or_zero(p).spec_sat_add(
                    other.get_or_zero(p),
                ),
    {
        let ghost ov = other.entries_view();
        let n = other.entries.len();
        let mut i: usize = 0;
        while i < n
            invariant
                self.wf(),
                other.wf(),
                ov == other.entries_view(),
                n == ov.len(),
                i <= n,
                forall|p: Seq<Seq<char>>| #[trigger]
                    self@.dom().contains(p) <==> (old(self)@.dom().contains(p) || rows_has(
                        ov.subrange(0, i as int),
                        p,
                    )),
                forall|p: Seq<Seq<char>>| #[trigger]
                    self.get_or_zero(p) == (if rows_has(ov.subrange(0, i as int), p) {
                        old(self).get_or_zero(p).spec_sat_add(
                            rows_get_or_zero(ov.subrange(0, i as int), p),
                        )
                    } else {
                        old(self).get_or_zero(p)
                    }),
            decreases n - i,
        {
            let ghost pre = *self;
            let ghost prefi = ov.subrange(0, i as int);
            let ghost prefi1 = ov.subrange(0, i + 1 as int);
            let k = &other.entries[i].path;
            let s = other.entries[i].stat;
            proof {
                assert(ov[i as int] == (k@, s));
            }
            self.add_assign(k, s);
            proof {
                assert forall|p: Seq<Seq<char>>| #[trigger]
                    self@.dom().contains(p) <==> (old(self)@.dom().contains(p) || rows_has(
                        prefi1,
                        p,
                    )) by {
                    if p == k@ {
                        assert(prefi1[i as int].0 == p);
                        assert(rows_has(prefi1, p));
                    } else {
                        assert(self@.dom().contains(p) == pre@.dom().contains(p));
                        assert(rows_has(prefi1, p) == rows_has(prefi, p)) by {
                            if rows_has(prefi1, p) {
                                let j = choose|j: int| 0 <= j < prefi1.len() && prefi1[j].0 == p;
                                assert(j < i as int);
                                assert(prefi[j] == prefi1[j]);
                            }
                            if rows_has(prefi, p) {
                                let j = choose|j: int| 0 <= j < prefi.len() && prefi[j].0 == p;
                                assert(prefi1[j] == prefi[j]);
                            }
                        }
                    }
                }
                assert forall|p: Seq<Seq<char>>| #[trigger]
                    self.get_or_zero(p) == (if rows_has(prefi1, p) {
                        old(self).get_or_zero(p).spec_sat_add(rows_get_or_zero(prefi1, p))
                    } else {
                        old(self).get_or_zero(p)
                    }) by {
                    if p == k@ {
                        assert(!rows_has(prefi, p)) by {
                            if rows_has(prefi, p) {
                                let j = choose|j: int| 0 <= j < prefi.len() && prefi[j].0 == p;
                                assert(ov[j] == prefi[j]);
                            }
                        }
                        assert(prefi1[i as int] == (p, s));
                        lemma_rows_get_at(prefi1, i as int);
                        assert(self.get_or_zero(p) == pre.get_or_zero(p).spec_sat_add(s));
                    } else {
                        assert(self.get_or_zero(p) == pre.get_or_zero(p));
                        if rows_has(prefi1, p) {
                            let j = choose|j: int| 0 <= j < prefi1.len() && prefi1[j].0 == p;
                            assert(j < i as int);
                            assert(prefi[j] == prefi1[j]);
                            lemma_rows_get_at(prefi, j);
                            lemma_rows_get_at(prefi1, j);
                        } else {
                            assert(!rows_has(prefi, p)) by {
                                if rows_has(prefi, p) {
                                    let j = choose|j: int|
                                        0 <= j < prefi.len() && prefi[j].0 == p;
                                    assert(prefi1[j] == prefi[j]);
                                }
                            }
                        }
                    }
                }
            }
            i = i + 1;
        }
        proof {
            assert(ov.subrange(0, n as int) =~= ov);
            lemma_assoc_map_dom(ov);
            assert forall|p: Seq<Seq<char>>| #[trigger]
                self.get_or_zero(p) == old(self).get_or_zero(p).spec_sat_add(
                other.get_or_zero(p),
            ) by {
                if rows_has(ov, p) {
                    let j = rows_idx(ov, p);
                    lemma_rows_get_at(ov, j);
                    lemma_assoc_map_at(ov, j);
                } else {
                    assert(!other@.dom().contains(p));
                    assert(other.get_or_zero(p) == (Stat { logical: 0, physical: 0, files: 0 }));
                }
            }
            assert forall|p: Seq<Seq<char>>| #[trigger]
                self@.dom().contains(p) <==> (old(self)@.dom().contains(p)
                    || other@.dom().contains(p)) by {
                if rows_has(ov, p) {
                    let j = rows_idx(ov, p);
                    lemma_assoc_map_at(ov, j);
                }
                if other@.dom().contains(p) {
                    assert(rows_has(ov, p));
                }
            }
        }
    }
}

/// Updating a row's value updates the denoted map at that key only.
proof fn lemma_assoc_update(s: Seq<(Seq<Seq<char>>, Stat)>, i: int, v: Stat)
    requires
        keys_distinct(s),
        0 <= i < s.len(),
    ensures
        keys_distinct(s.update(i, (s[i].0, v))),
        assoc_map(s.update(i, (s[i].0, v))) == assoc_map(s).insert(s[i].0, v),
    decreases s.len(),
{
    let t = s.update(i, (s[i].0, v));
    assert(keys_distinct(t));
    if i == s.len() - 1 {
        assert(t.drop_last() =~= s.drop_last());
        assert(assoc_map(t) =~= assoc_map(s).insert(s[i].0, v));
    } else {
        assert(t.drop_last() =~= s.drop_last().update(i, (s[i].0, v)));
        assert(s.drop_last()[i] == s[i]);
        lemma_assoc_update(s.drop_last(), i, v);
        assert(t.last() == s.last());
        assert(s[i].0 != s.last().0);
        assert(assoc_map(t) =~= assoc_map(s).insert(s[i].0, v));
    }
}


/// With distinct keys, the row holding a key determines the lookup.
pub proof fn lemma_rows_get_at(s: Seq<(Seq<Seq<char>>, Stat)>, i: int)
    requires
        keys_distinct(s),
        0 <= i < s.len(),
    ensures
        rows_has(s, s[i].0),
        rows_idx(s, s[i].0) == i,
        rows_get_or_zero(s, s[i].0) == s[i].1,
{
    assert(rows_has(s, s[i].0));
    let j = rows_idx(s, s[i].0);
    assert(0 <= j < s.len() && s[j].0 == s[i].0);
}

/// Accumulating keeps keys pairwise distinct.
pub proof fn lemma_rows_add_distinct(s: Seq<(Seq<Seq<char>>, Stat)>, k: Seq<Seq<char>>, v: Stat)
    requires
        keys_distinct(s),
    ensures
        keys_distinct(rows_add(s, k, v)),
        keys_distinct(rows_ensure(s, k)),
        forall|k2: Seq<Seq<char>>| #[trigger]
            rows_has(rows_add(s, k, v), k2) <==> (rows_has(s, k2) || k2 == k),
{
    let t = rows_add(s, k, v);
    if rows_has(s, k) {
        let i = rows_idx(s, k);
        assert(0 <= i < s.len() && s[i].0 == k);
        assert forall|k2: Seq<Seq<char>>| #[trigger]
            rows_has(t, k2) implies rows_has(s, k2) || k2 == k by {
            let j = choose|j: int| 0 <= j < t.len() && t[j].0 == k2;
            if j != i {
                assert(s[j].0 == k2);
            }
        }
        assert forall|k2: Seq<Seq<char>>|
            rows_has(s, k2) || k2 == k implies #[trigger] rows_has(t, k2) by {
            if k2 == k {
                assert(t[i].0 == k2);
            } else {
                let j = choose|j: int| 0 <= j < s.len() && s[j].0 == k2;
                assert(j != i);
                assert(t[j].0 == k2);
            }
        }
    } else {
        assert forall|k2: Seq<Seq<char>>| #[trigger]
            rows_has(t, k2) implies rows_has(s, k2) || k2 == k by {
            let j = choose|j: int| 0 <= j < t.len() && t[j].0 == k2;
            if j < s.len() {
                assert(s[j].0 == k2);
            }
        }
        assert forall|k2: Seq<Seq<char>>|
            rows_has(s, k2) || k2 == k implies #[trigger] rows_has(t, k2) by {
            if k2 == k {
                assert(t[s.len() as int].0 == k2);
            } else {
                let j = choose|j: int| 0 <= j < s.len() && s[j].0 == k2;
                assert(t[j].0 == k2);
            }
        }
        assert(keys_distinct(t)) by {
            assert forall|a: int, b: int| 0 <= a < b < t.len() implies t[a].0 != t[b].0 by {
                if b == t.len() - 1 {
                    assert(t[a].0 == s[a].0);
                    assert(!rows_has(s, k));
                    if s[a].0 == k {
                        assert(rows_has(s, k));
                    }
                }
            }
        }
    }
}

/// What accumulating does to every lookup: the key's totals grow by `v`,
/// saturating; every other key keeps its totals.
pub proof fn lemma_rows_add_get(
    s: Seq<(Seq<Seq<char>>, Stat)>,
    k: Seq<Seq<char>>,
    v: Stat,
    k2: Seq<Seq<char>>,
)
    requires
        keys_distinct(s),
    ensures
        k2 == k ==> rows_get_or_zero(rows_add(s, k, v), k2) == rows_get_or_zero(
            s,
            k,
        ).spec_sat_add(v),
        k2 != k ==> rows_get_or_zero(rows_add(s, k, v), k2) == rows_get_or_zero(s, k2),
{
    let t = rows_add(s, k, v);
    lemma_rows_add_distinct(s, k, v);
    if rows_has(s, k) {
        let i = rows_idx(s, k);
        assert(0 <= i < s.len() && s[i].0 == k);
        lemma_rows_get_at(s, i);
        if k2 == k {
            lemma_rows_get_at(t, i);
        } else {
            if rows_has(s, k2) {
                let j = rows_idx(s, k2);
                assert(0 <= j < s.len() && s[j].0 == k2);
                assert(j != i);
                assert(t[j] == s[j]);
                lemma_rows_get_at(s, j);
                lemma_rows_get_at(t, j);
            } else {
                assert(!rows_has(t, k2));
            }
        }
    } else {
        if k2 == k {
            lemma_rows_get_at(t, s.len() as int);
        } else {
            if rows_has(s, k2) {
                let j = rows_idx(s, k2);
                assert(0 <= j < s.len() && s[j].0 == k2);
                assert(t[j] == s[j]);
                lemma_rows_get_at(s, j);
                lemma_rows_get_at(t, j);
            } else {
                assert(!rows_has(t, k2));
            }
        }
    }
}


/// The total file count over all rows, as an unbounded integer.
pub open spec fn rows_total_files(s: Seq<(Seq<Seq<char>>, Stat)>) -> int
    decreases s.len(),
{
    if s.len() == 0 {
        0
    } else {
        rows_total_files(s.drop_last()) + s.last().1.files
    }
}

/// Every row's file count is within the total.
pub proof fn lemma_rows_total_bound(s: Seq<(Seq<Seq<char>>, Stat)>, i: int)
    requires
        0 <= i < s.len(),
    ensures
        rows_total_files(s) >= s[i].1.files,
        rows_total_files(s) >= 0,
    decreases s.len(),
{
    lemma_rows_total_nonneg(s.drop_last());
    if i < s.len() - 1 {
        lemma_rows_total_bound(s.drop_last(), i);
        assert(s.drop_last()[i] == s[i]);
    }
}

/// Totals are never negative.
pub proof fn lemma_rows_total_nonneg(s: Seq<(Seq<Seq<char>>, Stat)>)
    ensures
        rows_total_files(s) >= 0,
    decreases s.len(),
{
    if s.len() > 0 {
        lemma_rows_total_nonneg(s.drop_last());
    }
}

/// Replacing one row shifts the total by the difference of file counts.
proof fn lemma_rows_total_update(s: Seq<(Seq<Seq<char>>, Stat)>, i: int, x: (Seq<Seq<char>>, Stat))
    requires
        0 <= i < s.len(),
    ensures
        rows_total_files(s.update(i, x)) == rows_total_files(s) - s[i].1.files + x.1.files,
    decreases s.len(),
{
    let t = s.update(i, x);
    if i == s.len() - 1 {
        assert(t.drop_last() =~= s.drop_last());
        assert(t.last() == x);
    } else {
        assert(t.drop_last() =~= s.drop_last().update(i, x));
        assert(t.last() == s.last());
        assert(s.drop_last()[i] == s[i]);
        lemma_rows_total_update(s.drop_last(), i, x);
    }
}

/// Accumulating raises the total by exactly the added file count, as
/// long as the touched row's counter does not saturate.
pub proof fn lemma_rows_add_total(s: Seq<(Seq<Seq<char>>, Stat)>, k: Seq<Seq<char>>, v: Stat)
    requires
        keys_distinct(s),
        rows_get_or_zero(s, k).files + v.files <= u64::MAX,
    ensures
        rows_total_files(rows_add(s, k, v)) == rows_total_files(s) + v.files,
        rows_total_files(rows_ensure(s, k)) == rows_total_files(s),
{
    if rows_has(s, k) {
        let i = rows_idx(s, k);
        assert(0 <= i < s.len() && s[i].0 == k);
        lemma_rows_get_at(s, i);
        lemma_rows_total_update(s, i, (k, s[i].1.spec_sat_add(v)));
    } else {
        assert(rows_add(s, k, v).drop_last() =~= s);
        assert(rows_ensure(s, k).drop_last() =~= s);
    }
}


/// The exact integer sums of each component over the rows at or below
/// `p`: the unsaturated reading of [`sum_under`].
pub open spec fn exact_under(s: Seq<(Seq<Seq<char>>, Stat)>, p: Seq<Seq<char>>) -> (int, int, int)
    decreases s.len(),
{
    if s.len() == 0 {
        (0int, 0int, 0int)
    } else {
        let rest = exact_under(s.drop_last(), p);
        if crate::path::is_prefix_of(p, s.last().0) {
            (rest.0 + s.last().1.logical, rest.1 + s.last().1.physical, rest.2 + s.last().1.files)
        } else {
            rest
        }
    }
}

/// Exact sums never go negative.
proof fn lemma_exact_under_nonneg(s: Seq<(Seq<Seq<char>>, Stat)>, p: Seq<Seq<char>>)
    ensures
        exact_under(s, p).0 >= 0 && exact_under(s, p).1 >= 0 && exact_under(s, p).2 >= 0,
    decreases s.len(),
{
    if s.len() > 0 {
        lemma_exact_under_nonneg(s.drop_last(), p);
    }
}

/// Where no component's exact sum exceeds `u64::MAX`, the saturating
/// rollup sum is that exact sum: rollup is genuinely additive short of
/// the counters' cap.
pub proof fn lemma_sum_under_exact(s: Seq<(Seq<Seq<char>>, Stat)>, p: Seq<Seq<char>>)
    requires
        exact_under(s, p).0 <= u64::MAX,
        exact_under(s, p).1 <= u64::MAX,
        exact_under(s, p).2 <= u64::MAX,
    ensures
        sum_under(s, p).logical == exact_under(s, p).0,
        sum_under(s, p).physical == exact_under(s, p).1,
        sum_under(s, p).files == exact_under(s, p).2,
    decreases s.len(),
{
    if s.len() > 0 {
        lemma_exact_under_nonneg(s.drop_last(), p);
        lemma_sum_under_exact(s.drop_last(), p);
    }
}


/// Where the exact file sum stays within `u64::MAX`, the saturating
/// rollup sum's file component is exact.
pub proof fn lemma_sum_under_exact_files(s: Seq<(Seq<Seq<char>>, Stat)>, p: Seq<Seq<char>>)
    requires
        exact_under(s, p).2 <= u64::MAX,
    ensures
        sum_under(s, p).files == exact_under(s, p).2,
    decreases s.len(),
{
    if s.len() > 0 {
        lemma_exact_under_nonneg(s.drop_last(), p);
        lemma_sum_under_exact_files(s.drop_last(), p);
    }
}

/// Every row key extends `base`.
pub open spec fn rows_rooted(s: Seq<(Seq<Seq<char>>, Stat)>, base: Seq<Seq<char>>) -> bool {
    forall|i: int| 0 <= i < s.len() ==> crate::path::is_prefix_of(base, (#[trigger] s[i]).0)
}

/// Where every row extends `base`, the exact file sum under `base` is
/// the total file count.
pub proof fn lemma_rooted_exact_is_total(s: Seq<(Seq<Seq<char>>, Stat)>, base: Seq<Seq<char>>)
    requires
        rows_rooted(s, base),
    ensures
        exact_under(s, base).2 == rows_total_files(s),
    decreases s.len(),
{
    if s.len() > 0 {
        assert(rows_rooted(s.drop_last(), base)) by {
            assert(forall|i: int|
                0 <= i < s.drop_last().len() ==> (#[trigger] s.drop_last()[i]) == s[i]);
        }
        lemma_rooted_exact_is_total(s.drop_last(), base);
        assert(crate::path::is_prefix_of(base, s[s.len() - 1].0));
    }
}

} // verus!




