//! Directory paths as sequences of name components.
//!
//! The scan keys its statistics map by absolute directory path. A path is
//! held as its components so that the parent relation, depth and the
//! ancestor order are plain operations on the component sequence; the
//! separator-joined string form is derived only where a filter layer asks
//! for the whole path.

use vstd::prelude::*;

verus! {

/// A directory path, one `String` per component, top-most first.
#[derive(Debug)]
pub struct DirPath {
    pub parts: Vec<String>,
}

impl View for DirPath {
    type V = Seq<Seq<char>>;

    open spec fn view(&self) -> Seq<Seq<char>> {
        self.parts@.map_values(|s: String| s@)
    }
}

/// `a` is `b` itself or an ancestor of `b`: a prefix of its components.
pub open spec fn is_prefix_of(a: Seq<Seq<char>>, b: Seq<Seq<char>>) -> bool {
    a.len() <= b.len() && a == b.subrange(0, a.len() as int)
}

/// The separator-joined string form of a path's components.
pub open spec fn join_path(parts: Seq<Seq<char>>) -> Seq<char>
    decreases parts.len(),
{
    if parts.len() == 0 {
        Seq::empty()
    } else if parts.len() == 1 {
        parts[0]
    } else {
        join_path(parts.drop_last()) + seq!['/'] + parts.last()
    }
}

impl DirPath {
    /// The empty path, ancestor of every path.
    pub fn empty() -> (r: DirPath)
        ensures
            r@ == Seq::<Seq<char>>::empty(),
    {
        DirPath { parts: Vec::new() }
    }

    /// Number of components.
    pub fn depth(&self) -> (r: usize)
        ensures
            r == self@.len(),
    {
        self.parts.len()
    }

    /// A value equal to this path.
    pub fn dup(&self) -> (r: DirPath)
        ensures
            r@ == self@,
    {
        let mut parts: Vec<String> = Vec::new();
        let mut i: usize = 0;
        while i < self.parts.len()
            invariant
                i <= self.parts.len(),
                parts@ == self.parts@.subrange(0, i as int),
            decreases self.parts.len() - i,
        {
            parts.push(self.parts[i].clone());
            proof {
                assert(parts@ =~= self.parts@.subrange(0, i + 1 as int));
            }
            i = i + 1;
        }
        proof {
            assert(self.parts@.subrange(0, self.parts@.len() as int) =~= self.parts@);
        }
        DirPath { parts }
    }

    /// The path extended by one more component.
    pub fn child(&self, name: &String) -> (r: DirPath)
        ensures
            r@ == self@.push(name@),
    {
        let mut r = self.dup();
        r.parts.push(name.clone());
        proof {
            assert(r@ =~= self@.push(name@));
        }
        r
    }

    /// The ancestor made of the first `len` components.
    pub fn prefix(&self, len: usize) -> (r: DirPath)
        requires
            len <= self@.len(),
        ensures
            r@ == self@.subrange(0, len as int),
            is_prefix_of(r@, self@),
    {
        let mut parts: Vec<String> = Vec::new();
        let mut i: usize = 0;
        while i < len
            invariant
                len <= self.parts@.len(),
                i <= len,
                parts@ == self.parts@.subrange(0, i as int),
            decreases len - i,
        {
            parts.push(self.parts[i].clone());
            proof {
                assert(parts@ =~= self.parts@.subrange(0, i + 1 as int));
            }
            i = i + 1;
        }
        let r = DirPath { parts };
        proof {
            assert(r@ =~= self@.subrange(0, len as int));
        }
        r
    }

    /// The path with its last component removed; `None` for the empty path.
    pub fn parent(&self) -> (r: Option<DirPath>)
        ensures
            match r {
                Some(p) => self@.len() > 0 && p@ == self@.drop_last(),
                None => self@.len() == 0,
            },
    {
        if self.parts.len() == 0 {
            None
        } else {
            let mut p = self.dup();
            p.parts.pop();
            proof {
                assert(p@ =~= self@.drop_last());
            }
            Some(p)
        }
    }

    /// Component-wise equality.
    pub fn path_eq(&self, other: &DirPath) -> (r: bool)
        ensures
            r == (self@ == other@),
    {
        if self.parts.len() != other.parts.len() {
            proof {
                assert(self@.len() != other@.len());
            }
            return false;
        }
        let mut i: usize = 0;
        while i < self.parts.len()
            invariant
                i <= self.parts.len(),
                self.parts.len() == other.parts.len(),
                forall|j: int| 0 <= j < i ==> self@[j] == other@[j],
            decreases self.parts.len() - i,
        {
            if !self.parts[i].eq(&other.parts[i]) {
                proof {
                    assert(self@[i as int] == self.parts@[i as int]@);
                    assert(other@[i as int] == other.parts@[i as int]@);
                }
                return false;
            }
            i = i + 1;
        }
        proof {
            assert(self@ =~= other@);
        }
        true
    }

    /// The separator-joined string form.
    pub fn to_path_string(&self) -> (r: String)
        ensures
            r@ == join_path(self@),
    {
        let mut acc = String::new();
        let mut i: usize = 0;
        while i < self.parts.len()
            invariant
                i <= self.parts.len(),
                acc@ == join_path(self@.subrange(0, i as int)),
            decreases self.parts.len() - i,
        {
            if i > 0 {
                acc.append("/");
                proof {
                    reveal_strlit("/");
                    assert("/"@ =~= seq!['/']);
                }
            }
            acc.append(self.parts[i].as_str());
            proof {
                let pre = self@.subrange(0, i as int);
                let cur = self@.subrange(0, i + 1 as int);
                assert(cur.drop_last() =~= pre);
                assert(cur.last() == self@[i as int]);
                assert(acc@ =~= join_path(cur));
            }
            i = i + 1;
        }
        proof {
            assert(self@.subrange(0, self@.len() as int) =~= self@);
        }
        acc
    }
}

} // verus!
