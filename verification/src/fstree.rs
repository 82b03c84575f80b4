//! The directory-tree picture a scan consumes.
//!
//! Enumeration backends stream raw listings; here a listing is data: each
//! known directory carries its device id and its entries, and an entry is
//! a name with a kind, sizes and identity. The scan is specified and
//! proved over exactly this picture; the embedding fills it from the
//! platform's syscalls.

use vstd::prelude::*;

use crate::path::DirPath;

verus! {

/// What one directory entry is.
pub enum EntryKind {
    Dir,
    File,
    /// A symbolic link to the directory at the carried path.
    SymlinkDir(DirPath),
    SymlinkFile,
}

/// Specification view of an entry kind.
pub ghost enum KindV {
    Dir,
    File,
    SymlinkDir(Seq<Seq<char>>),
    SymlinkFile,
}

impl View for EntryKind {
    type V = KindV;

    open spec fn view(&self) -> KindV {
        match self {
            EntryKind::Dir => KindV::Dir,
            EntryKind::File => KindV::File,
            EntryKind::SymlinkDir(t) => KindV::SymlinkDir(t@),
            EntryKind::SymlinkFile => KindV::SymlinkFile,
        }
    }
}

/// One directory entry: name, kind, logical size in bytes, allocated
/// 512-byte blocks, and the `(device, inode)` identity.
pub struct FsEntry {
    pub name: String,
    pub kind: EntryKind,
    pub size: u64,
    pub blocks: u64,
    pub dev: u64,
    pub ino: u64,
}

/// Specification view of an entry.
pub ghost struct EntryV {
    pub name: Seq<char>,
    pub kind: KindV,
    pub size: u64,
    pub blocks: u64,
    pub dev: u64,
    pub ino: u64,
}

impl View for FsEntry {
    type V = EntryV;

    open spec fn view(&self) -> EntryV {
        EntryV {
            name: self.name@,
            kind: self.kind@,
            size: self.size,
            blocks: self.blocks,
            dev: self.dev,
            ino: self.ino,
        }
    }
}

/// One known directory: its absolute path, its device id, its listing.
pub struct FsDir {
    pub path: DirPath,
    pub dev: u64,
    pub entries: Vec<FsEntry>,
}

/// Specification view of a directory.
pub ghost struct DirV {
    pub path: Seq<Seq<char>>,
    pub dev: u64,
    pub entries: Seq<EntryV>,
}

impl View for FsDir {
    type V = DirV;

    open spec fn view(&self) -> DirV {
        DirV {
            path: self.path@,
            dev: self.dev,
            entries: self.entries@.map_values(|e: FsEntry| e@),
        }
    }
}

/// The listing of the directory at `p`, if known.
pub open spec fn lookup_dir(t: Seq<DirV>, p: Seq<Seq<char>>) -> Option<DirV>
    decreases t.len(),
{
    if t.len() == 0 {
        None
    } else if t[0].path == p {
        Some(t[0])
    } else {
        lookup_dir(t.subrange(1, t.len() as int), p)
    }
}

/// Directory paths are pairwise distinct.
pub open spec fn tree_wf(t: Seq<DirV>) -> bool {
    forall|i: int, j: int| 0 <= i < j < t.len() ==> t[i].path != t[j].path
}

/// Lookup finds exactly the directory that carries the path.
pub proof fn lemma_lookup(t: Seq<DirV>, p: Seq<Seq<char>>)
    requires
        tree_wf(t),
    ensures
        (lookup_dir(t, p) is Some) <==> exists|i: int| 0 <= i < t.len() && t[i].path == p,
        forall|i: int|
            0 <= i < t.len() && (#[trigger] t[i]).path == p ==> lookup_dir(t, p) == Some(t[i]),
    decreases t.len(),
{
    if t.len() > 0 {
        let rest = t.subrange(1, t.len() as int);
        assert(tree_wf(rest)) by {
            assert(forall|i: int, j: int|
                0 <= i < j < rest.len() ==> rest[i] == t[i + 1] && rest[j] == t[j + 1]);
        }
        lemma_lookup(rest, p);
        if t[0].path == p {
            assert(t[0].path == p);
        } else {
            assert forall|i: int|
                0 <= i < t.len() && (#[trigger] t[i]).path == p implies lookup_dir(t, p) == Some(
                t[i],
            ) by {
                assert(i > 0);
                assert(rest[i - 1] == t[i]);
            }
            if lookup_dir(t, p) is Some {
                let i = choose|i: int| 0 <= i < rest.len() && rest[i].path == p;
                assert(t[i + 1].path == p);
            }
            if exists|i: int| 0 <= i < t.len() && t[i].path == p {
                let i = choose|i: int| 0 <= i < t.len() && t[i].path == p;
                assert(rest[i - 1].path == p);
            }
        }
    }
}

/// A directory tree under scan: the known directories, paths pairwise
/// distinct. [`FsTree::add_dir`] keeps the distinctness, so any tree
/// assembled through it is well-formed.
pub struct FsTree {
    pub dirs: Vec<FsDir>,
}

impl View for FsTree {
    type V = Seq<DirV>;

    open spec fn view(&self) -> Seq<DirV> {
        self.dirs@.map_values(|d: FsDir| d@)
    }
}

impl FsTree {
    /// Distinct paths throughout.
    pub open spec fn wf(&self) -> bool {
        tree_wf(self@)
    }

    /// A tree with no directory.
    pub fn new() -> (r: FsTree)
        ensures
            r.wf(),
            r@ == Seq::<DirV>::empty(),
    {
        FsTree { dirs: Vec::new() }
    }

    /// The position of the directory at `p`, if known.
    pub fn find_dir(&self, p: &DirPath) -> (r: Option<usize>)
        requires
            self.wf(),
        ensures
            match r {
                Some(i) => i < self@.len() && self@[i as int].path == p@ && lookup_dir(self@, p@)
                    == Some(self@[i as int]),
                None => lookup_dir(self@, p@) is None,
            },
    {
        proof {
            lemma_lookup(self@, p@);
        }
        let mut i: usize = 0;
        while i < self.dirs.len()
            invariant
                self.wf(),
                i <= self.dirs.len(),
                forall|j: int| 0 <= j < i ==> self@[j].path != p@,
            decreases self.dirs.len() - i,
        {
            if self.dirs[i].path.path_eq(p) {
                proof {
                    lemma_lookup(self@, p@);
                    assert(self@[i as int].path == p@);
                    assert(lookup_dir(self@, p@) == Some(self@[i as int]));
                }
                return Some(i);
            }
            proof {
                assert(self@[i as int].path == self.dirs@[i as int].path@);
            }
            i = i + 1;
        }
        proof {
            lemma_lookup(self@, p@);
            if lookup_dir(self@, p@) is Some {
                let j = choose|j: int| 0 <= j < self@.len() && self@[j].path == p@;
                assert(self@[j].path != p@);
            }
        }
        None
    }

    /// Add a directory; refused when its path is already present, so the
    /// tree stays well-formed.
    pub fn add_dir(&mut self, d: FsDir) -> (r: bool)
        requires
            old(self).wf(),
        ensures
            final(self).wf(),
            r == !(exists|i: int| 0 <= i < old(self)@.len() && old(self)@[i].path == d.path@),
            r ==> final(self)@ == old(self)@.push(d@),
            !r ==> final(self)@ == old(self)@,
    {
        proof {
            lemma_lookup(self@, d.path@);
        }
        match self.find_dir(&d.path) {
            Some(_) => {
                proof {
                    assert(exists|i: int|
                        0 <= i < old(self)@.len() && old(self)@[i].path == d.path@);
                }
                false
            },
            None => {
                proof {
                    if exists|i: int| 0 <= i < old(self)@.len() && old(self)@[i].path == d.path@ {
                        let i = choose|i: int|
                            0 <= i < old(self)@.len() && old(self)@[i].path == d.path@;
                        assert(lookup_dir(old(self)@, d.path@) == Some(old(self)@[i]));
                    }
                }
                let ghost pre = self@;
                self.dirs.push(d);
                proof {
                    assert(self@ =~= pre.push(d@));
                    assert forall|i: int, j: int| 0 <= i < j < self@.len() implies self@[i].path
                        != self@[j].path by {
                        if j < self@.len() - 1 {
                            assert(pre[i].path != pre[j].path);
                        } else {
                            assert(self@[i] == pre[i]);
                            lemma_lookup(pre, d.path@);
                        }
                    }
                }
                true
            },
        }
    }
}

} // verus!
