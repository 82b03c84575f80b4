//! Optional file-type classification.
//!
//! Files group into broad categories by extension; a deeper mode sniffs
//! content bytes through the infer crate. Directory walking and file
//! reading live in the embedding; the grouping rules and the running
//! per-category tallies are specified here.

use vstd::prelude::*;

use crate::fs_strategy::eq_ignore_ascii_case;
use crate::path::DirPath;

verus! {

/// How files are classified: by extension alone, or by content.
#[derive(Clone, Copy, Debug, PartialEq, Eq, Structural)]
pub enum ClassifyMode {
    Basic,
    Deep,
}

/// Tallies for one category or extension.
#[derive(Clone, Copy, Debug, PartialEq, Eq, Structural)]
pub struct CategoryStats {
    pub files: u64,
    pub bytes: u64,
}

impl Default for CategoryStats {
    /// The zero tally.
    fn default() -> (r: CategoryStats)
        ensures
            r == (CategoryStats { files: 0, bytes: 0 }),
    {
        CategoryStats { files: 0, bytes: 0 }
    }
}

/// The category an extension selects, matched without case.
pub open spec fn spec_basic_category(ext: Seq<char>) -> Seq<char> {
    let e = crate::fs_strategy::lower_seq(ext);
    if e == "jpg"@ || e == "jpeg"@ || e == "png"@ || e == "gif"@ || e == "webp"@ || e == "bmp"@ || e == "tiff"@ || e == "heic"@ {
        "image"@
    } else if e == "mp4"@ || e == "mkv"@ || e == "mov"@ || e == "avi"@ || e == "wmv"@ || e == "webm"@ {
        "video"@
    } else if e == "mp3"@ || e == "flac"@ || e == "aac"@ || e == "wav"@ || e == "ogg"@ || e == "m4a"@ {
        "audio"@
    } else if e == "pdf"@ || e == "doc"@ || e == "docx"@ || e == "xls"@ || e == "xlsx"@ || e == "ppt"@ || e == "pptx"@ || e == "odt"@ || e == "md"@ || e == "txt"@ {
        "document"@
    } else if e == "zip"@ || e == "7z"@ || e == "rar"@ || e == "tar"@ || e == "gz"@ || e == "bz2"@ || e == "xz"@ || e == "zst"@ {
        "archive"@
    } else if e == "rs"@ || e == "c"@ || e == "cpp"@ || e == "h"@ || e == "hpp"@ || e == "py"@ || e == "js"@ || e == "ts"@ || e == "go"@ || e == "java"@ || e == "kt"@ || e == "swift"@ || e == "rb"@ || e == "php"@ || e == "cs"@ || e == "sh"@ {
        "source"@
    } else if e == "so"@ || e == "dll"@ || e == "dylib"@ || e == "exe"@ || e == "bin"@ || e == "deb"@ || e == "rpm"@ || e == "appimage"@ {
        "binary"@
    } else {
        "other"@
    }
}

/// The broad category for a file extension.
#[verifier::rlimit(100)]
pub fn basic_category_from_ext(ext: &str) -> (r: &'static str)
    ensures
        r@ == spec_basic_category(ext@),
{
    proof {
        lemma_ext_lits();
    }
    if eq_ignore_ascii_case(ext, "jpg") || eq_ignore_ascii_case(ext, "jpeg") || eq_ignore_ascii_case(ext, "png") || eq_ignore_ascii_case(ext, "gif") || eq_ignore_ascii_case(ext, "webp") || eq_ignore_ascii_case(ext, "bmp") || eq_ignore_ascii_case(ext, "tiff") || eq_ignore_ascii_case(ext, "heic") {
        "image"
    } else if eq_ignore_ascii_case(ext, "mp4") || eq_ignore_ascii_case(ext, "mkv") || eq_ignore_ascii_case(ext, "mov") || eq_ignore_ascii_case(ext, "avi") || eq_ignore_ascii_case(ext, "wmv") || eq_ignore_ascii_case(ext, "webm") {
        "video"
    } else if eq_ignore_ascii_case(ext, "mp3") || eq_ignore_ascii_case(ext, "flac") || eq_ignore_ascii_case(ext, "aac") || eq_ignore_ascii_case(ext, "wav") || eq_ignore_ascii_case(ext, "ogg") || eq_ignore_ascii_case(ext, "m4a") {
        "audio"
    } else if eq_ignore_ascii_case(ext, "pdf") || eq_ignore_ascii_case(ext, "doc") || eq_ignore_ascii_case(ext, "docx") || eq_ignore_ascii_case(ext, "xls") || eq_ignore_ascii_case(ext, "xlsx") || eq_ignore_ascii_case(ext, "ppt") || eq_ignore_ascii_case(ext, "pptx") || eq_ignore_ascii_case(ext, "odt") || eq_ignore_ascii_case(ext, "md") || eq_ignore_ascii_case(ext, "txt") {
        "document"
    } else if eq_ignore_ascii_case(ext, "zip") || eq_ignore_ascii_case(ext, "7z") || eq_ignore_ascii_case(ext, "rar") || eq_ignore_ascii_case(ext, "tar") || eq_ignore_ascii_case(ext, "gz") || eq_ignore_ascii_case(ext, "bz2") || eq_ignore_ascii_case(ext, "xz") || eq_ignore_ascii_case(ext, "zst") {
        "archive"
    } else if eq_ignore_ascii_case(ext, "rs") || eq_ignore_ascii_case(ext, "c") || eq_ignore_ascii_case(ext, "cpp") || eq_ignore_ascii_case(ext, "h") || eq_ignore_ascii_case(ext, "hpp") || eq_ignore_ascii_case(ext, "py") || eq_ignore_ascii_case(ext, "js") || eq_ignore_ascii_case(ext, "ts") || eq_ignore_ascii_case(ext, "go") || eq_ignore_ascii_case(ext, "java") || eq_ignore_ascii_case(ext, "kt") || eq_ignore_ascii_case(ext, "swift") || eq_ignore_ascii_case(ext, "rb") || eq_ignore_ascii_case(ext, "php") || eq_ignore_ascii_case(ext, "cs") || eq_ignore_ascii_case(ext, "sh") {
        "source"
    } else if eq_ignore_ascii_case(ext, "so") || eq_ignore_ascii_case(ext, "dll") || eq_ignore_ascii_case(ext, "dylib") || eq_ignore_ascii_case(ext, "exe") || eq_ignore_ascii_case(ext, "bin") || eq_ignore_ascii_case(ext, "deb") || eq_ignore_ascii_case(ext, "rpm") || eq_ignore_ascii_case(ext, "appimage") {
        "binary"
    } else {
        "other"
    }
}

/// The extension names' own lower-case fixed points.
proof fn lemma_ext_lits()
    ensures
        crate::fs_strategy::lower_seq("jpg"@) == "jpg"@,
        crate::fs_strategy::lower_seq("jpeg"@) == "jpeg"@,
        crate::fs_strategy::lower_seq("png"@) == "png"@,
        crate::fs_strategy::lower_seq("gif"@) == "gif"@,
        crate::fs_strategy::lower_seq("webp"@) == "webp"@,
        crate::fs_strategy::lower_seq("bmp"@) == "bmp"@,
        crate::fs_strategy::lower_seq("tiff"@) == "tiff"@,
        crate::fs_strategy::lower_seq("heic"@) == "heic"@,
        crate::fs_strategy::lower_seq("mp4"@) == "mp4"@,
        crate::fs_strategy::lower_seq("mkv"@) == "mkv"@,
        crate::fs_strategy::lower_seq("mov"@) == "mov"@,
        crate::fs_strategy::lower_seq("avi"@) == "avi"@,
        crate::fs_strategy::lower_seq("wmv"@) == "wmv"@,
        crate::fs_strategy::lower_seq("webm"@) == "webm"@,
        crate::fs_strategy::lower_seq("mp3"@) == "mp3"@,
        crate::fs_strategy::lower_seq("flac"@) == "flac"@,
        crate::fs_strategy::lower_seq("aac"@) == "aac"@,
        crate::fs_strategy::lower_seq("wav"@) == "wav"@,
        crate::fs_strategy::lower_seq("ogg"@) == "ogg"@,
        crate::fs_strategy::lower_seq("m4a"@) == "m4a"@,
        crate::fs_strategy::lower_seq("pdf"@) == "pdf"@,
        crate::fs_strategy::lower_seq("doc"@) == "doc"@,
        crate::fs_strategy::lower_seq("docx"@) == "docx"@,
        crate::fs_strategy::lower_seq("xls"@) == "xls"@,
        crate::fs_strategy::lower_seq("xlsx"@) == "xlsx"@,
        crate::fs_strategy::lower_seq("ppt"@) == "ppt"@,
        crate::fs_strategy::lower_seq("pptx"@) == "pptx"@,
        crate::fs_strategy::lower_seq("odt"@) == "odt"@,
        crate::fs_strategy::lower_seq("md"@) == "md"@,
        crate::fs_strategy::lower_seq("txt"@) == "txt"@,
        crate::fs_strategy::lower_seq("zip"@) == "zip"@,
        crate::fs_strategy::lower_seq("7z"@) == "7z"@,
        crate::fs_strategy::lower_seq("rar"@) == "rar"@,
        crate::fs_strategy::lower_seq("tar"@) == "tar"@,
        crate::fs_strategy::lower_seq("gz"@) == "gz"@,
        crate::fs_strategy::lower_seq("bz2"@) == "bz2"@,
        crate::fs_strategy::lower_seq("xz"@) == "xz"@,
        crate::fs_strategy::lower_seq("zst"@) == "zst"@,
        crate::fs_strategy::lower_seq("rs"@) == "rs"@,
        crate::fs_strategy::lower_seq("c"@) == "c"@,
        crate::fs_strategy::lower_seq("cpp"@) == "cpp"@,
        crate::fs_strategy::lower_seq("h"@) == "h"@,
        crate::fs_strategy::lower_seq("hpp"@) == "hpp"@,
        crate::fs_strategy::lower_seq("py"@) == "py"@,
        crate::fs_strategy::lower_seq("js"@) == "js"@,
        crate::fs_strategy::lower_seq("ts"@) == "ts"@,
        crate::fs_strategy::lower_seq("go"@) == "go"@,
        crate::fs_strategy::lower_seq("java"@) == "java"@,
        crate::fs_strategy::lower_seq("kt"@) == "kt"@,
        crate::fs_strategy::lower_seq("swift"@) == "swift"@,
        crate::fs_strategy::lower_seq("rb"@) == "rb"@,
        crate::fs_strategy::lower_seq("php"@) == "php"@,
        crate::fs_strategy::lower_seq("cs"@) == "cs"@,
        crate::fs_strategy::lower_seq("sh"@) == "sh"@,
        crate::fs_strategy::lower_seq("so"@) == "so"@,
        crate::fs_strategy::lower_seq("dll"@) == "dll"@,
        crate::fs_strategy::lower_seq("dylib"@) == "dylib"@,
        crate::fs_strategy::lower_seq("exe"@) == "exe"@,
        crate::fs_strategy::lower_seq("bin"@) == "bin"@,
        crate::fs_strategy::lower_seq("deb"@) == "deb"@,
        crate::fs_strategy::lower_seq("rpm"@) == "rpm"@,
        crate::fs_strategy::lower_seq("appimage"@) == "appimage"@,
{
    reveal_strlit("jpg");
    reveal_strlit("jpeg");
    reveal_strlit("png");
    reveal_strlit("gif");
    reveal_strlit("webp");
    reveal_strlit("bmp");
    reveal_strlit("tiff");
    reveal_strlit("heic");
    reveal_strlit("mp4");
    reveal_strlit("mkv");
    reveal_strlit("mov");
    reveal_strlit("avi");
    reveal_strlit("wmv");
    reveal_strlit("webm");
    reveal_strlit("mp3");
    reveal_strlit("flac");
    reveal_strlit("aac");
    reveal_strlit("wav");
    reveal_strlit("ogg");
    reveal_strlit("m4a");
    reveal_strlit("pdf");
    reveal_strlit("doc");
    reveal_strlit("docx");
    reveal_strlit("xls");
    reveal_strlit("xlsx");
    reveal_strlit("ppt");
    reveal_strlit("pptx");
    reveal_strlit("odt");
    reveal_strlit("md");
    reveal_strlit("txt");
    reveal_strlit("zip");
    reveal_strlit("7z");
    reveal_strlit("rar");
    reveal_strlit("tar");
    reveal_strlit("gz");
    reveal_strlit("bz2");
    reveal_strlit("xz");
    reveal_strlit("zst");
    reveal_strlit("rs");
    reveal_strlit("c");
    reveal_strlit("cpp");
    reveal_strlit("h");
    reveal_strlit("hpp");
    reveal_strlit("py");
    reveal_strlit("js");
    reveal_strlit("ts");
    reveal_strlit("go");
    reveal_strlit("java");
    reveal_strlit("kt");
    reveal_strlit("swift");
    reveal_strlit("rb");
    reveal_strlit("php");
    reveal_strlit("cs");
    reveal_strlit("sh");
    reveal_strlit("so");
    reveal_strlit("dll");
    reveal_strlit("dylib");
    reveal_strlit("exe");
    reveal_strlit("bin");
    reveal_strlit("deb");
    reveal_strlit("rpm");
    reveal_strlit("appimage");
    assert(crate::fs_strategy::lower_seq("jpg"@) =~= "jpg"@);
    assert(crate::fs_strategy::lower_seq("jpeg"@) =~= "jpeg"@);
    assert(crate::fs_strategy::lower_seq("png"@) =~= "png"@);
    assert(crate::fs_strategy::lower_seq("gif"@) =~= "gif"@);
    assert(crate::fs_strategy::lower_seq("webp"@) =~= "webp"@);
    assert(crate::fs_strategy::lower_seq("bmp"@) =~= "bmp"@);
    assert(crate::fs_strategy::lower_seq("tiff"@) =~= "tiff"@);
    assert(crate::fs_strategy::lower_seq("heic"@) =~= "heic"@);
    assert(crate::fs_strategy::lower_seq("mp4"@) =~= "mp4"@);
    assert(crate::fs_strategy::lower_seq("mkv"@) =~= "mkv"@);
    assert(crate::fs_strategy::lower_seq("mov"@) =~= "mov"@);
    assert(crate::fs_strategy::lower_seq("avi"@) =~= "avi"@);
    assert(crate::fs_strategy::lower_seq("wmv"@) =~= "wmv"@);
    assert(crate::fs_strategy::lower_seq("webm"@) =~= "webm"@);
    assert(crate::fs_strategy::lower_seq("mp3"@) =~= "mp3"@);
    assert(crate::fs_strategy::lower_seq("flac"@) =~= "flac"@);
    assert(crate::fs_strategy::lower_seq("aac"@) =~= "aac"@);
    assert(crate::fs_strategy::lower_seq("wav"@) =~= "wav"@);
    assert(crate::fs_strategy::lower_seq("ogg"@) =~= "ogg"@);
    assert(crate::fs_strategy::lower_seq("m4a"@) =~= "m4a"@);
    assert(crate::fs_strategy::lower_seq("pdf"@) =~= "pdf"@);
    assert(crate::fs_strategy::lower_seq("doc"@) =~= "doc"@);
    assert(crate::fs_strategy::lower_seq("docx"@) =~= "docx"@);
    assert(crate::fs_strategy::lower_seq("xls"@) =~= "xls"@);
    assert(crate::fs_strategy::lower_seq("xlsx"@) =~= "xlsx"@);
    assert(crate::fs_strategy::lower_seq("ppt"@) =~= "ppt"@);
    assert(crate::fs_strategy::lower_seq("pptx"@) =~= "pptx"@);
    assert(crate::fs_strategy::lower_seq("odt"@) =~= "odt"@);
    assert(crate::fs_strategy::lower_seq("md"@) =~= "md"@);
    assert(crate::fs_strategy::lower_seq("txt"@) =~= "txt"@);
    assert(crate::fs_strategy::lower_seq("zip"@) =~= "zip"@);
    assert(crate::fs_strategy::lower_seq("7z"@) =~= "7z"@);
    assert(crate::fs_strategy::lower_seq("rar"@) =~= "rar"@);
    assert(crate::fs_strategy::lower_seq("tar"@) =~= "tar"@);
    assert(crate::fs_strategy::lower_seq("gz"@) =~= "gz"@);
    assert(crate::fs_strategy::lower_seq("bz2"@) =~= "bz2"@);
    assert(crate::fs_strategy::lower_seq("xz"@) =~= "xz"@);
    assert(crate::fs_strategy::lower_seq("zst"@) =~= "zst"@);
    assert(crate::fs_strategy::lower_seq("rs"@) =~= "rs"@);
    assert(crate::fs_strategy::lower_seq("c"@) =~= "c"@);
    assert(crate::fs_strategy::lower_seq("cpp"@) =~= "cpp"@);
    assert(crate::fs_strategy::lower_seq("h"@) =~= "h"@);
    assert(crate::fs_strategy::lower_seq("hpp"@) =~= "hpp"@);
    assert(crate::fs_strategy::lower_seq("py"@) =~= "py"@);
    assert(crate::fs_strategy::lower_seq("js"@) =~= "js"@);
    assert(crate::fs_strategy::lower_seq("ts"@) =~= "ts"@);
    assert(crate::fs_strategy::lower_seq("go"@) =~= "go"@);
    assert(crate::fs_strategy::lower_seq("java"@) =~= "java"@);
    assert(crate::fs_strategy::lower_seq("kt"@) =~= "kt"@);
    assert(crate::fs_strategy::lower_seq("swift"@) =~= "swift"@);
    assert(crate::fs_strategy::lower_seq("rb"@) =~= "rb"@);
    assert(crate::fs_strategy::lower_seq("php"@) =~= "php"@);
    assert(crate::fs_strategy::lower_seq("cs"@) =~= "cs"@);
    assert(crate::fs_strategy::lower_seq("sh"@) =~= "sh"@);
    assert(crate::fs_strategy::lower_seq("so"@) =~= "so"@);
    assert(crate::fs_strategy::lower_seq("dll"@) =~= "dll"@);
    assert(crate::fs_strategy::lower_seq("dylib"@) =~= "dylib"@);
    assert(crate::fs_strategy::lower_seq("exe"@) =~= "exe"@);
    assert(crate::fs_strategy::lower_seq("bin"@) =~= "bin"@);
    assert(crate::fs_strategy::lower_seq("deb"@) =~= "deb"@);
    assert(crate::fs_strategy::lower_seq("rpm"@) =~= "rpm"@);
    assert(crate::fs_strategy::lower_seq("appimage"@) =~= "appimage"@);
}


/// One tally row, keyed by a category or extension name.
pub struct CatRow {
    pub name: String,
    pub stats: CategoryStats,
}

impl View for CatRow {
    type V = (Seq<char>, CategoryStats);

    open spec fn view(&self) -> (Seq<char>, CategoryStats) {
        (self.name@, self.stats)
    }
}

/// Whether a tally sequence holds the key.
pub open spec fn crows_has(s: Seq<(Seq<char>, CategoryStats)>, k: Seq<char>) -> bool {
    exists|i: int| 0 <= i < s.len() && s[i].0 == k
}

/// The position of the key's row (meaningful only when present).
pub open spec fn crows_idx(s: Seq<(Seq<char>, CategoryStats)>, k: Seq<char>) -> int {
    choose|i: int| 0 <= i < s.len() && s[i].0 == k
}

/// One more file of `size` bytes tallied under `k`, saturating.
pub open spec fn crows_bump(s: Seq<(Seq<char>, CategoryStats)>, k: Seq<char>, size: u64) -> Seq<
    (Seq<char>, CategoryStats),
> {
    if crows_has(s, k) {
        let i = crows_idx(s, k);
        s.update(
            i,
            (
                k,
                CategoryStats {
                    files: s[i].1.files.saturating_add(1),
                    bytes: s[i].1.bytes.saturating_add(size),
                },
            ),
        )
    } else {
        s.push((k, CategoryStats { files: 1, bytes: size }))
    }
}

/// Pairwise distinct keys.
pub open spec fn crows_distinct(s: Seq<(Seq<char>, CategoryStats)>) -> bool {
    forall|i: int, j: int| 0 <= i < j < s.len() ==> s[i].0 != s[j].0
}

/// Tally one file under `key` in an association vector.
fn bump_rows(v: &mut Vec<CatRow>, key: &str, size: u64)
    requires
        crows_distinct(old(v)@.map_values(|r: CatRow| r@)),
    ensures
        crows_distinct(final(v)@.map_values(|r: CatRow| r@)),
        final(v)@.map_values(|r: CatRow| r@) == crows_bump(
            old(v)@.map_values(|r: CatRow| r@),
            key@,
            size,
        ),
{
    let ghost rows = v@.map_values(|r: CatRow| r@);
    let mut i: usize = 0;
    while i < v.len()
        invariant
            v@ == old(v)@,
            rows == v@.map_values(|r: CatRow| r@),
            crows_distinct(rows),
            i <= v@.len(),
            forall|j: int| 0 <= j < i ==> rows[j].0 != key@,
        decreases v.len() - i,
    {
        if crate::filters::str_eq(v[i].name.as_str(), key) {
            proof {
                assert(rows[i as int].0 == key@);
                assert(crows_has(rows, key@));
                let j = crows_idx(rows, key@);
                assert(0 <= j < rows.len() && rows[j].0 == key@);
                assert(j == i as int);
            }
            let e = &mut v[i];
            e.stats = CategoryStats {
                files: e.stats.files.saturating_add(1),
                bytes: e.stats.bytes.saturating_add(size),
            };
            proof {
                assert(v@.map_values(|r: CatRow| r@) =~= crows_bump(rows, key@, size));
                assert(crows_distinct(v@.map_values(|r: CatRow| r@)));
            }
            return ;
        }
        proof {
            assert(rows[i as int].0 == v@[i as int].name@);
        }
        i = i + 1;
    }
    v.push(CatRow { name: String::from_str(key), stats: CategoryStats { files: 1, bytes: size } });
    proof {
        if crows_has(rows, key@) {
            let j = crows_idx(rows, key@);
            assert(rows[j].0 != key@);
        }
        assert(v@.map_values(|r: CatRow| r@) =~= crows_bump(rows, key@, size));
        assert(crows_distinct(v@.map_values(|r: CatRow| r@)));
    }
}

/// One of the largest files seen so far.
pub struct SizeRow {
    pub size: u64,
    pub path: DirPath,
}

impl View for SizeRow {
    type V = (u64, Seq<Seq<char>>);

    open spec fn view(&self) -> (u64, Seq<Seq<char>>) {
        (self.size, self.path@)
    }
}

/// Ascending by size.
pub open spec fn sorted_by_size(s: Seq<(u64, Seq<Seq<char>>)>) -> bool {
    forall|i: int, j: int| 0 <= i < j < s.len() ==> s[i].0 <= s[j].0
}

/// Running per-type statistics: tallies by category and by extension,
/// and the largest files seen, capped in count.
pub struct TypeStatistics {
    pub by_category: Vec<CatRow>,
    pub by_extension: Vec<CatRow>,
    pub top_consumers: Vec<SizeRow>,
}

impl TypeStatistics {
    /// Distinct tally keys, top consumers ascending by size.
    pub open spec fn wf(&self) -> bool {
        &&& crows_distinct(self.by_category@.map_values(|r: CatRow| r@))
        &&& crows_distinct(self.by_extension@.map_values(|r: CatRow| r@))
        &&& sorted_by_size(self.top_consumers@.map_values(|r: SizeRow| r@))
    }

    /// Empty statistics.
    pub fn new() -> (r: TypeStatistics)
        ensures
            r.wf(),
            r.by_category@.len() == 0,
            r.by_extension@.len() == 0,
            r.top_consumers@.len() == 0,
    {
        TypeStatistics {
            by_category: Vec::new(),
            by_extension: Vec::new(),
            top_consumers: Vec::new(),
        }
    }

    /// Record one file: bump its extension and category tallies and keep
    /// it among the largest seen; beyond 2048 retained files the
    /// smallest are dropped down to 1024.
    pub fn add(&mut self, path: &DirPath, ext: &str, cat: &str, size: u64)
        requires
            old(self).wf(),
        ensures
            final(self).wf(),
            final(self).by_extension@.map_values(|r: CatRow| r@) == crows_bump(
                old(self).by_extension@.map_values(|r: CatRow| r@),
                ext@,
                size,
            ),
            final(self).by_category@.map_values(|r: CatRow| r@) == crows_bump(
                old(self).by_category@.map_values(|r: CatRow| r@),
                cat@,
                size,
            ),
            final(self).top_consumers@.len() <= 2048,
            final(self).top_consumers@.map_values(|r: SizeRow| r@).contains((size, path@))
                || final(self).top_consumers@.len() == 1024,
    {
        bump_rows(&mut self.by_extension, ext, size);
        bump_rows(&mut self.by_category, cat, size);
        // Insert at the first strictly larger row to stay ascending.
        let ghost tops0 = self.top_consumers@.map_values(|r: SizeRow| r@);
        let n = self.top_consumers.len();
        let mut pos: usize = 0;
        while pos < n
            invariant
                tops0 == self.top_consumers@.map_values(|r: SizeRow| r@),
                n == tops0.len(),
                pos <= n,
                forall|j: int| 0 <= j < pos ==> tops0[j].0 <= size,
            ensures
                tops0 == self.top_consumers@.map_values(|r: SizeRow| r@),
                n == tops0.len(),
                pos <= n,
                forall|j: int| 0 <= j < pos ==> tops0[j].0 <= size,
                pos < n ==> tops0[pos as int].0 > size,
            decreases n - pos,
        {
            if self.top_consumers[pos].size > size {
                proof {
                    assert(tops0[pos as int].0 == self.top_consumers@[pos as int].size);
                }
                break ;
            }
            proof {
                assert(tops0[pos as int].0 == self.top_consumers@[pos as int].size);
            }
            pos = pos + 1;
        }
        self.top_consumers.insert(pos, SizeRow { size, path: path.dup() });
        proof {
            let tops1 = self.top_consumers@.map_values(|r: SizeRow| r@);
            assert(tops1 =~= tops0.subrange(0, pos as int).push((size, path@)) + tops0.subrange(
                pos as int,
                tops0.len() as int,
            ));
            assert(tops1[pos as int] == (size, path@));
            assert(sorted_by_size(tops1)) by {
                assert forall|i: int, j: int| 0 <= i < j < tops1.len() implies tops1[i].0
                    <= tops1[j].0 by {
                    if i < pos as int {
                        assert(tops1[i] == tops0[i]);
                    }
                    if i > pos as int {
                        assert(tops1[i] == tops0[i - 1]);
                    }
                    if j < pos as int {
                        assert(tops1[j] == tops0[j]);
                    }
                    if j > pos as int {
                        assert(tops1[j] == tops0[j - 1]);
                    }
                }
            }
            assert(tops1.contains((size, path@)));
        }
        let ghost tops1g = self.top_consumers@.map_values(|r: SizeRow| r@);
        if self.top_consumers.len() > 2048 {
            let keep_from = self.top_consumers.len() - 1024;
            let kept = self.top_consumers.split_off(keep_from);
            self.top_consumers = kept;
            proof {
                let tops2 = self.top_consumers@.map_values(|r: SizeRow| r@);
                assert(tops2 =~= tops1g.subrange(keep_from as int, tops1g.len() as int));
                assert(sorted_by_size(tops2)) by {
                    assert forall|i: int, j: int| 0 <= i < j < tops2.len() implies tops2[i].0
                        <= tops2[j].0 by {
                        assert(tops2[i] == tops1g[i + keep_from]);
                        assert(tops2[j] == tops1g[j + keep_from]);
                    }
                }
            }
        }
    }
}


// ---------------------------------------------------------------------------
// Content-based classification through the infer crate.
// ---------------------------------------------------------------------------

#[verifier::external_type_specification]
#[verifier::external_body]
pub struct ExInferType(infer::Type);

/// The MIME type the infer crate's magic-byte tables assign to a buffer,
/// a function of the bytes alone; `None` where no signature matches.
pub uninterp spec fn sniffed_mime(bytes: Seq<u8>) -> Option<Seq<char>>;

/// Relies on infer::get and infer::Type::mime_type: the matched type and
/// its MIME string depend on the buffer's bytes alone.
#[verifier::external_body]
fn sniff_mime(buf: &[u8]) -> (r: Option<String>)
    ensures
        (r is Some) == (sniffed_mime(buf@) is Some),
        (match (r, sniffed_mime(buf@)) {
            (Some(s), Some(m)) => s@ == m,
            _ => true,
        }),
{
    infer::get(buf).map(|t| t.mime_type().to_string())
}

/// The category a sniffed MIME type selects.
pub open spec fn spec_deep_category(mime: Option<Seq<char>>) -> Seq<char> {
    match mime {
        None => "other"@,
        Some(m) => {
            if crate::filters::starts_with("image/"@, m) {
                "image"@
            } else if crate::filters::starts_with("video/"@, m) {
                "video"@
            } else if crate::filters::starts_with("audio/"@, m) {
                "audio"@
            } else if m == "application/pdf"@ || crate::filters::starts_with("text/"@, m) {
                "document"@
            } else if m == "application/zip"@ || m == "application/x-7z-compressed"@ || m
                == "application/x-rar-compressed"@ || m == "application/x-xz"@ || m
                == "application/gzip"@ || crate::filters::is_substring("x-tar"@, m) {
                "archive"@
            } else if crate::filters::starts_with(
                "application/vnd.openxmlformats-officedocument"@,
                m,
            ) || m == "application/msword"@ || m == "application/vnd.ms-excel"@ || m
                == "application/vnd.ms-powerpoint"@ {
                "document"@
            } else if m == "application/x-executable"@ || m == "application/x-sharedlib"@ {
                "binary"@
            } else {
                "other"@
            }
        },
    }
}

/// The broad category for a buffer's leading bytes, by content.
pub fn deep_category_from_bytes(buf: &[u8]) -> (r: &'static str)
    ensures
        r@ == spec_deep_category(sniffed_mime(buf@)),
{
    let mime = sniff_mime(buf);
    match mime {
        None => "other",
        Some(m) => {
            let s = m.as_str();
            if crate::filters::starts_with_str(s, "image/") {
                "image"
            } else if crate::filters::starts_with_str(s, "video/") {
                "video"
            } else if crate::filters::starts_with_str(s, "audio/") {
                "audio"
            } else if crate::filters::str_eq(s, "application/pdf")
                || crate::filters::starts_with_str(s, "text/") {
                "document"
            } else if crate::filters::str_eq(s, "application/zip") || crate::filters::str_eq(
                s,
                "application/x-7z-compressed",
            ) || crate::filters::str_eq(s, "application/x-rar-compressed")
                || crate::filters::str_eq(s, "application/x-xz") || crate::filters::str_eq(
                s,
                "application/gzip",
            ) || crate::filters::contains_str(s, "x-tar") {
                "archive"
            } else if crate::filters::starts_with_str(
                s,
                "application/vnd.openxmlformats-officedocument",
            ) || crate::filters::str_eq(s, "application/msword") || crate::filters::str_eq(
                s,
                "application/vnd.ms-excel",
            ) || crate::filters::str_eq(s, "application/vnd.ms-powerpoint") {
                "document"
            } else if crate::filters::str_eq(s, "application/x-executable")
                || crate::filters::str_eq(s, "application/x-sharedlib") {
                "binary"
            } else {
                "other"
            }
        },
    }
}

} // verus!


