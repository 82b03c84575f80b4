use hyperdu_core::fstree::{EntryKind, FsDir, FsEntry, FsTree};
use hyperdu_core::options::OptionsBuilder;
use hyperdu_core::path::DirPath;
use hyperdu_core::rollup::rollup_child_to_parent;
use hyperdu_core::scan_directory;
use hyperdu_core::stat_map::{StatEntry, StatMap};
use hyperdu_core::Stat;

fn p(parts: &[&str]) -> DirPath {
    DirPath { parts: parts.iter().map(|s| s.to_string()).collect() }
}

fn file(name: &str, size: u64, dev: u64, ino: u64) -> FsEntry {
    FsEntry {
        name: name.to_string(),
        kind: EntryKind::File,
        size,
        blocks: size.div_ceil(512),
        dev,
        ino,
    }
}

fn subdir(name: &str, dev: u64, ino: u64) -> FsEntry {
    FsEntry { name: name.to_string(), kind: EntryKind::Dir, size: 0, blocks: 0, dev, ino }
}

fn add(tree: &mut FsTree, path: DirPath, dev: u64, entries: Vec<FsEntry>) {
    assert!(tree.add_dir(FsDir { path, dev, entries }));
}

fn root_stat(map: &StatMap, root: &DirPath) -> Stat {
    map.get(root).unwrap_or(Stat { logical: 0, physical: 0, files: 0 })
}

#[test]
fn rollup_propagates_sizes() {
    // r/{a/{f1:10}, b/{f2:20}}: two files counted at the root.
    let mut tree = FsTree::new();
    add(&mut tree, p(&["r"]), 1, vec![subdir("a", 1, 11), subdir("b", 1, 12)]);
    add(&mut tree, p(&["r", "a"]), 1, vec![file("f1", 10, 1, 13)]);
    add(&mut tree, p(&["r", "b"]), 1, vec![file("f2", 20, 1, 14)]);
    let opt = OptionsBuilder::new().compute_physical(false).build();
    let map = scan_directory(&p(&["r"]), &opt, &tree).unwrap();
    let s = root_stat(&map, &p(&["r"]));
    assert_eq!(s.files, 2, "two files counted");
    assert_eq!(s.logical, 30);
}

#[test]
fn exclude_contains_excludes_dirs() {
    // The substring filter excludes a whole directory, not only files.
    let mut tree = FsTree::new();
    add(&mut tree, p(&["r"]), 1, vec![subdir("skip_a", 1, 11), subdir("b", 1, 12)]);
    add(&mut tree, p(&["r", "skip_a"]), 1, vec![file("f1", 10, 1, 13)]);
    add(&mut tree, p(&["r", "b"]), 1, vec![file("f2", 20, 1, 14)]);
    let opt = OptionsBuilder::new()
        .with_exclude_contains(vec!["skip".to_string()])
        .compute_physical(false)
        .build();
    let map = scan_directory(&p(&["r"]), &opt, &tree).unwrap();
    let s = root_stat(&map, &p(&["r"]));
    assert_eq!(s.files, 1);
    assert_eq!(s.logical, 20);
}

#[test]
fn rollup_and_filters_min_file_size_filters_small_files() {
    let mut tree = FsTree::new();
    add(&mut tree, p(&["r"]), 1, vec![subdir("a", 1, 11)]);
    add(
        &mut tree,
        p(&["r", "a"]),
        1,
        vec![file("f_small", 10, 1, 12), file("f_big", 20, 1, 13)],
    );
    let opt = OptionsBuilder::new().min_file_size(15).compute_physical(false).build();
    let map = scan_directory(&p(&["r"]), &opt, &tree).unwrap();
    let s = root_stat(&map, &p(&["r"]));
    assert_eq!(s.files, 1);
    assert_eq!(s.logical, 20);
}

#[test]
fn rollup_and_filters_max_depth_limits_grandchildren() {
    // r/{child/{f1:10, grand/{f2:20}}}, depth cap 1: the grandchild's
    // content is excluded.
    let mut tree = FsTree::new();
    add(&mut tree, p(&["r"]), 1, vec![subdir("child", 1, 11)]);
    add(
        &mut tree,
        p(&["r", "child"]),
        1,
        vec![file("f1", 10, 1, 12), subdir("grand", 1, 13)],
    );
    add(&mut tree, p(&["r", "child", "grand"]), 1, vec![file("f2", 20, 1, 14)]);
    let opt = OptionsBuilder::new().max_depth(1).compute_physical(false).build();
    let map = scan_directory(&p(&["r"]), &opt, &tree).unwrap();
    let s = root_stat(&map, &p(&["r"]));
    assert_eq!(s.files, 1, "grandchild content should be excluded at max_depth=1");
    assert_eq!(s.logical, 10);
}

#[test]
fn symlink_not_followed_by_default() {
    let mut tree = FsTree::new();
    add(&mut tree, p(&["r"]), 1, vec![subdir("d", 1, 11)]);
    add(
        &mut tree,
        p(&["r", "d"]),
        1,
        vec![
            file("file", 10, 1, 12),
            FsEntry {
                name: "link_to_file".to_string(),
                kind: EntryKind::SymlinkFile,
                size: 10,
                blocks: 1,
                dev: 1,
                ino: 12,
            },
        ],
    );
    let opt = OptionsBuilder::new().compute_physical(false).build();
    let map = scan_directory(&p(&["r"]), &opt, &tree).unwrap();
    let s = root_stat(&map, &p(&["r"]));
    assert_eq!(s.files, 1, "symlink should not be counted by default");
    assert_eq!(s.logical, 10);
}

#[test]
fn hardlink_dedupe_unix() {
    // Two hardlinks to one 8192-byte inode (16 blocks) in one directory.
    let mut tree = FsTree::new();
    add(
        &mut tree,
        p(&["r"]),
        1,
        vec![file("a.bin", 8192, 1, 77), file("b.bin", 8192, 1, 77)],
    );
    let dedup = OptionsBuilder::new().count_hardlinks(false).build();
    let map = scan_directory(&p(&["r"]), &dedup, &tree).unwrap();
    let s = root_stat(&map, &p(&["r"]));
    assert_eq!(s.files, 1, "dedupe should count one logical file");
    assert_eq!(s.logical, 8192);
    assert!(s.physical >= 8192 && s.physical < 16384);
    let counted = OptionsBuilder::new().count_hardlinks(true).build();
    let map2 = scan_directory(&p(&["r"]), &counted, &tree).unwrap();
    let s2 = root_stat(&map2, &p(&["r"]));
    assert_eq!(s2.files, 2);
    assert!(s2.logical >= 16384);
}

#[test]
fn rollup_creates_ancestor_rows() {
    // A direct rollup of one deep row reaches every ancestor.
    let m = StatMap {
        entries: vec![StatEntry {
            path: p(&["a", "b", "c"]),
            stat: Stat { logical: 10, physical: 12, files: 1 },
        }],
    };
    let rolled = rollup_child_to_parent(m);
    for anc in [&["a", "b", "c"][..], &["a", "b"][..], &["a"][..], &[][..]] {
        let s = rolled.get(&p(anc)).expect("ancestor row");
        assert_eq!(s.logical, 10);
        assert_eq!(s.physical, 12);
        assert_eq!(s.files, 1);
    }
}
