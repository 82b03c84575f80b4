use hyperdu_core::common_ops::{InodeSet, VisitSet};
use hyperdu_core::fstree::{EntryKind, FsDir, FsEntry, FsTree};
use hyperdu_core::scan_dir_segment;
use hyperdu_core::stat_map::StatMap;
use hyperdu_core::ScanState;
use hyperdu_core::options::{Options, OptionsBuilder};
use hyperdu_core::path::DirPath;
use hyperdu_core::{scan_directory, scan_directory_with_budget, Stat};

fn p(parts: &[&str]) -> DirPath {
    DirPath { parts: parts.iter().map(|s| s.to_string()).collect() }
}

fn file(name: &str, size: u64, dev: u64, ino: u64) -> FsEntry {
    FsEntry {
        name: name.to_string(),
        kind: EntryKind::File,
        size,
        blocks: size.div_ceil(512),
        dev,
        ino,
    }
}

fn subdir(name: &str, dev: u64, ino: u64) -> FsEntry {
    FsEntry { name: name.to_string(), kind: EntryKind::Dir, size: 0, blocks: 0, dev, ino }
}

fn sym_dir(name: &str, target: DirPath, dev: u64, ino: u64) -> FsEntry {
    FsEntry {
        name: name.to_string(),
        kind: EntryKind::SymlinkDir(target),
        size: 0,
        blocks: 0,
        dev,
        ino,
    }
}

fn add(tree: &mut FsTree, path: DirPath, dev: u64, entries: Vec<FsEntry>) {
    assert!(tree.add_dir(FsDir { path, dev, entries }));
}

fn root_stat(map: &hyperdu_core::stat_map::StatMap, root: &DirPath) -> Stat {
    map.get(root).unwrap_or(Stat { logical: 0, physical: 0, files: 0 })
}

#[test]
fn mock_scanner_basic_rollup() {
    // Layout: r/{a:10, d/{b:20}}
    let mut tree = FsTree::new();
    add(&mut tree, p(&["r"]), 1, vec![file("a", 10, 1, 11), subdir("d", 1, 12)]);
    add(&mut tree, p(&["r", "d"]), 1, vec![file("b", 20, 1, 13)]);
    let mut b = OptionsBuilder::new();
    b = b.compute_physical(false);
    let opt = b.build();
    let map = scan_directory(&p(&["r"]), &opt, &tree).unwrap();
    let s = root_stat(&map, &p(&["r"]));
    assert_eq!(s.files, 2);
    assert_eq!(s.logical, 30);
    assert_eq!(s.physical, 30);
}

#[test]
fn filter_exclude_contains() {
    let mut tree = FsTree::new();
    add(&mut tree, p(&["r"]), 1, vec![file("skip_a", 10, 1, 11), file("keep_b", 20, 1, 12)]);
    let opt = OptionsBuilder::new()
        .with_exclude_contains(vec!["skip".to_string()])
        .build();
    let map = scan_directory(&p(&["r"]), &opt, &tree).unwrap();
    let s = root_stat(&map, &p(&["r"]));
    assert_eq!(s.files, 1);
    assert_eq!(s.logical, 20);
}

#[test]
fn filter_glob_excludes_subdir() {
    let mut tree = FsTree::new();
    add(&mut tree, p(&["r"]), 1, vec![file("a", 10, 1, 11), subdir("d", 1, 12)]);
    add(&mut tree, p(&["r", "d"]), 1, vec![file("b", 20, 1, 13)]);
    let opt = OptionsBuilder::new().with_exclude_glob(vec!["**/d/**".to_string()]).build();
    let map = scan_directory(&p(&["r"]), &opt, &tree).unwrap();
    let s = root_stat(&map, &p(&["r"]));
    assert_eq!(s.files, 1);
    assert_eq!(s.logical, 10);
}

#[test]
fn filter_regex_excludes_tmp() {
    let mut tree = FsTree::new();
    add(&mut tree, p(&["r"]), 1, vec![file("x.tmp", 5, 1, 11), file("x.log", 7, 1, 12)]);
    let opt = OptionsBuilder::new().with_exclude_regex(vec![".*\\.tmp$".to_string()]).build();
    let map = scan_directory(&p(&["r"]), &opt, &tree).unwrap();
    let s = root_stat(&map, &p(&["r"]));
    assert_eq!(s.files, 1);
    assert_eq!(s.logical, 7);
}

#[test]
fn scanner_max_depth_limits_grandchildren() {
    // r/{a:1, d/{b:2, e/{c:4}}}, max_depth = 1
    let mut tree = FsTree::new();
    add(&mut tree, p(&["r"]), 1, vec![file("a", 1, 1, 11), subdir("d", 1, 12)]);
    add(&mut tree, p(&["r", "d"]), 1, vec![file("b", 2, 1, 13), subdir("e", 1, 14)]);
    add(&mut tree, p(&["r", "d", "e"]), 1, vec![file("c", 4, 1, 15)]);
    let opt = OptionsBuilder::new().max_depth(1).build();
    let map = scan_directory(&p(&["r"]), &opt, &tree).unwrap();
    let s = root_stat(&map, &p(&["r"]));
    assert_eq!(s.files, 2);
    assert_eq!(s.logical, 3);
}

#[test]
fn scanner_min_file_size_filters_small_files() {
    let mut tree = FsTree::new();
    add(&mut tree, p(&["r"]), 1, vec![file("small", 10, 1, 11), file("big", 100, 1, 12)]);
    let opt = OptionsBuilder::new().min_file_size(50).build();
    let map = scan_directory(&p(&["r"]), &opt, &tree).unwrap();
    let s = root_stat(&map, &p(&["r"]));
    assert_eq!(s.files, 1);
    assert_eq!(s.logical, 100);
}

#[test]
fn symlink_follow_false_skips() {
    let mut tree = FsTree::new();
    add(&mut tree, p(&["r"]), 1, vec![sym_dir("d", p(&["r", "d"]), 1, 20)]);
    add(&mut tree, p(&["r", "d"]), 1, vec![file("in_d", 5, 1, 21)]);
    let opt = OptionsBuilder::new().follow_links(false).build();
    let map = scan_directory(&p(&["r"]), &opt, &tree).unwrap();
    let s = root_stat(&map, &p(&["r"]));
    assert_eq!(s.files, 0);
    assert_eq!(s.logical, 0);
}

#[test]
fn symlink_follow_true_counts_and_guards_cycles() {
    // Cycle: r --d_link--> d, and d --back--> r.
    let mut tree = FsTree::new();
    add(&mut tree, p(&["r"]), 1, vec![sym_dir("d_link", p(&["r", "d"]), 1, 20)]);
    add(
        &mut tree,
        p(&["r", "d"]),
        1,
        vec![file("in_d", 5, 1, 21), sym_dir("back", p(&["r"]), 1, 1)],
    );
    let opt = OptionsBuilder::new().follow_links(true).build();
    let map = scan_directory(&p(&["r"]), &opt, &tree).unwrap();
    let s = root_stat(&map, &p(&["r"]));
    assert_eq!(s.files, 1);
    assert_eq!(s.logical, 5);
}

#[test]
fn one_file_system_skips_foreign_device() {
    // d sits on another device; with the rule on, nothing under it counts.
    let mut tree = FsTree::new();
    add(&mut tree, p(&["r"]), 1, vec![file("a", 10, 1, 11), subdir("d", 2, 12)]);
    add(&mut tree, p(&["r", "d"]), 2, vec![file("b", 20, 2, 13)]);
    let opt = OptionsBuilder::new().one_file_system(true).build();
    let map = scan_directory(&p(&["r"]), &opt, &tree).unwrap();
    let s = root_stat(&map, &p(&["r"]));
    assert_eq!(s.files, 1);
    assert_eq!(s.logical, 10);
    let opt2 = OptionsBuilder::new().one_file_system(false).build();
    let map2 = scan_directory(&p(&["r"]), &opt2, &tree).unwrap();
    let s2 = root_stat(&map2, &p(&["r"]));
    assert_eq!(s2.files, 2);
    assert_eq!(s2.logical, 30);
}

#[test]
fn budget_exhaustion_returns_partial_aggregate() {
    let mut tree = FsTree::new();
    add(&mut tree, p(&["r"]), 1, vec![file("a", 10, 1, 11), subdir("d", 1, 12)]);
    add(&mut tree, p(&["r", "d"]), 1, vec![file("b", 20, 1, 13)]);
    let opt = Options::default();
    // One directory of budget: only the root's direct contents count.
    let map = scan_directory_with_budget(&p(&["r"]), &opt, &tree, 1).unwrap();
    let s = root_stat(&map, &p(&["r"]));
    assert_eq!(s.files, 1);
    assert_eq!(s.logical, 10);
    // No budget at all: an empty but well-formed map.
    let map0 = scan_directory_with_budget(&p(&["r"]), &opt, &tree, 0).unwrap();
    assert_eq!(map0.len(), 0);
}

#[test]
fn missing_root_is_an_error() {
    let tree = FsTree::new();
    let opt = Options::default();
    let r = scan_directory(&p(&["nowhere"]), &opt, &tree);
    match r {
        Err(hyperdu_core::error_handling::ScanError::InvalidPath { path }) => {
            assert_eq!(path.to_path_string(), "nowhere");
        }
        _ => panic!("a missing root must fail as an invalid path"),
    }
}

#[test]
fn approximate_sizes_fabricate_nominal_files() {
    let mut tree = FsTree::new();
    add(&mut tree, p(&["r"]), 1, vec![file("a", 10, 1, 11), file("b", 999, 1, 12)]);
    let opt = OptionsBuilder::new().approximate_sizes(true).compute_physical(false).build();
    let map = scan_directory(&p(&["r"]), &opt, &tree).unwrap();
    let s = root_stat(&map, &p(&["r"]));
    assert_eq!(s.files, 2);
    assert_eq!(s.logical, 8192);
    assert_eq!(s.physical, 8192);
}

#[test]
fn adding_patterns_never_increases_counts() {
    let mut tree = FsTree::new();
    add(
        &mut tree,
        p(&["r"]),
        1,
        vec![file("keep", 10, 1, 11), file("skip_x", 20, 1, 12), subdir("d", 1, 13)],
    );
    add(&mut tree, p(&["r", "d"]), 1, vec![file("skip_y", 5, 1, 14), file("z", 7, 1, 15)]);
    let wide = OptionsBuilder::new().count_hardlinks(true).build();
    let narrow = OptionsBuilder::new()
        .count_hardlinks(true)
        .with_exclude_contains(vec![
            ".git".to_string(),
            "node_modules".to_string(),
            "target".to_string(),
            "skip".to_string(),
        ])
        .build();
    let m1 = scan_directory(&p(&["r"]), &wide, &tree).unwrap();
    let m2 = scan_directory(&p(&["r"]), &narrow, &tree).unwrap();
    for key in [&["r"][..], &["r", "d"][..]] {
        let a = root_stat(&m2, &p(key));
        let b = root_stat(&m1, &p(key));
        assert!(a.files <= b.files && a.logical <= b.logical && a.physical <= b.physical);
    }
    assert_eq!(root_stat(&m1, &p(&["r"])).files, 4);
    assert_eq!(root_stat(&m2, &p(&["r"])).files, 2);
}

#[test]
fn raising_max_depth_never_decreases_counts() {
    let mut tree = FsTree::new();
    add(&mut tree, p(&["r"]), 1, vec![file("a", 1, 1, 11), subdir("d", 1, 12)]);
    add(&mut tree, p(&["r", "d"]), 1, vec![file("b", 2, 1, 13), subdir("e", 1, 14)]);
    add(&mut tree, p(&["r", "d", "e"]), 1, vec![file("c", 4, 1, 15)]);
    let mut prev = Stat { logical: 0, physical: 0, files: 0 };
    for cap in [1u32, 2, 0] {
        let opt = OptionsBuilder::new().max_depth(cap).build();
        let m = scan_directory(&p(&["r"]), &opt, &tree).unwrap();
        let s = root_stat(&m, &p(&["r"]));
        assert!(s.files >= prev.files && s.logical >= prev.logical);
        prev = s;
    }
    assert_eq!(prev.logical, 7);
}

#[test]
fn yield_segments_cover_a_listing_once() {
    let mut tree = FsTree::new();
    add(
        &mut tree,
        p(&["r"]),
        1,
        vec![file("a", 1, 1, 11), file("b", 2, 1, 12), file("c", 4, 1, 13)],
    );
    let opt = OptionsBuilder::new().compute_physical(false).build();
    let mut st = ScanState {
        map: StatMap::new(),
        processed: vec![p(&["r"])],
        visited: VisitSet::new(1 << 20),
        inodes: InodeSet::new(),
        budget: usize::MAX,
    };
    // Two files per segment: one yield, one resume, nothing twice.
    let next = scan_dir_segment(&tree, &opt, 1, &p(&["r"]), 0, 0, 2, &mut st, 1);
    assert_eq!(next, Some(2));
    let next2 = scan_dir_segment(&tree, &opt, 1, &p(&["r"]), 0, 2, 2, &mut st, 1);
    assert_eq!(next2, None);
    let s = st.map.get(&p(&["r"])).unwrap();
    assert_eq!(s.files, 3);
    assert_eq!(s.logical, 7);
}
