use hyperdu_core::batch_stat::{BatchItem, BatchStatCollector};
use hyperdu_core::dirent::{dirent_d_off, dirent_dtype, dirent_name_slice, dirent_reclen};
use hyperdu_core::ring::RingState;
use hyperdu_core::classify::{basic_category_from_ext, deep_category_from_bytes, TypeStatistics};
use hyperdu_core::common_ops::{
    calculate_physical_size, check_hardlink_duplicate, check_visited_directory,
    report_file_progress, should_fast_exclude, update_file_stats, InodeSet, VisitSet,
};
use hyperdu_core::error_handling::{RecoveryAction, ScanError};
use hyperdu_core::fs_strategy::{detect_and_apply, eq_ignore_ascii_case, strategy_for, StrategyKind};
use hyperdu_core::memory_pool::BufferGuard;
use hyperdu_core::options::{Options, OptionsBuilder};
use hyperdu_core::path::DirPath;
use hyperdu_core::scheduler::{Job, WorkQueues};
use hyperdu_core::scanner::{auto_scan_choice, threads_per_root, MultiRootPlan};
use hyperdu_core::tuning::{next_active_threads, next_ring_window, next_uring_batch, next_yield_index, rate_improved, yield_step};
use hyperdu_core::HeuristicsMode;
use hyperdu_core::{Bloom, CompatMode, Stat};

fn p(parts: &[&str]) -> DirPath {
    DirPath { parts: parts.iter().map(|s| s.to_string()).collect() }
}

#[test]
fn path_string_joins_components() {
    assert_eq!(p(&["r", "a", "b.txt"]).to_path_string(), "r/a/b.txt");
    assert_eq!(p(&[]).to_path_string(), "");
    assert_eq!(p(&["r"]).depth(), 1);
    assert_eq!(p(&["r", "a"]).parent().unwrap().to_path_string(), "r");
}

#[test]
fn bloom_reports_repeat_keys() {
    let mut b = Bloom::with_bits(4096);
    assert!(!b.test_and_set(7, 42));
    assert!(b.test_and_set(7, 42));
    assert!(b.test_and_set(7, 42));
}

#[test]
fn visit_set_detects_second_visit() {
    let mut v = VisitSet::new(4096);
    assert!(!v.check_and_record(1, 10));
    assert!(v.check_and_record(1, 10));
    assert!(!v.check_and_record(1, 11));
}

#[test]
fn visited_directory_only_when_following_links() {
    let follow = OptionsBuilder::new().follow_links(true).build();
    let nofollow = OptionsBuilder::new().follow_links(false).build();
    let mut v = VisitSet::new(4096);
    assert!(!check_visited_directory(&nofollow, &mut v, 1, 5));
    assert!(!check_visited_directory(&nofollow, &mut v, 1, 5));
    assert!(!check_visited_directory(&follow, &mut v, 1, 5));
    assert!(check_visited_directory(&follow, &mut v, 1, 5));
}

#[test]
fn hardlink_cache_reports_prior_presence() {
    let dedup = OptionsBuilder::new().count_hardlinks(false).build();
    let counted = OptionsBuilder::new().count_hardlinks(true).build();
    let mut c = InodeSet::new();
    assert!(!check_hardlink_duplicate(&dedup, &mut c, 1, 9));
    assert!(check_hardlink_duplicate(&dedup, &mut c, 1, 9));
    assert!(!check_hardlink_duplicate(&counted, &mut c, 1, 9));
}

#[test]
fn physical_size_from_blocks() {
    let phys = OptionsBuilder::new().compute_physical(true).build();
    let logical_only = OptionsBuilder::new().compute_physical(false).build();
    assert_eq!(calculate_physical_size(&phys, 100, 2), 1024);
    assert_eq!(calculate_physical_size(&phys, 100, 0), 100);
    assert_eq!(calculate_physical_size(&logical_only, 100, 2), 100);
}

#[test]
fn file_stats_accumulate() {
    let mut s = Stat { logical: 5, physical: 8, files: 1 };
    update_file_stats(&mut s, 10, 12);
    assert_eq!(s.logical, 15);
    assert_eq!(s.physical, 20);
    assert_eq!(s.files, 2);
}

#[test]
fn fast_exclude_depends_on_separators() {
    let plain = OptionsBuilder::new()
        .with_exclude_contains(vec!["cache".to_string(), "tmp".to_string()])
        .build();
    assert!(should_fast_exclude(&plain));
    let pathy = OptionsBuilder::new()
        .with_exclude_contains(vec!["a/b".to_string()])
        .build();
    assert!(!should_fast_exclude(&pathy));
}

#[test]
fn progress_fires_on_period() {
    let opt = OptionsBuilder::new().progress_every(2).build();
    let mut total: u64 = 0;
    assert_eq!(report_file_progress(&opt, &mut total), None);
    assert_eq!(report_file_progress(&opt, &mut total), Some(2));
    assert_eq!(total, 2);
    let off = OptionsBuilder::new().progress_every(0).build();
    assert_eq!(report_file_progress(&off, &mut total), None);
    assert_eq!(total, 2);
}

#[test]
fn builder_overrides_and_defaults() {
    let opt = OptionsBuilder::new().max_depth(3).threads(2).compat_mode(CompatMode::GnuBasic).build();
    assert_eq!(opt.max_depth, 3);
    assert_eq!(opt.threads, 2);
    assert_eq!(opt.active_threads, 2);
    assert_eq!(opt.uring_batch, 128);
    assert!(opt.compute_physical);
    assert!(!opt.count_hardlinks);
    let d = Options::default();
    assert_eq!(d.threads, 4);
    assert_eq!(d.exclude_contains.len(), 3);
}

#[test]
fn recovery_policy_classifies_errnos() {
    let perm = ScanError::SystemCall { path: p(&["x"]), call: "statx".to_string(), errno: 13 };
    let busy = ScanError::SystemCall { path: p(&["x"]), call: "statx".to_string(), errno: 16 };
    let inval = ScanError::InvalidPath { path: p(&["x"]) };
    assert!(matches!(perm.recovery_action(), RecoveryAction::SkipEntry));
    assert!(matches!(busy.recovery_action(), RecoveryAction::Retry));
    assert!(matches!(inval.recovery_action(), RecoveryAction::SkipEntry));
    assert!(perm.is_recoverable());
    assert_eq!(inval.message(), "x: invalid path");
}

#[test]
fn tuner_rate_comparison_is_exact() {
    assert!(rate_improved(106, 1000, 100, 1000));
    assert!(!rate_improved(105, 1000, 100, 1000));
    assert!(!rate_improved(104, 1000, 100, 1000));
    assert!(!rate_improved(10, 1000, 0, 1000));
}

#[test]
fn tuner_batch_steps() {
    assert_eq!(next_uring_batch(128, 1, 0, 0), 64);
    assert_eq!(next_uring_batch(80, 1, 0, 0), 64);
    assert_eq!(next_uring_batch(128, 0, 3_000_000, 1), 96);
    assert_eq!(next_uring_batch(128, 0, 0, 0), 160);
    assert_eq!(next_uring_batch(4090, 0, 0, 0), 4096);
}

#[test]
fn tuner_thread_gate_steps() {
    assert_eq!(next_active_threads(4, 8, 0, 0, 0, true), 5);
    assert_eq!(next_active_threads(4, 8, 1, 0, 0, false), 3);
    assert_eq!(next_active_threads(1, 8, 1, 0, 0, false), 1);
    assert_eq!(next_active_threads(8, 8, 0, 0, 0, true), 8);
}

#[test]
fn tuner_yield_ladder() {
    assert_eq!(yield_step(0), 0);
    assert_eq!(yield_step(3), 16384);
    assert_eq!(next_yield_index(0, true, true), (1, true));
    assert_eq!(next_yield_index(0, true, false), (0, false));
    assert_eq!(next_yield_index(6, true, true), (6, true));
    assert_eq!(next_yield_index(3, false, false), (4, true));
}

fn job(name: &str) -> Job {
    Job { dir: p(&[name]), depth: 0, resume: None }
}

#[test]
fn scheduler_fetch_priority_order() {
    let mut q = WorkQueues {
        local: vec![job("own")],
        high: vec![job("resume")],
        normal: vec![job("child")],
        stealers: vec![vec![job("stolen")]],
        next: 0,
    };
    assert_eq!(q.fetch().unwrap().dir.to_path_string(), "own");
    assert_eq!(q.fetch().unwrap().dir.to_path_string(), "resume");
    assert_eq!(q.fetch().unwrap().dir.to_path_string(), "child");
    assert_eq!(q.fetch().unwrap().dir.to_path_string(), "stolen");
    assert!(q.fetch().is_none());
}

#[test]
fn scheduler_resume_goes_ahead_of_new_work() {
    let mut q = WorkQueues { local: vec![], high: vec![], normal: vec![], stealers: vec![], next: 0 };
    q.enqueue_dir(p(&["new"]), 1);
    q.enqueue_resume(p(&["cont"]), 1, 4096);
    assert_eq!(q.fetch().unwrap().resume, Some(4096));
    assert_eq!(q.fetch().unwrap().dir.to_path_string(), "new");
    assert!(q.fetch().is_none());
}

#[test]
fn strategy_selection_and_effects() {
    assert!(matches!(strategy_for("EXT4"), StrategyKind::Ext4));
    assert!(matches!(strategy_for("nfs4"), StrategyKind::Network));
    assert!(matches!(strategy_for("weirdfs"), StrategyKind::Generic));
    let mut opt = Options::default();
    let report = detect_and_apply("btrfs", &mut opt);
    assert!(!opt.compute_physical);
    assert!(report.recommend_logical_only);
    assert_eq!(report.strategy, "btrfs");
    assert_eq!(report.changes[0], "compute_physical=false");
    let mut opt2 = Options::default();
    let report2 = detect_and_apply("drvfs", &mut opt2);
    assert!(report2.disable_uring);
    assert_eq!(report2.recommended_threads, Some(4));
    assert!(eq_ignore_ascii_case("FuSe", "fuse"));
}

#[test]
fn classify_basic_categories() {
    assert_eq!(basic_category_from_ext("JPG"), "image");
    assert_eq!(basic_category_from_ext("rs"), "source");
    assert_eq!(basic_category_from_ext("tar"), "archive");
    assert_eq!(basic_category_from_ext("xyz"), "other");
}

#[test]
fn classify_deep_sniffs_content() {
    // JPEG magic: the sniffer must look at the bytes, not echo them.
    let jpeg = [0xFFu8, 0xD8, 0xFF, 0xAA];
    assert_eq!(deep_category_from_bytes(&jpeg), "image");
    let nothing = [0u8, 1, 2, 3];
    assert_eq!(deep_category_from_bytes(&nothing), "other");
}

#[test]
fn classify_statistics_tally() {
    let mut t = TypeStatistics::new();
    t.add(&p(&["r", "a.rs"]), "rs", "source", 10);
    t.add(&p(&["r", "b.rs"]), "rs", "source", 30);
    t.add(&p(&["r", "c.png"]), "png", "image", 5);
    assert_eq!(t.by_extension.len(), 2);
    assert_eq!(t.by_category.len(), 2);
    let rs = t.by_extension.iter().find(|r| r.name == "rs").unwrap();
    assert_eq!(rs.stats.files, 2);
    assert_eq!(rs.stats.bytes, 40);
    // Largest files are kept in ascending size order.
    let sizes: Vec<u64> = t.top_consumers.iter().map(|r| r.size).collect();
    assert_eq!(sizes, vec![5, 10, 30]);
}

#[test]
fn buffer_guard_hands_out_sized_buffers() {
    let mut g = BufferGuard::borrow(128);
    assert_eq!(g.len(), 128);
    assert!(!g.is_empty());
    g.as_mut_slice()[0] = 7;
    assert_eq!(g.buf[0], 7);
}

#[test]
fn batch_collector_round_trip() {
    let mut c = BatchStatCollector::new(3);
    c.add(b"a".to_vec(), 8, false);
    c.add(b"b".to_vec(), 8, false);
    assert!(!c.is_full());
    c.process(vec![Some((10, 512)), None]);
    let r = c.take_results();
    assert_eq!(r, vec![Some((10, 512)), None]);
    c.clear();
    assert!(!c.is_full());
}

#[test]
fn ring_window_adapts() {
    // A submission failure shrinks the window, floor one.
    assert_eq!(next_ring_window(8, 64, 8, 1, 10, 2), (7, 0));
    assert_eq!(next_ring_window(1, 64, 1, 5, 0, 0), (1, 0));
    // Three clean full-window iterations grow it by one.
    assert_eq!(next_ring_window(8, 64, 8, 0, 10, 0), (8, 1));
    assert_eq!(next_ring_window(8, 64, 8, 0, 10, 1), (8, 2));
    assert_eq!(next_ring_window(8, 64, 8, 0, 10, 2), (9, 0));
    // At the ring depth the window stays.
    assert_eq!(next_ring_window(64, 64, 64, 0, 10, 2), (64, 0));
    // An idle iteration resets the streak.
    assert_eq!(next_ring_window(8, 64, 3, 0, 10, 2), (8, 0));
}

#[test]
fn multi_root_plan_selection() {
    assert_eq!(auto_scan_choice(HeuristicsMode::OuterOnly, 1, 8, 8, 0), MultiRootPlan::OuterParallel);
    assert_eq!(auto_scan_choice(HeuristicsMode::InnerOnly, 9, 8, 8, 0), MultiRootPlan::InnerSequential);
    assert_eq!(auto_scan_choice(HeuristicsMode::Auto, 1, 8, 8, 0), MultiRootPlan::InnerSequential);
    assert_eq!(auto_scan_choice(HeuristicsMode::Auto, 8, 8, 8, 100), MultiRootPlan::OuterParallel);
    assert_eq!(auto_scan_choice(HeuristicsMode::Auto, 8, 8, 8, 5000), MultiRootPlan::InnerSequential);
    assert_eq!(auto_scan_choice(HeuristicsMode::Auto, 2, 16, 8, 100), MultiRootPlan::InnerSequential);
}

#[test]
fn thread_split_over_roots() {
    assert_eq!(threads_per_root(8, 4, 2), 4);
    assert_eq!(threads_per_root(8, 4, 16), 2);
    assert_eq!(threads_per_root(1, 4, 2), 1);
    assert_eq!(threads_per_root(2, 0, 0), 2);
}

#[test]
fn merge_adds_maps_pointwise() {
    let mut a = hyperdu_core::stat_map::StatMap::new();
    a.add_assign(&p(&["r"]), Stat { logical: 10, physical: 12, files: 1 });
    a.add_assign(&p(&["r", "d"]), Stat { logical: 5, physical: 5, files: 1 });
    let mut b = hyperdu_core::stat_map::StatMap::new();
    b.add_assign(&p(&["r"]), Stat { logical: 7, physical: 8, files: 2 });
    b.add_assign(&p(&["r", "e"]), Stat { logical: 3, physical: 3, files: 1 });
    a.merge_add(&b);
    let r = a.get(&p(&["r"])).unwrap();
    assert_eq!((r.logical, r.physical, r.files), (17, 20, 3));
    let d = a.get(&p(&["r", "d"])).unwrap();
    assert_eq!((d.logical, d.physical, d.files), (5, 5, 1));
    let e = a.get(&p(&["r", "e"])).unwrap();
    assert_eq!((e.logical, e.physical, e.files), (3, 3, 1));
}

#[test]
fn dirent_fields_decode_by_offset() {
    // One synthetic record at offset 4: ino(8) d_off(8) reclen(2) type(1) name...
    let mut buf = vec![0u8; 4];
    buf.extend_from_slice(&[0; 8]); // ino
    buf.extend_from_slice(&0x0102030405060708u64.to_le_bytes()); // d_off
    buf.extend_from_slice(&24u16.to_le_bytes()); // reclen
    buf.push(8); // DT_REG
    buf.extend_from_slice(b"abc\0\0"); // name + padding
    let reclen = dirent_reclen(&buf, 4);
    assert_eq!(reclen, 24);
    assert_eq!(dirent_dtype(&buf, 4), 8);
    assert_eq!(dirent_d_off(&buf, 4), 0x0102030405060708);
    assert_eq!(dirent_name_slice(&buf, 4, reclen), b"abc");
}

#[test]
fn ring_pipeline_slots_and_window() {
    let mut ring = RingState::new(4, 2);
    assert!(ring.drained());
    ring.push_pending(BatchItem { name: b"a".to_vec(), d_type: 8, is_dir: false });
    ring.push_pending(BatchItem { name: b"b".to_vec(), d_type: 8, is_dir: false });
    ring.push_pending(BatchItem { name: b"c".to_vec(), d_type: 8, is_dir: false });
    let (s1, i1) = ring.submit_one().unwrap();
    assert_eq!(i1.name, b"a");
    let (s2, i2) = ring.submit_one().unwrap();
    assert_eq!(i2.name, b"b");
    assert_ne!(s1, s2);
    // The window (2) is full: no third submission.
    assert!(ring.submit_one().is_none());
    assert!(ring.complete(s1));
    assert!(!ring.complete(s1));
    let (s3, i3) = ring.submit_one().unwrap();
    assert_eq!(i3.name, b"c");
    assert_eq!(s3, s1);
    assert!(ring.complete(s2));
    assert!(ring.complete(s3));
    assert!(ring.drained());
    // Three clean fully-used iterations grow the window.
    ring.end_iteration(0, 1);
    assert_eq!(ring.window, 2);
}

#[test]
fn system_call_message_carries_errno() {
    let e = ScanError::SystemCall { path: p(&["r", "f"]), call: "statx".to_string(), errno: 13 };
    assert_eq!(e.message(), "r/f: statx failed (errno=13)");
    let neg = ScanError::SystemCall { path: p(&["r"]), call: "open".to_string(), errno: -1 };
    assert_eq!(neg.message(), "r: open failed (errno=-1)");
}

#[test]
fn filter_compilation_success_is_visible() {
    let ok = OptionsBuilder::new()
        .with_exclude_regex(vec![".*\\.tmp$".to_string()])
        .with_exclude_glob(vec!["**/d/**".to_string()])
        .build();
    assert!(ok.exclude_ac.is_some());
    assert!(ok.exclude_regex_set.is_some());
    assert!(ok.exclude_glob_set.is_some());
    let bad = OptionsBuilder::new().with_exclude_regex(vec!["(".to_string()]).build();
    assert!(bad.exclude_regex_set.is_none());
}
