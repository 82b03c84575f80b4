//! Scan configuration.
//!
//! [`Options`] is built once, has its filter layers compiled once, and is
//! then read-only for the whole scan. The live tuning knobs
//! (`dir_yield_every`, `uring_batch`, `uring_sq_depth`, `active_threads`)
//! are held here as plain words; the embedding that runs workers
//! concurrently keeps them in atomics and mirrors values in and out.

use vstd::prelude::*;

use crate::filters::{
    ac_builds, ac_pats, glob_builder_pats, glob_ok_pats, glob_set_builds, glob_set_pats,
    pats_view, regex_set_builds, regex_set_pats,
};
use crate::{CompatMode, HeuristicsMode};

verus! {

/// The scan configuration: filter lists and their compiled forms, limits,
/// policy switches and tuning knobs.
pub struct Options {
    pub exclude_contains: Vec<String>,
    pub exclude_regex: Vec<String>,
    pub exclude_glob: Vec<String>,
    /// Depth cap; 0 means unlimited.
    pub max_depth: u32,
    /// Files below this many logical bytes are not counted.
    pub min_file_size: u64,
    pub follow_links: bool,
    pub threads: usize,
    /// Progress notification period in files; 0 disables progress.
    pub progress_every: u64,
    /// When off, the logical size is used as the physical size.
    pub compute_physical: bool,
    /// Entries a worker may take from one directory before yielding; 0
    /// disables yielding.
    pub dir_yield_every: usize,
    /// Fabricate a nominal file size instead of probing, where permitted.
    pub approximate_sizes: bool,
    pub disable_uring: bool,
    /// Runtime-tunable count of workers allowed to fetch jobs.
    pub active_threads: usize,
    pub uring_batch: usize,
    pub uring_sq_depth: usize,
    pub exclude_ac: Option<aho_corasick::AhoCorasick>,
    pub exclude_regex_set: Option<regex::RegexSet>,
    pub exclude_glob_set: Option<globset::GlobSet>,
    pub compat_mode: CompatMode,
    /// When on, hardlinked copies count separately; default off dedups.
    pub count_hardlinks: bool,
    pub one_file_system: bool,
    pub tune_enabled: bool,
    pub tune_interval_ms: u64,
    pub heuristics_mode: HeuristicsMode,
    pub prefer_inner_rayon: bool,
    pub win_allow_handle: bool,
    pub win_handle_sample_every: u64,
}

/// The two options agree on everything but the compiled filter sets.
pub open spec fn same_core_config(a: Options, b: Options) -> bool {
    &&& a.exclude_contains@ == b.exclude_contains@
    &&& a.exclude_regex@ == b.exclude_regex@
    &&& a.exclude_glob@ == b.exclude_glob@
    &&& a.max_depth == b.max_depth
    &&& a.min_file_size == b.min_file_size
    &&& a.follow_links == b.follow_links
    &&& a.threads == b.threads
    &&& a.progress_every == b.progress_every
    &&& a.compute_physical == b.compute_physical
    &&& a.dir_yield_every == b.dir_yield_every
    &&& a.approximate_sizes == b.approximate_sizes
    &&& a.disable_uring == b.disable_uring
    &&& a.active_threads == b.active_threads
    &&& a.uring_batch == b.uring_batch
    &&& a.uring_sq_depth == b.uring_sq_depth
    &&& a.compat_mode == b.compat_mode
    &&& a.count_hardlinks == b.count_hardlinks
    &&& a.one_file_system == b.one_file_system
    &&& a.tune_enabled == b.tune_enabled
    &&& a.tune_interval_ms == b.tune_interval_ms
    &&& a.heuristics_mode == b.heuristics_mode
    &&& a.prefer_inner_rayon == b.prefer_inner_rayon
    &&& a.win_allow_handle == b.win_allow_handle
    &&& a.win_handle_sample_every == b.win_handle_sample_every
}

/// The compiled filter sets agree with the pattern lists: the automaton
/// and the regex set hold exactly their lists, the glob set exactly the
/// patterns that parse as globs; an empty list compiles to no set, and
/// a non-empty list whose build the matcher crate accepts compiles to a
/// set — compilation cannot be quietly skipped.
pub open spec fn filters_compiled(o: Options) -> bool {
    &&& match o.exclude_ac {
        Some(a) => ac_pats(a) == pats_view(o.exclude_contains@),
        None => true,
    }
    &&& o.exclude_contains@.len() == 0 ==> o.exclude_ac is None
    &&& o.exclude_contains@.len() > 0 && ac_builds(pats_view(o.exclude_contains@))
        ==> o.exclude_ac is Some
    &&& match o.exclude_regex_set {
        Some(rs) => regex_set_pats(rs) == pats_view(o.exclude_regex@),
        None => true,
    }
    &&& o.exclude_regex@.len() == 0 ==> o.exclude_regex_set is None
    &&& o.exclude_regex@.len() > 0 && regex_set_builds(pats_view(o.exclude_regex@))
        ==> o.exclude_regex_set is Some
    &&& match o.exclude_glob_set {
        Some(gs) => glob_set_pats(gs) == glob_ok_pats(pats_view(o.exclude_glob@)),
        None => true,
    }
    &&& o.exclude_glob@.len() == 0 ==> o.exclude_glob_set is None
    &&& o.exclude_glob@.len() > 0 && glob_set_builds(glob_ok_pats(pats_view(o.exclude_glob@)))
        ==> o.exclude_glob_set is Some
}

/// The fixed fallback configuration: no filters compiled, no limits, four
/// workers, physical sizes on, hardlinks deduplicated.
pub open spec fn default_options(o: Options) -> bool {
    &&& pats_view(o.exclude_contains@) == seq![".git"@, "node_modules"@, "target"@]
    &&& o.exclude_regex@ == Seq::<String>::empty()
    &&& o.exclude_glob@ == Seq::<String>::empty()
    &&& o.max_depth == 0u32
    &&& o.min_file_size == 0u64
    &&& o.follow_links == false
    &&& o.threads == 4usize
    &&& o.progress_every == 0u64
    &&& o.compute_physical == true
    &&& o.dir_yield_every == 0usize
    &&& o.approximate_sizes == false
    &&& o.disable_uring == false
    &&& o.active_threads == 0usize
    &&& o.uring_batch == 128usize
    &&& o.uring_sq_depth == 256usize
    &&& o.exclude_ac is None
    &&& o.exclude_regex_set is None
    &&& o.exclude_glob_set is None
    &&& o.compat_mode == CompatMode::HyperDU
    &&& o.count_hardlinks == false
    &&& o.one_file_system == false
    &&& o.tune_enabled == false
    &&& o.tune_interval_ms == 800u64
    &&& o.heuristics_mode == HeuristicsMode::Auto
    &&& o.prefer_inner_rayon == false
    &&& o.win_allow_handle == false
    &&& o.win_handle_sample_every == 64u64
}

impl Default for Options {
    /// The fallback configuration, filters not yet compiled.
    fn default() -> (r: Options)
        ensures
            default_options(r),
    {
        let mut contains: Vec<String> = Vec::new();
        contains.push(String::from_str(".git"));
        contains.push(String::from_str("node_modules"));
        contains.push(String::from_str("target"));
        proof {
            assert(pats_view(contains@) =~= seq![".git"@, "node_modules"@, "target"@]);
        }
        Options {
            exclude_contains: contains,
            exclude_regex: Vec::new(),
            exclude_glob: Vec::new(),
            max_depth: 0,
            min_file_size: 0,
            follow_links: false,
            threads: 4,
            progress_every: 0,
            compute_physical: true,
            dir_yield_every: 0,
            approximate_sizes: false,
            disable_uring: false,
            active_threads: 0,
            uring_batch: 128,
            uring_sq_depth: 256,
            exclude_ac: None,
            exclude_regex_set: None,
            exclude_glob_set: None,
            compat_mode: CompatMode::HyperDU,
            count_hardlinks: false,
            one_file_system: false,
            tune_enabled: false,
            tune_interval_ms: 800,
            heuristics_mode: HeuristicsMode::Auto,
            prefer_inner_rayon: false,
            win_allow_handle: false,
            win_handle_sample_every: 64,
        }
    }
}

/// Compile the three pattern lists into their matcher sets, in place.
pub fn compile_filters_in_place(opt: &mut Options)
    ensures
        same_core_config(*old(opt), *final(opt)),
        filters_compiled(*final(opt)),
{
    if opt.exclude_contains.len() > 0 {
        opt.exclude_ac = crate::filters::ac_new(&opt.exclude_contains);
    } else {
        opt.exclude_ac = None;
    }
    if opt.exclude_regex.len() > 0 {
        opt.exclude_regex_set = crate::filters::regex_set_new(&opt.exclude_regex);
    } else {
        opt.exclude_regex_set = None;
    }
    if opt.exclude_glob.len() > 0 {
        let mut b = crate::filters::glob_builder_new();
        proof {
            assert(glob_ok_pats(pats_view(opt.exclude_glob@).subrange(0, 0)) =~= Seq::<
                Seq<char>,
            >::empty()) by {
                reveal(Seq::filter);
                assert(pats_view(opt.exclude_glob@).subrange(0, 0) =~= Seq::<Seq<char>>::empty());
            }
        }
        let mut i: usize = 0;
        while i < opt.exclude_glob.len()
            invariant
                i <= opt.exclude_glob.len(),
                glob_builder_pats(b) == glob_ok_pats(
                    pats_view(opt.exclude_glob@).subrange(0, i as int),
                ),
            decreases opt.exclude_glob.len() - i,
        {
            let ghost pref = pats_view(opt.exclude_glob@).subrange(0, i as int);
            let ghost pref1 = pats_view(opt.exclude_glob@).subrange(0, i + 1 as int);
            proof {
                assert(pats_view(opt.exclude_glob@)[i as int] == opt.exclude_glob@[i as int]@);
                assert(pref1.drop_last() =~= pref);
                assert(pref1.last() == opt.exclude_glob@[i as int]@);
            }
            match crate::filters::glob_new(opt.exclude_glob[i].as_str()) {
                Some(g) => {
                    crate::filters::glob_builder_add(&mut b, g);
                    proof {
                        reveal(Seq::filter);
                        assert(glob_builder_pats(b) == glob_ok_pats(pref1));
                    }
                },
                None => {
                    proof {
                        reveal(Seq::filter);
                        assert(glob_builder_pats(b) == glob_ok_pats(pref1));
                    }
                },
            }
            i = i + 1;
        }
        proof {
            assert(pats_view(opt.exclude_glob@).subrange(
                0,
                opt.exclude_glob@.len() as int,
            ) =~= pats_view(opt.exclude_glob@));
        }
        opt.exclude_glob_set = crate::filters::glob_builder_build(&b);
    } else {
        opt.exclude_glob_set = None;
    }
}


/// Pattern-filter configuration group.
pub struct FilterConfig {
    pub exclude_contains: Vec<String>,
    pub exclude_regex: Vec<String>,
    pub exclude_glob: Vec<String>,
    pub max_depth: Option<u32>,
    pub min_file_size: Option<u64>,
}

impl Default for FilterConfig {
    /// No patterns and no limits.
    fn default() -> (r: FilterConfig)
        ensures
            r.exclude_contains@ == Seq::<String>::empty(),
            r.exclude_regex@ == Seq::<String>::empty(),
            r.exclude_glob@ == Seq::<String>::empty(),
            r.max_depth is None,
            r.min_file_size is None,
    {
        FilterConfig {
            exclude_contains: Vec::new(),
            exclude_regex: Vec::new(),
            exclude_glob: Vec::new(),
            max_depth: None,
            min_file_size: None,
        }
    }
}

/// Throughput-related configuration group.
pub struct PerformanceConfig {
    pub threads: Option<usize>,
    pub compute_physical: Option<bool>,
    pub approximate_sizes: Option<bool>,
    pub one_file_system: Option<bool>,
    pub follow_links: Option<bool>,
    pub prefer_inner_rayon: Option<bool>,
    pub disable_uring: Option<bool>,
}

impl Default for PerformanceConfig {
    /// Nothing overridden.
    fn default() -> (r: PerformanceConfig)
        ensures
            r == (PerformanceConfig {
                threads: None,
                compute_physical: None,
                approximate_sizes: None,
                one_file_system: None,
                follow_links: None,
                prefer_inner_rayon: None,
                disable_uring: None,
            }),
    {
        PerformanceConfig {
            threads: None,
            compute_physical: None,
            approximate_sizes: None,
            one_file_system: None,
            follow_links: None,
            prefer_inner_rayon: None,
            disable_uring: None,
        }
    }
}

/// Progress-reporting configuration group.
pub struct OutputConfig {
    pub progress_every: Option<u64>,
}

impl Default for OutputConfig {
    /// Nothing overridden.
    fn default() -> (r: OutputConfig)
        ensures
            r == (OutputConfig { progress_every: None }),
    {
        OutputConfig { progress_every: None }
    }
}

/// Compatibility configuration group.
pub struct CompatConfig {
    pub compat_mode: Option<CompatMode>,
    pub count_hardlinks: Option<bool>,
}

impl Default for CompatConfig {
    /// Nothing overridden.
    fn default() -> (r: CompatConfig)
        ensures
            r == (CompatConfig { compat_mode: None, count_hardlinks: None }),
    {
        CompatConfig { compat_mode: None, count_hardlinks: None }
    }
}

/// Adaptive-tuner configuration group.
pub struct TuningConfig {
    pub tune_enabled: Option<bool>,
    pub tune_interval_ms: Option<u64>,
}

impl Default for TuningConfig {
    /// Nothing overridden.
    fn default() -> (r: TuningConfig)
        ensures
            r == (TuningConfig { tune_enabled: None, tune_interval_ms: None }),
    {
        TuningConfig { tune_enabled: None, tune_interval_ms: None }
    }
}

/// Windows-specific configuration group.
pub struct WindowsConfig {
    pub win_allow_handle: Option<bool>,
    pub win_handle_sample_every: Option<u64>,
}

impl Default for WindowsConfig {
    /// Nothing overridden.
    fn default() -> (r: WindowsConfig)
        ensures
            r == (WindowsConfig { win_allow_handle: None, win_handle_sample_every: None }),
    {
        WindowsConfig { win_allow_handle: None, win_handle_sample_every: None }
    }
}

/// Step-by-step construction of an [`Options`] value; unset fields fall
/// back to the defaults when built.
pub struct OptionsBuilder {
    pub exclude_contains: Vec<String>,
    pub exclude_regex: Vec<String>,
    pub exclude_glob: Vec<String>,
    pub max_depth: Option<u32>,
    pub min_file_size: Option<u64>,
    pub follow_links: Option<bool>,
    pub threads: Option<usize>,
    pub compute_physical: Option<bool>,
    pub approximate_sizes: Option<bool>,
    pub one_file_system: Option<bool>,
    pub progress_every: Option<u64>,
    pub compat_mode: Option<CompatMode>,
    pub count_hardlinks: Option<bool>,
    pub tune_enabled: Option<bool>,
    pub tune_interval_ms: Option<u64>,
    pub prefer_inner_rayon: Option<bool>,
    pub disable_uring: Option<bool>,
    pub win_allow_handle: Option<bool>,
    pub win_handle_sample_every: Option<u64>,
}

/// The builder with no field set.
pub open spec fn empty_builder(b: OptionsBuilder) -> bool {
    &&& b.exclude_contains@ == Seq::<String>::empty()
    &&& b.exclude_regex@ == Seq::<String>::empty()
    &&& b.exclude_glob@ == Seq::<String>::empty()
    &&& b.max_depth is None
    &&& b.min_file_size is None
    &&& b.follow_links is None
    &&& b.threads is None
    &&& b.compute_physical is None
    &&& b.approximate_sizes is None
    &&& b.one_file_system is None
    &&& b.progress_every is None
    &&& b.compat_mode is None
    &&& b.count_hardlinks is None
    &&& b.tune_enabled is None
    &&& b.tune_interval_ms is None
    &&& b.prefer_inner_rayon is None
    &&& b.disable_uring is None
    &&& b.win_allow_handle is None
    &&& b.win_handle_sample_every is None
}

impl Default for OptionsBuilder {
    /// The builder with no field set.
    fn default() -> (r: OptionsBuilder)
        ensures
            empty_builder(r),
    {
        OptionsBuilder {
            exclude_contains: Vec::new(),
            exclude_regex: Vec::new(),
            exclude_glob: Vec::new(),
            max_depth: None,
            min_file_size: None,
            follow_links: None,
            threads: None,
            compute_physical: None,
            approximate_sizes: None,
            one_file_system: None,
            progress_every: None,
            compat_mode: None,
            count_hardlinks: None,
            tune_enabled: None,
            tune_interval_ms: None,
            prefer_inner_rayon: None,
            disable_uring: None,
            win_allow_handle: None,
            win_handle_sample_every: None,
        }
    }
}

/// `Options` built from a builder: every unset knob takes the default,
/// the pattern lists replace the default lists only when non-empty, the
/// filters are compiled, and the active-worker gate opens fully.
pub open spec fn builds_to(b: OptionsBuilder, o: Options) -> bool {
    &&& pats_view(o.exclude_contains@) == (if b.exclude_contains@.len() > 0 {
        pats_view(b.exclude_contains@)
    } else {
        seq![".git"@, "node_modules"@, "target"@]
    })
    &&& pats_view(o.exclude_regex@) == (if b.exclude_regex@.len() > 0 {
        pats_view(b.exclude_regex@)
    } else {
        Seq::<Seq<char>>::empty()
    })
    &&& pats_view(o.exclude_glob@) == (if b.exclude_glob@.len() > 0 {
        pats_view(b.exclude_glob@)
    } else {
        Seq::<Seq<char>>::empty()
    })
    &&& o.max_depth == (match b.max_depth { Some(v) => v, None => 0u32 })
    &&& o.min_file_size == (match b.min_file_size { Some(v) => v, None => 0u64 })
    &&& o.follow_links == (match b.follow_links { Some(v) => v, None => false })
    &&& o.threads == (match b.threads { Some(v) => v, None => 4usize })
    &&& o.compute_physical == (match b.compute_physical { Some(v) => v, None => true })
    &&& o.approximate_sizes == (match b.approximate_sizes { Some(v) => v, None => false })
    &&& o.one_file_system == (match b.one_file_system { Some(v) => v, None => false })
    &&& o.progress_every == (match b.progress_every { Some(v) => v, None => 0u64 })
    &&& o.compat_mode == (match b.compat_mode { Some(v) => v, None => CompatMode::HyperDU })
    &&& o.count_hardlinks == (match b.count_hardlinks { Some(v) => v, None => false })
    &&& o.tune_enabled == (match b.tune_enabled { Some(v) => v, None => false })
    &&& o.tune_interval_ms == (match b.tune_interval_ms { Some(v) => v, None => 800u64 })
    &&& o.prefer_inner_rayon == (match b.prefer_inner_rayon { Some(v) => v, None => false })
    &&& o.disable_uring == (match b.disable_uring { Some(v) => v, None => false })
    &&& o.win_allow_handle == (match b.win_allow_handle { Some(v) => v, None => false })
    &&& o.win_handle_sample_every == (match b.win_handle_sample_every {
        Some(v) => v,
        None => 64u64,
    })
    &&& o.active_threads == (if o.threads == 0usize { 1usize } else { o.threads })
    &&& o.dir_yield_every == 0usize
    &&& o.uring_batch == 128usize
    &&& o.uring_sq_depth == 256usize
    &&& o.heuristics_mode == HeuristicsMode::Auto
    &&& filters_compiled(o)
}

impl OptionsBuilder {
    /// The builder with no field set.
    pub fn new() -> (r: OptionsBuilder)
        ensures
            empty_builder(r),
    {
        OptionsBuilder::default()
    }

    /// Replace the substring pattern list.
    pub fn with_exclude_contains(self, list: Vec<String>) -> (r: OptionsBuilder)
        ensures
            r == (OptionsBuilder { exclude_contains: list, ..self }),
    {
        OptionsBuilder { exclude_contains: list, ..self }
    }

    /// Replace the regular-expression pattern list.
    pub fn with_exclude_regex(self, list: Vec<String>) -> (r: OptionsBuilder)
        ensures
            r == (OptionsBuilder { exclude_regex: list, ..self }),
    {
        OptionsBuilder { exclude_regex: list, ..self }
    }

    /// Replace the glob pattern list.
    pub fn with_exclude_glob(self, list: Vec<String>) -> (r: OptionsBuilder)
        ensures
            r == (OptionsBuilder { exclude_glob: list, ..self }),
    {
        OptionsBuilder { exclude_glob: list, ..self }
    }

    /// Take every set member of a filter group; non-empty lists replace.
    pub fn with_filters(self, cfg: FilterConfig) -> (r: OptionsBuilder)
        ensures
            r.exclude_contains@ == (if cfg.exclude_contains@.len() > 0 {
                cfg.exclude_contains@
            } else {
                self.exclude_contains@
            }),
            r.exclude_regex@ == (if cfg.exclude_regex@.len() > 0 {
                cfg.exclude_regex@
            } else {
                self.exclude_regex@
            }),
            r.exclude_glob@ == (if cfg.exclude_glob@.len() > 0 {
                cfg.exclude_glob@
            } else {
                self.exclude_glob@
            }),
            r.max_depth == (if cfg.max_depth is Some {
                cfg.max_depth
            } else {
                self.max_depth
            }),
            r.min_file_size == (if cfg.min_file_size is Some {
                cfg.min_file_size
            } else {
                self.min_file_size
            }),
            r.follow_links == self.follow_links,
            r.threads == self.threads,
            r.compute_physical == self.compute_physical,
            r.approximate_sizes == self.approximate_sizes,
            r.one_file_system == self.one_file_system,
            r.progress_every == self.progress_every,
            r.compat_mode == self.compat_mode,
            r.count_hardlinks == self.count_hardlinks,
            r.tune_enabled == self.tune_enabled,
            r.tune_interval_ms == self.tune_interval_ms,
            r.prefer_inner_rayon == self.prefer_inner_rayon,
            r.disable_uring == self.disable_uring,
            r.win_allow_handle == self.win_allow_handle,
            r.win_handle_sample_every == self.win_handle_sample_every,
    {
        let mut b = self;
        if cfg.exclude_contains.len() > 0 {
            b.exclude_contains = cfg.exclude_contains;
        }
        if cfg.exclude_regex.len() > 0 {
            b.exclude_regex = cfg.exclude_regex;
        }
        if cfg.exclude_glob.len() > 0 {
            b.exclude_glob = cfg.exclude_glob;
        }
        if cfg.max_depth.is_some() {
            b.max_depth = cfg.max_depth;
        }
        if cfg.min_file_size.is_some() {
            b.min_file_size = cfg.min_file_size;
        }
        b
    }

    /// Set the depth cap; 0 means unlimited.
    pub fn max_depth(self, v: u32) -> (r: OptionsBuilder)
        ensures
            r == (OptionsBuilder { max_depth: Some(v), ..self }),
    {
        OptionsBuilder { max_depth: Some(v), ..self }
    }

    /// Set the minimum counted file size.
    pub fn min_file_size(self, v: u64) -> (r: OptionsBuilder)
        ensures
            r == (OptionsBuilder { min_file_size: Some(v), ..self }),
    {
        OptionsBuilder { min_file_size: Some(v), ..self }
    }

    /// Set whether symlinks are followed.
    pub fn follow_links(self, v: bool) -> (r: OptionsBuilder)
        ensures
            r == (OptionsBuilder { follow_links: Some(v), ..self }),
    {
        OptionsBuilder { follow_links: Some(v), ..self }
    }

    /// Set the worker count.
    pub fn threads(self, v: usize) -> (r: OptionsBuilder)
        ensures
            r == (OptionsBuilder { threads: Some(v), ..self }),
    {
        OptionsBuilder { threads: Some(v), ..self }
    }

    /// Set whether physical sizes are computed.
    pub fn compute_physical(self, v: bool) -> (r: OptionsBuilder)
        ensures
            r == (OptionsBuilder { compute_physical: Some(v), ..self }),
    {
        OptionsBuilder { compute_physical: Some(v), ..self }
    }

    /// Set whether sizes may be approximated.
    pub fn approximate_sizes(self, v: bool) -> (r: OptionsBuilder)
        ensures
            r == (OptionsBuilder { approximate_sizes: Some(v), ..self }),
    {
        OptionsBuilder { approximate_sizes: Some(v), ..self }
    }

    /// Set whether the scan stays on the root's device.
    pub fn one_file_system(self, v: bool) -> (r: OptionsBuilder)
        ensures
            r == (OptionsBuilder { one_file_system: Some(v), ..self }),
    {
        OptionsBuilder { one_file_system: Some(v), ..self }
    }

    /// Take every set member of a performance group.
    pub fn with_performance(self, cfg: PerformanceConfig) -> (r: OptionsBuilder)
        ensures
            r.threads == (if cfg.threads is Some { cfg.threads } else { self.threads }),
            r.compute_physical == (if cfg.compute_physical is Some {
                cfg.compute_physical
            } else {
                self.compute_physical
            }),
            r.approximate_sizes == (if cfg.approximate_sizes is Some {
                cfg.approximate_sizes
            } else {
                self.approximate_sizes
            }),
            r.one_file_system == (if cfg.one_file_system is Some {
                cfg.one_file_system
            } else {
                self.one_file_system
            }),
            r.follow_links == (if cfg.follow_links is Some {
                cfg.follow_links
            } else {
                self.follow_links
            }),
            r.prefer_inner_rayon == (if cfg.prefer_inner_rayon is Some {
                cfg.prefer_inner_rayon
            } else {
                self.prefer_inner_rayon
            }),
            r.disable_uring == (if cfg.disable_uring is Some {
                cfg.disable_uring
            } else {
                self.disable_uring
            }),
            r.exclude_contains@ == self.exclude_contains@,
            r.exclude_regex@ == self.exclude_regex@,
            r.exclude_glob@ == self.exclude_glob@,
            r.max_depth == self.max_depth,
            r.min_file_size == self.min_file_size,
            r.progress_every == self.progress_every,
            r.compat_mode == self.compat_mode,
            r.count_hardlinks == self.count_hardlinks,
            r.tune_enabled == self.tune_enabled,
            r.tune_interval_ms == self.tune_interval_ms,
            r.win_allow_handle == self.win_allow_handle,
            r.win_handle_sample_every == self.win_handle_sample_every,
    {
        let mut b = self;
        if cfg.threads.is_some() {
            b.threads = cfg.threads;
        }
        if cfg.compute_physical.is_some() {
            b.compute_physical = cfg.compute_physical;
        }
        if cfg.approximate_sizes.is_some() {
            b.approximate_sizes = cfg.approximate_sizes;
        }
        if cfg.one_file_system.is_some() {
            b.one_file_system = cfg.one_file_system;
        }
        if cfg.follow_links.is_some() {
            b.follow_links = cfg.follow_links;
        }
        if cfg.prefer_inner_rayon.is_some() {
            b.prefer_inner_rayon = cfg.prefer_inner_rayon;
        }
        if cfg.disable_uring.is_some() {
            b.disable_uring = cfg.disable_uring;
        }
        b
    }

    /// Set the progress notification period.
    pub fn progress_every(self, n: u64) -> (r: OptionsBuilder)
        ensures
            r == (OptionsBuilder { progress_every: Some(n), ..self }),
    {
        OptionsBuilder { progress_every: Some(n), ..self }
    }

    /// Take every set member of an output group.
    pub fn with_output(self, cfg: OutputConfig) -> (r: OptionsBuilder)
        ensures
            r == (OptionsBuilder {
                progress_every: if cfg.progress_every is Some {
                    cfg.progress_every
                } else {
                    self.progress_every
                },
                ..self
            }),
    {
        let mut b = self;
        if cfg.progress_every.is_some() {
            b.progress_every = cfg.progress_every;
        }
        b
    }

    /// Set the compatibility mode.
    pub fn compat_mode(self, m: CompatMode) -> (r: OptionsBuilder)
        ensures
            r == (OptionsBuilder { compat_mode: Some(m), ..self }),
    {
        OptionsBuilder { compat_mode: Some(m), ..self }
    }

    /// Set whether hardlinked copies count separately.
    pub fn count_hardlinks(self, v: bool) -> (r: OptionsBuilder)
        ensures
            r == (OptionsBuilder { count_hardlinks: Some(v), ..self }),
    {
        OptionsBuilder { count_hardlinks: Some(v), ..self }
    }

    /// Take every set member of a compatibility group.
    pub fn with_compat(self, cfg: CompatConfig) -> (r: OptionsBuilder)
        ensures
            r == (OptionsBuilder {
                compat_mode: if cfg.compat_mode is Some {
                    cfg.compat_mode
                } else {
                    self.compat_mode
                },
                count_hardlinks: if cfg.count_hardlinks is Some {
                    cfg.count_hardlinks
                } else {
                    self.count_hardlinks
                },
                ..self
            }),
    {
        let mut b = self;
        if cfg.compat_mode.is_some() {
            b.compat_mode = cfg.compat_mode;
        }
        if cfg.count_hardlinks.is_some() {
            b.count_hardlinks = cfg.count_hardlinks;
        }
        b
    }

    /// Take every set member of a tuning group.
    pub fn with_tuning(self, cfg: TuningConfig) -> (r: OptionsBuilder)
        ensures
            r == (OptionsBuilder {
                tune_enabled: if cfg.tune_enabled is Some {
                    cfg.tune_enabled
                } else {
                    self.tune_enabled
                },
                tune_interval_ms: if cfg.tune_interval_ms is Some {
                    cfg.tune_interval_ms
                } else {
                    self.tune_interval_ms
                },
                ..self
            }),
    {
        let mut b = self;
        if cfg.tune_enabled.is_some() {
            b.tune_enabled = cfg.tune_enabled;
        }
        if cfg.tune_interval_ms.is_some() {
            b.tune_interval_ms = cfg.tune_interval_ms;
        }
        b
    }

    /// Take every set member of a Windows group.
    pub fn with_windows(self, cfg: WindowsConfig) -> (r: OptionsBuilder)
        ensures
            r == (OptionsBuilder {
                win_allow_handle: if cfg.win_allow_handle is Some {
                    cfg.win_allow_handle
                } else {
                    self.win_allow_handle
                },
                win_handle_sample_every: if cfg.win_handle_sample_every is Some {
                    cfg.win_handle_sample_every
                } else {
                    self.win_handle_sample_every
                },
                ..self
            }),
    {
        let mut b = self;
        if cfg.win_allow_handle.is_some() {
            b.win_allow_handle = cfg.win_allow_handle;
        }
        if cfg.win_handle_sample_every.is_some() {
            b.win_handle_sample_every = cfg.win_handle_sample_every;
        }
        b
    }

    /// Build the options: defaults for unset fields, pattern lists taken
    /// when non-empty, filters compiled, the active-worker gate opened.
    pub fn build(self) -> (r: Options)
        ensures
            builds_to(self, r),
    {
        let mut contains = self.exclude_contains;
        if contains.len() == 0 {
            contains.push(String::from_str(".git"));
            contains.push(String::from_str("node_modules"));
            contains.push(String::from_str("target"));
            proof {
                assert(pats_view(contains@) =~= seq![".git"@, "node_modules"@, "target"@]);
            }
        }
        let regex = self.exclude_regex;
        let glob = self.exclude_glob;
        proof {
            if regex@.len() == 0 {
                assert(pats_view(regex@) =~= Seq::<Seq<char>>::empty());
            }
            if glob@.len() == 0 {
                assert(pats_view(glob@) =~= Seq::<Seq<char>>::empty());
            }
        }
        let threads = match self.threads {
            Some(v) => v,
            None => 4,
        };
        let mut opt = Options {
            exclude_contains: contains,
            exclude_regex: regex,
            exclude_glob: glob,
            max_depth: match self.max_depth {
                Some(v) => v,
                None => 0,
            },
            min_file_size: match self.min_file_size {
                Some(v) => v,
                None => 0,
            },
            follow_links: match self.follow_links {
                Some(v) => v,
                None => false,
            },
            threads,
            progress_every: match self.progress_every {
                Some(v) => v,
                None => 0,
            },
            compute_physical: match self.compute_physical {
                Some(v) => v,
                None => true,
            },
            dir_yield_every: 0,
            approximate_sizes: match self.approximate_sizes {
                Some(v) => v,
                None => false,
            },
            disable_uring: match self.disable_uring {
                Some(v) => v,
                None => false,
            },
            active_threads: if threads == 0 {
                1
            } else {
                threads
            },
            uring_batch: 128,
            uring_sq_depth: 256,
            exclude_ac: None,
            exclude_regex_set: None,
            exclude_glob_set: None,
            compat_mode: match self.compat_mode {
                Some(v) => v,
                None => CompatMode::HyperDU,
            },
            count_hardlinks: match self.count_hardlinks {
                Some(v) => v,
                None => false,
            },
            one_file_system: match self.one_file_system {
                Some(v) => v,
                None => false,
            },
            tune_enabled: match self.tune_enabled {
                Some(v) => v,
                None => false,
            },
            tune_interval_ms: match self.tune_interval_ms {
                Some(v) => v,
                None => 800,
            },
            heuristics_mode: HeuristicsMode::Auto,
            prefer_inner_rayon: match self.prefer_inner_rayon {
                Some(v) => v,
                None => false,
            },
            win_allow_handle: match self.win_allow_handle {
                Some(v) => v,
                None => false,
            },
            win_handle_sample_every: match self.win_handle_sample_every {
                Some(v) => v,
                None => 64,
            },
        };
        compile_filters_in_place(&mut opt);
        opt
    }
}


} // verus!
