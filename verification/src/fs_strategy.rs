//! Filesystem-aware defaults.
//!
//! Before a scan, the detected filesystem type of the root may rewrite a
//! few defaults: copy-on-write and network filesystems prefer logical
//! sizes, WSL and network mounts prefer fewer workers and no ring. The
//! detection itself reads the mount tables outside the core; the choice
//! of strategy and everything it changes is decided and specified here.
//! Buffer-size and prefetch hints only reach the report: they steer the
//! embedding's environment, never the results.

use vstd::prelude::*;

use crate::filters::pats_view;
use crate::options::Options;

verus! {

/// The lower-case form of one character, ASCII letters only.
pub open spec fn lower_char(c: char) -> char {
    if 'A' <= c && c <= 'Z' {
        ((c as u8) + 32) as char
    } else {
        c
    }
}

/// The ASCII-lower-cased view of a text.
pub open spec fn lower_seq(s: Seq<char>) -> Seq<char> {
    s.map_values(|c: char| lower_char(c))
}

/// The lower-case form of one character.
fn char_lower(c: char) -> (r: char)
    ensures
        r == lower_char(c),
{
    if 'A' <= c && c <= 'Z' {
        ((c as u8) + 32) as char
    } else {
        c
    }
}

/// ASCII-case-insensitive string equality.
pub fn eq_ignore_ascii_case(a: &str, b: &str) -> (r: bool)
    ensures
        r == (lower_seq(a@) == lower_seq(b@)),
{
    let an = a.unicode_len();
    let bn = b.unicode_len();
    if an != bn {
        proof {
            assert(lower_seq(a@).len() != lower_seq(b@).len());
        }
        return false;
    }
    let mut i: usize = 0;
    while i < an
        invariant
            an == a@.len(),
            an == b@.len(),
            i <= an,
            forall|j: int| 0 <= j < i ==> lower_seq(a@)[j] == lower_seq(b@)[j],
        decreases an - i,
    {
        if char_lower(a.get_char(i)) != char_lower(b.get_char(i)) {
            proof {
                assert(lower_seq(a@)[i as int] == lower_char(a@[i as int]));
                assert(lower_seq(b@)[i as int] == lower_char(b@[i as int]));
            }
            return false;
        }
        proof {
            assert(lower_seq(a@)[i as int] == lower_char(a@[i as int]));
            assert(lower_seq(b@)[i as int] == lower_char(b@[i as int]));
        }
        i = i + 1;
    }
    proof {
        assert(lower_seq(a@) =~= lower_seq(b@));
    }
    true
}

/// What one strategy recommends beyond the option rewrites.
#[derive(Clone, Copy, Debug, PartialEq, Eq, Structural)]
pub struct FsApplyOutcome {
    pub recommended_threads: Option<usize>,
    pub disable_uring: bool,
    pub recommend_logical_only: bool,
}

/// What detection decided and changed, for display.
pub struct FsApplyReport {
    pub strategy: String,
    pub fs_type: String,
    pub reason: String,
    pub changes: Vec<String>,
    pub recommended_threads: Option<usize>,
    pub disable_uring: bool,
    pub recommend_logical_only: bool,
}

/// The known per-filesystem strategies.
#[derive(Clone, Copy, Debug, PartialEq, Eq, Structural)]
pub enum StrategyKind {
    Generic,
    Ext4,
    Xfs,
    Btrfs,
    Zfs,
    Drvfs,
    Network,
}

/// The strategy a filesystem type selects, matched without case.
pub open spec fn spec_strategy_for(fs: Seq<char>) -> StrategyKind {
    let l = lower_seq(fs);
    if l == "ext4"@ {
        StrategyKind::Ext4
    } else if l == "xfs"@ {
        StrategyKind::Xfs
    } else if l == "btrfs"@ {
        StrategyKind::Btrfs
    } else if l == "zfs"@ {
        StrategyKind::Zfs
    } else if l == "drvfs"@ {
        StrategyKind::Drvfs
    } else if l == "nfs"@ || l == "nfs4"@ || l == "cifs"@ || l == "smbfs"@ || l == "fuse.sshfs"@
        || l == "9p"@ || l == "fuse"@ {
        StrategyKind::Network
    } else {
        StrategyKind::Generic
    }
}

/// Choose the strategy for a filesystem type name.
pub fn strategy_for(fs_type: &str) -> (r: StrategyKind)
    ensures
        r == spec_strategy_for(fs_type@),
{
    proof {
        lemma_lower_lit();
    }
    if eq_ignore_ascii_case(fs_type, "ext4") {
        StrategyKind::Ext4
    } else if eq_ignore_ascii_case(fs_type, "xfs") {
        StrategyKind::Xfs
    } else if eq_ignore_ascii_case(fs_type, "btrfs") {
        StrategyKind::Btrfs
    } else if eq_ignore_ascii_case(fs_type, "zfs") {
        StrategyKind::Zfs
    } else if eq_ignore_ascii_case(fs_type, "drvfs") {
        StrategyKind::Drvfs
    } else if eq_ignore_ascii_case(fs_type, "nfs") || eq_ignore_ascii_case(fs_type, "nfs4")
        || eq_ignore_ascii_case(fs_type, "cifs") || eq_ignore_ascii_case(fs_type, "smbfs")
        || eq_ignore_ascii_case(fs_type, "fuse.sshfs") || eq_ignore_ascii_case(fs_type, "9p")
        || eq_ignore_ascii_case(fs_type, "fuse") {
        StrategyKind::Network
    } else {
        StrategyKind::Generic
    }
}

/// The strategy names' own lower-case fixed points.
proof fn lemma_lower_lit()
    ensures
        lower_seq("ext4"@) == "ext4"@,
        lower_seq("xfs"@) == "xfs"@,
        lower_seq("btrfs"@) == "btrfs"@,
        lower_seq("zfs"@) == "zfs"@,
        lower_seq("drvfs"@) == "drvfs"@,
        lower_seq("nfs"@) == "nfs"@,
        lower_seq("nfs4"@) == "nfs4"@,
        lower_seq("cifs"@) == "cifs"@,
        lower_seq("smbfs"@) == "smbfs"@,
        lower_seq("fuse.sshfs"@) == "fuse.sshfs"@,
        lower_seq("9p"@) == "9p"@,
        lower_seq("fuse"@) == "fuse"@,
{
    reveal_strlit("ext4");
    reveal_strlit("xfs");
    reveal_strlit("btrfs");
    reveal_strlit("zfs");
    reveal_strlit("drvfs");
    reveal_strlit("nfs");
    reveal_strlit("nfs4");
    reveal_strlit("cifs");
    reveal_strlit("smbfs");
    reveal_strlit("fuse.sshfs");
    reveal_strlit("9p");
    reveal_strlit("fuse");
    assert(lower_seq("ext4"@) =~= "ext4"@);
    assert(lower_seq("xfs"@) =~= "xfs"@);
    assert(lower_seq("btrfs"@) =~= "btrfs"@);
    assert(lower_seq("zfs"@) =~= "zfs"@);
    assert(lower_seq("drvfs"@) =~= "drvfs"@);
    assert(lower_seq("nfs"@) =~= "nfs"@);
    assert(lower_seq("nfs4"@) =~= "nfs4"@);
    assert(lower_seq("cifs"@) =~= "cifs"@);
    assert(lower_seq("smbfs"@) =~= "smbfs"@);
    assert(lower_seq("fuse.sshfs"@) =~= "fuse.sshfs"@);
    assert(lower_seq("9p"@) =~= "9p"@);
    assert(lower_seq("fuse"@) =~= "fuse"@);
}

impl StrategyKind {
    /// The strategy's display name.
    pub fn name(&self) -> (r: &'static str)
        ensures
            r@ == (match self {
                StrategyKind::Generic => "generic"@,
                StrategyKind::Ext4 => "ext4"@,
                StrategyKind::Xfs => "xfs"@,
                StrategyKind::Btrfs => "btrfs"@,
                StrategyKind::Zfs => "zfs"@,
                StrategyKind::Drvfs => "drvfs"@,
                StrategyKind::Network => "network"@,
            }),
    {
        match self {
            StrategyKind::Generic => "generic",
            StrategyKind::Ext4 => "ext4",
            StrategyKind::Xfs => "xfs",
            StrategyKind::Btrfs => "btrfs",
            StrategyKind::Zfs => "zfs",
            StrategyKind::Drvfs => "drvfs",
            StrategyKind::Network => "network",
        }
    }

    /// Apply the strategy: rewrite the options it owns, record every
    /// change, and return the recommendations. Copy-on-write and remote
    /// filesystems switch physical sizing off; WSL and network mounts
    /// recommend four workers and no ring.
    pub fn apply(&self, opt: &mut Options, report: &mut Vec<String>) -> (r: FsApplyOutcome)
        ensures
            final(opt).compute_physical == (match self {
                StrategyKind::Btrfs | StrategyKind::Drvfs | StrategyKind::Network => false,
                _ => old(opt).compute_physical,
            }),
            crate::options::same_core_config(*old(opt), *final(opt)) || (match self {
                StrategyKind::Btrfs | StrategyKind::Drvfs | StrategyKind::Network => true,
                _ => false,
            }),
            final(opt).exclude_contains@ == old(opt).exclude_contains@,
            final(opt).max_depth == old(opt).max_depth,
            final(opt).min_file_size == old(opt).min_file_size,
            final(opt).follow_links == old(opt).follow_links,
            final(opt).one_file_system == old(opt).one_file_system,
            final(opt).count_hardlinks == old(opt).count_hardlinks,
            pats_view(final(report)@) == pats_view(old(report)@) + (match self {
                StrategyKind::Generic => Seq::<Seq<char>>::empty(),
                StrategyKind::Ext4 | StrategyKind::Xfs | StrategyKind::Zfs => seq![
                    "getdents_buf_kb=128"@,
                    "prefetch=1"@,
                ],
                StrategyKind::Btrfs => seq![
                    "compute_physical=false"@,
                    "getdents_buf_kb=128"@,
                    "prefetch=0"@,
                ],
                StrategyKind::Drvfs | StrategyKind::Network => seq![
                    "compute_physical=false"@,
                    "getdents_buf_kb=64"@,
                    "prefetch=0"@,
                ],
            }),
            r == (match self {
                StrategyKind::Generic | StrategyKind::Ext4 | StrategyKind::Xfs
                    | StrategyKind::Zfs => FsApplyOutcome {
                    recommended_threads: None,
                    disable_uring: false,
                    recommend_logical_only: false,
                },
                StrategyKind::Btrfs => FsApplyOutcome {
                    recommended_threads: None,
                    disable_uring: false,
                    recommend_logical_only: true,
                },
                StrategyKind::Drvfs => FsApplyOutcome {
                    recommended_threads: Some(4usize),
                    disable_uring: true,
                    recommend_logical_only: false,
                },
                StrategyKind::Network => FsApplyOutcome {
                    recommended_threads: Some(4usize),
                    disable_uring: true,
                    recommend_logical_only: false,
                },
            }),
    {
        let ghost r0 = report@;
        match self {
            StrategyKind::Generic => {
                proof {
                    assert(pats_view(report@) =~= pats_view(r0) + Seq::<Seq<char>>::empty());
                }
                FsApplyOutcome {
                    recommended_threads: None,
                    disable_uring: false,
                    recommend_logical_only: false,
                }
            },
            StrategyKind::Ext4 | StrategyKind::Xfs | StrategyKind::Zfs => {
                report.push(String::from_str("getdents_buf_kb=128"));
                report.push(String::from_str("prefetch=1"));
                proof {
                    assert(pats_view(report@) =~= pats_view(r0) + seq![
                        "getdents_buf_kb=128"@,
                        "prefetch=1"@,
                    ]);
                }
                FsApplyOutcome {
                    recommended_threads: None,
                    disable_uring: false,
                    recommend_logical_only: false,
                }
            },
            StrategyKind::Btrfs => {
                opt.compute_physical = false;
                report.push(String::from_str("compute_physical=false"));
                report.push(String::from_str("getdents_buf_kb=128"));
                report.push(String::from_str("prefetch=0"));
                proof {
                    assert(pats_view(report@) =~= pats_view(r0) + seq![
                        "compute_physical=false"@,
                        "getdents_buf_kb=128"@,
                        "prefetch=0"@,
                    ]);
                }
                FsApplyOutcome {
                    recommended_threads: None,
                    disable_uring: false,
                    recommend_logical_only: true,
                }
            },
            StrategyKind::Drvfs | StrategyKind::Network => {
                opt.compute_physical = false;
                report.push(String::from_str("compute_physical=false"));
                report.push(String::from_str("getdents_buf_kb=64"));
                report.push(String::from_str("prefetch=0"));
                proof {
                    assert(pats_view(report@) =~= pats_view(r0) + seq![
                        "compute_physical=false"@,
                        "getdents_buf_kb=64"@,
                        "prefetch=0"@,
                    ]);
                }
                FsApplyOutcome {
                    recommended_threads: Some(4),
                    disable_uring: true,
                    recommend_logical_only: false,
                }
            },
        }
    }
}

/// Apply the strategy a filesystem type selects and assemble the full
/// report; the embedding detects the type and applies any environment
/// hints the report carries.
pub fn detect_and_apply(fs_type: &str, opt: &mut Options) -> (r: FsApplyReport)
    ensures
        r.strategy@ == (match spec_strategy_for(fs_type@) {
            StrategyKind::Generic => "generic"@,
            StrategyKind::Ext4 => "ext4"@,
            StrategyKind::Xfs => "xfs"@,
            StrategyKind::Btrfs => "btrfs"@,
            StrategyKind::Zfs => "zfs"@,
            StrategyKind::Drvfs => "drvfs"@,
            StrategyKind::Network => "network"@,
        }),
        r.fs_type@ == fs_type@,
        r.recommended_threads == (match spec_strategy_for(fs_type@) {
            StrategyKind::Drvfs | StrategyKind::Network => Some(4usize),
            _ => None,
        }),
        r.disable_uring == (match spec_strategy_for(fs_type@) {
            StrategyKind::Drvfs | StrategyKind::Network => true,
            _ => false,
        }),
        r.recommend_logical_only == (spec_strategy_for(fs_type@) == StrategyKind::Btrfs),
        final(opt).compute_physical == (match spec_strategy_for(fs_type@) {
            StrategyKind::Btrfs | StrategyKind::Drvfs | StrategyKind::Network => false,
            _ => old(opt).compute_physical,
        }),
{
    let strat = strategy_for(fs_type);
    let mut changes: Vec<String> = Vec::new();
    let outcome = strat.apply(opt, &mut changes);
    FsApplyReport {
        strategy: String::from_str(strat.name()),
        fs_type: String::from_str(fs_type),
        reason: String::from_str("fstype=").concat(fs_type),
        changes,
        recommended_threads: outcome.recommended_threads,
        disable_uring: outcome.disable_uring,
        recommend_logical_only: outcome.recommend_logical_only,
    }
}

} // verus!
