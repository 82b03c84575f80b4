//! The exclusion filter pipeline.
//!
//! Three pattern layers exclude entries: plain substrings, regular
//! expressions and globs. The substring layer is exact here: a pattern
//! matches iff it occurs as a contiguous run of characters. The regex and
//! glob layers call their crates; what one pattern matches is named, not
//! restated, and every contract above speaks through those names.

use vstd::prelude::*;

use crate::options::Options;

verus! {

// ---------------------------------------------------------------------------
// Declarations of the matcher types of the outside crates.
// ---------------------------------------------------------------------------

#[verifier::external_type_specification]
#[verifier::external_body]
pub struct ExAhoCorasick(aho_corasick::AhoCorasick);

#[verifier::external_type_specification]
#[verifier::external_body]
pub struct ExRegexSet(regex::RegexSet);

#[verifier::external_type_specification]
#[verifier::external_body]
pub struct ExGlobSet(globset::GlobSet);

#[verifier::external_type_specification]
#[verifier::external_body]
pub struct ExGlobSetBuilder(globset::GlobSetBuilder);

#[verifier::external_type_specification]
#[verifier::external_body]
pub struct ExGlob(globset::Glob);

// ---------------------------------------------------------------------------
// Names for what the matchers hold and what one pattern matches.
// ---------------------------------------------------------------------------

/// The patterns a substring automaton was built from.
pub uninterp spec fn ac_pats(a: aho_corasick::AhoCorasick) -> Seq<Seq<char>>;

/// The expressions a regex set was built from.
pub uninterp spec fn regex_set_pats(r: regex::RegexSet) -> Seq<Seq<char>>;

/// Whether one regular expression matches somewhere in a text.
pub uninterp spec fn regex_matches(pat: Seq<char>, text: Seq<char>) -> bool;

/// The pattern one compiled glob was parsed from.
pub uninterp spec fn glob_pat(g: globset::Glob) -> Seq<char>;

/// The patterns collected in a glob-set builder.
pub uninterp spec fn glob_builder_pats(b: globset::GlobSetBuilder) -> Seq<Seq<char>>;

/// The patterns a built glob set holds.
pub uninterp spec fn glob_set_pats(g: globset::GlobSet) -> Seq<Seq<char>>;

/// Whether one glob pattern matches a path string.
pub uninterp spec fn glob_matches(pat: Seq<char>, path: Seq<char>) -> bool;

/// Whether the automaton builder accepts a pattern list; it fails only
/// on its internal size limits, deterministically in the patterns.
pub uninterp spec fn ac_builds(pats: Seq<Seq<char>>) -> bool;

/// Whether the regex-set builder accepts an expression list: an invalid
/// expression or an oversize compilation refuses it, deterministically
/// in the list.
pub uninterp spec fn regex_set_builds(pats: Seq<Seq<char>>) -> bool;

/// Whether one glob pattern parses.
pub uninterp spec fn glob_ok(pat: Seq<char>) -> bool;

/// Whether the glob-set builder accepts a collected pattern list.
pub uninterp spec fn glob_set_builds(pats: Seq<Seq<char>>) -> bool;

/// The character views of a list of owned strings.
pub open spec fn pats_view(s: Seq<String>) -> Seq<Seq<char>> {
    s.map_values(|x: String| x@)
}

/// The patterns of a list that parse as globs, in order.
pub open spec fn glob_ok_pats(pats: Seq<Seq<char>>) -> Seq<Seq<char>> {
    pats.filter(|q: Seq<char>| glob_ok(q))
}

/// Some pattern of the list occurs as a substring of the text.
pub open spec fn any_pat_substring(pats: Seq<Seq<char>>, text: Seq<char>) -> bool {
    exists|i: int| 0 <= i < pats.len() && is_substring(pats[i], text)
}

/// Some expression of the list matches the text.
pub open spec fn any_regex_matches(pats: Seq<Seq<char>>, text: Seq<char>) -> bool {
    exists|i: int| 0 <= i < pats.len() && regex_matches(pats[i], text)
}

/// Some glob of the list matches the path string.
pub open spec fn any_glob_matches(pats: Seq<Seq<char>>, path: Seq<char>) -> bool {
    exists|i: int| 0 <= i < pats.len() && glob_matches(pats[i], path)
}

// ---------------------------------------------------------------------------
// Substring occurrence, stated exactly.
// ---------------------------------------------------------------------------

/// `needle` occurs as a contiguous run of characters inside `hay`.
pub open spec fn is_substring(needle: Seq<char>, hay: Seq<char>) -> bool {
    exists|i: int|
        0 <= i && i + needle.len() <= hay.len() && #[trigger] hay.subrange(i, i + needle.len())
            == needle
}

/// Substring test over character sequences.
pub fn contains_str(hay: &str, needle: &str) -> (r: bool)
    ensures
        r == is_substring(needle@, hay@),
{
    let hl = hay.unicode_len();
    let nl = needle.unicode_len();
    if nl > hl {
        return false;
    }
    if nl == 0 {
        proof {
            assert(hay@.subrange(0, 0 + needle@.len() as int) =~= needle@);
        }
        return true;
    }
    let mut i: usize = 0;
    while i <= hl - nl
        invariant
            0 < nl <= hl,
            hl == hay@.len(),
            nl == needle@.len(),
            i <= hl - nl + 1,
            forall|ii: int| 0 <= ii < i ==> #[trigger] hay@.subrange(ii, ii + nl) != needle@,
        decreases hl - nl + 1 - i,
    {
        let mut j: usize = 0;
        let mut mismatch = false;
        while j < nl
            invariant
                nl <= hl,
                hl == hay@.len(),
                nl == needle@.len(),
                i <= hl - nl,
                j <= nl,
                !mismatch ==> forall|jj: int| 0 <= jj < j ==> hay@[i + jj] == needle@[jj],
                mismatch ==> hay@.subrange(i as int, i + nl) != needle@,
            decreases nl - j,
        {
            if hay.get_char(i + j) != needle.get_char(j) {
                proof {
                    assert(hay@.subrange(i as int, i + nl)[j as int] == hay@[i + j]);
                }
                mismatch = true;
                j = nl;
            } else {
                j = j + 1;
            }
        }
        if !mismatch {
            proof {
                assert(hay@.subrange(i as int, i + nl) =~= needle@);
            }
            return true;
        }
        i = i + 1;
    }
    proof {
        assert forall|ii: int|
            0 <= ii && ii + needle@.len() <= hay@.len() implies #[trigger] hay@.subrange(
            ii,
            ii + needle@.len(),
        ) != needle@ by {
            assert(ii < i);
            assert(hay@.subrange(ii, ii + nl) != needle@);
        }
    }
    false
}

/// `pre` is the first stretch of `s`.
pub open spec fn starts_with(pre: Seq<char>, s: Seq<char>) -> bool {
    s.len() >= pre.len() && s.subrange(0, pre.len() as int) == pre
}

/// Exact string equality over character views.
pub fn str_eq(a: &str, b: &str) -> (r: bool)
    ensures
        r == (a@ == b@),
{
    let an = a.unicode_len();
    let bn = b.unicode_len();
    if an != bn {
        return false;
    }
    let mut i: usize = 0;
    while i < an
        invariant
            an == a@.len(),
            an == b@.len(),
            i <= an,
            forall|j: int| 0 <= j < i ==> a@[j] == b@[j],
        decreases an - i,
    {
        if a.get_char(i) != b.get_char(i) {
            return false;
        }
        i = i + 1;
    }
    proof {
        assert(a@ =~= b@);
    }
    true
}

/// Whether `s` begins with `pre`.
pub fn starts_with_str(s: &str, pre: &str) -> (r: bool)
    ensures
        r == starts_with(pre@, s@),
{
    let sn = s.unicode_len();
    let pn = pre.unicode_len();
    if pn > sn {
        return false;
    }
    let mut i: usize = 0;
    while i < pn
        invariant
            sn == s@.len(),
            pn == pre@.len(),
            pn <= sn,
            i <= pn,
            forall|j: int| 0 <= j < i ==> s@[j] == pre@[j],
        decreases pn - i,
    {
        if s.get_char(i) != pre.get_char(i) {
            proof {
                assert(s@.subrange(0, pre@.len() as int)[i as int] == s@[i as int]);
            }
            return false;
        }
        i = i + 1;
    }
    proof {
        assert(s@.subrange(0, pre@.len() as int) =~= pre@);
    }
    true
}

/// A non-empty pattern of the list occurs in the text.
pub open spec fn contains_layer(pats: Seq<Seq<char>>, text: Seq<char>) -> bool {
    exists|i: int| 0 <= i < pats.len() && pats[i].len() > 0 && is_substring(pats[i], text)
}

/// The substring layer over a path string, as the legacy scan applied it:
/// empty patterns are ignored.
pub fn should_exclude_legacy(path_str: &str, patterns: &Vec<String>) -> (r: bool)
    ensures
        r == contains_layer(pats_view(patterns@), path_str@),
{
    let mut i: usize = 0;
    while i < patterns.len()
        invariant
            i <= patterns.len(),
            forall|j: int|
                0 <= j < i ==> !(pats_view(patterns@)[j].len() > 0 && is_substring(
                    pats_view(patterns@)[j],
                    path_str@,
                )),
        decreases patterns.len() - i,
    {
        if !patterns[i].as_str().is_empty() && contains_str(path_str, patterns[i].as_str()) {
            proof {
                assert(pats_view(patterns@)[i as int] == patterns@[i as int]@);
            }
            return true;
        }
        proof {
            assert(pats_view(patterns@)[i as int] == patterns@[i as int]@);
        }
        i = i + 1;
    }
    false
}

// ---------------------------------------------------------------------------
// Trusted wrappers around the matcher crates.
// ---------------------------------------------------------------------------

/// Relies on aho_corasick::AhoCorasick::new: builds a multi-pattern
/// substring automaton over exactly the given patterns; it fails only
/// on the crate's internal size limits, a function of the patterns.
#[verifier::external_body]
pub(crate) fn ac_new(pats: &Vec<String>) -> (r: Option<aho_corasick::AhoCorasick>)
    ensures
        (r is Some) == ac_builds(pats_view(pats@)),
        match r {
            Some(a) => ac_pats(a) == pats_view(pats@),
            None => true,
        },
{
    aho_corasick::AhoCorasick::new(pats.iter().map(|s| s.as_str())).ok()
}

/// Relies on aho_corasick::AhoCorasick::is_match: with the default match
/// kind it reports whether any pattern occurs as a substring of the
/// haystack.
#[verifier::external_body]
pub(crate) fn ac_is_match(a: &aho_corasick::AhoCorasick, text: &str) -> (r: bool)
    ensures
        r == any_pat_substring(ac_pats(*a), text@),
{
    a.is_match(text)
}

/// Relies on regex::RegexSet::new: compiles the given expressions with
/// the default configuration; it fails exactly when an expression is
/// invalid or the joint compilation exceeds the default size limits,
/// a function of the expression list.
#[verifier::external_body]
pub(crate) fn regex_set_new(pats: &Vec<String>) -> (r: Option<regex::RegexSet>)
    ensures
        (r is Some) == regex_set_builds(pats_view(pats@)),
        match r {
            Some(rs) => regex_set_pats(rs) == pats_view(pats@),
            None => true,
        },
{
    regex::RegexSet::new(pats.iter().map(|s| s.as_str())).ok()
}

/// Relies on regex::RegexSet::is_match: true iff one of the set's
/// expressions matches the haystack; for a one-expression set that is
/// that expression's own verdict.
#[verifier::external_body]
pub(crate) fn regex_set_is_match(rs: &regex::RegexSet, text: &str) -> (r: bool)
    ensures
        r == any_regex_matches(regex_set_pats(*rs), text@),
        regex_set_pats(*rs).len() == 1 ==> r == regex_matches(regex_set_pats(*rs)[0], text@),
{
    rs.is_match(text)
}

/// Relies on globset::Glob::new: parses one glob pattern; it fails
/// exactly when the pattern is not a valid glob.
#[verifier::external_body]
pub(crate) fn glob_new(pat: &str) -> (r: Option<globset::Glob>)
    ensures
        (r is Some) == glob_ok(pat@),
        match r {
            Some(g) => glob_pat(g) == pat@,
            None => true,
        },
{
    globset::Glob::new(pat).ok()
}

/// Relies on globset::GlobSetBuilder::new: starts with no patterns.
#[verifier::external_body]
pub(crate) fn glob_builder_new() -> (r: globset::GlobSetBuilder)
    ensures
        glob_builder_pats(r) == Seq::<Seq<char>>::empty(),
{
    globset::GlobSetBuilder::new()
}

/// Relies on globset::GlobSetBuilder::add: appends one compiled glob.
#[verifier::external_body]
pub(crate) fn glob_builder_add(b: &mut globset::GlobSetBuilder, g: globset::Glob)
    ensures
        glob_builder_pats(*final(b)) == glob_builder_pats(*old(b)).push(glob_pat(g)),
{
    b.add(g);
}

/// Relies on globset::GlobSetBuilder::build: the built set holds exactly
/// the collected patterns; it fails deterministically in them, on the
/// combined matcher's own limits.
#[verifier::external_body]
pub(crate) fn glob_builder_build(b: &globset::GlobSetBuilder) -> (r: Option<globset::GlobSet>)
    ensures
        (r is Some) == glob_set_builds(glob_builder_pats(*b)),
        match r {
            Some(gs) => glob_set_pats(gs) == glob_builder_pats(*b),
            None => true,
        },
{
    b.build().ok()
}

/// Relies on globset::GlobSet::is_match: true iff any glob of the set
/// matches the path; for a one-glob set that is that glob's own verdict.
#[verifier::external_body]
pub(crate) fn glob_set_is_match(gs: &globset::GlobSet, path_str: &str) -> (r: bool)
    ensures
        r == any_glob_matches(glob_set_pats(*gs), path_str@),
        glob_set_pats(*gs).len() == 1 ==> r == glob_matches(glob_set_pats(*gs)[0], path_str@),
{
    gs.is_match(std::path::Path::new(path_str))
}

// ---------------------------------------------------------------------------
// The layered exclusion tests.
// ---------------------------------------------------------------------------

/// The glob layer of an options value over a path string.
pub open spec fn glob_layer(o: Options, s: Seq<char>) -> bool {
    match o.exclude_glob_set {
        Some(gs) => any_glob_matches(glob_set_pats(gs), s),
        None => false,
    }
}

/// The regex layer of an options value over a text.
pub open spec fn regex_layer(o: Options, s: Seq<char>) -> bool {
    match o.exclude_regex_set {
        Some(rs) => any_regex_matches(regex_set_pats(rs), s),
        None => false,
    }
}

/// The automaton-backed substring layer over a text: any pattern occurs,
/// empty ones included.
pub open spec fn ac_layer(o: Options, s: Seq<char>) -> bool {
    match o.exclude_ac {
        Some(a) => any_pat_substring(ac_pats(a), s),
        None => false,
    }
}

/// Full-path exclusion: glob, regex or plain substring layer matches the
/// joined path string.
pub open spec fn path_excluded_spec(o: Options, s: Seq<char>) -> bool {
    glob_layer(o, s) || regex_layer(o, s) || contains_layer(pats_view(o.exclude_contains@), s)
}

/// Whether a full path string is excluded by any filter layer.
pub fn path_excluded(path_str: &str, opt: &Options) -> (r: bool)
    ensures
        r == path_excluded_spec(*opt, path_str@),
{
    match &opt.exclude_glob_set {
        Some(gs) => {
            if glob_set_is_match(gs, path_str) {
                return true;
            }
        },
        None => {},
    }
    match &opt.exclude_regex_set {
        Some(rs) => {
            if regex_set_is_match(rs, path_str) {
                return true;
            }
        },
        None => {},
    }
    should_exclude_legacy(path_str, &opt.exclude_contains)
}

/// Name-only exclusion: the automaton, the regex set or a non-empty
/// substring pattern matches the bare entry name.
pub open spec fn name_matches_spec(o: Options, name: Seq<char>) -> bool {
    ac_layer(o, name) || regex_layer(o, name) || contains_layer(
        pats_view(o.exclude_contains@),
        name,
    )
}

/// Whether a bare entry name is excluded by the name-directed layers.
pub fn name_matches(name: &str, opt: &Options) -> (r: bool)
    ensures
        r == name_matches_spec(*opt, name@),
{
    match &opt.exclude_ac {
        Some(a) => {
            if ac_is_match(a, name) {
                return true;
            }
        },
        None => {},
    }
    match &opt.exclude_regex_set {
        Some(rs) => {
            if regex_set_is_match(rs, name) {
                return true;
            }
        },
        None => {},
    }
    should_exclude_legacy(name, &opt.exclude_contains)
}

} // verus!
