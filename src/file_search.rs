//! The cached list of candidate documents, its staleness, and the fuzzy
//! search over it.

use vstd::prelude::*;
use vstd::utf8::encode_utf8;
use nucleo_matcher::pattern::{Atom, AtomKind, CaseMatching, Normalization};
use nucleo_matcher::{Config, Matcher, Utf32Str};
use std::time::Instant;
use crate::ranking::{MAX_RESULTS, Ranked, is_top, ranks_before, top_ranked};

verus! {

#[verifier::external_type_specification]
#[verifier::external_body]
pub struct ExMatcher(Matcher);

#[verifier::external_type_specification]
#[verifier::external_body]
pub struct ExInstant(Instant);

/// The score that nucleo's fuzzy matcher gives `target` for `query`, or
/// `None` where `query` does not match.
pub uninterp spec fn fuzzy_score_of(query: Seq<char>, target: Seq<char>) -> Option<u16>;

/// A character with the Unicode White_Space property.
pub open spec fn is_white_space(c: char) -> bool {
    let u = c as u32;
    (0x9 <= u <= 0xd) || u == 0x20 || u == 0x85 || u == 0xa0 || u == 0x1680 || (0x2000 <= u
        <= 0x200a) || u == 0x2028 || u == 0x2029 || u == 0x202f || u == 0x205f || u == 0x3000
}

/// `s` holds white space only (or nothing).
pub open spec fn is_blank_text(s: Seq<char>) -> bool {
    forall|i: int| 0 <= i < s.len() ==> is_white_space(#[trigger] s[i])
}

/// `r` is `s` without its leading and trailing white space.
pub open spec fn trimmed(s: Seq<char>, r: Seq<char>) -> bool {
    exists|i: int, j: int|
        #![trigger s.subrange(i, j)]
        0 <= i <= j <= s.len() && r == s.subrange(i, j) && (forall|k: int|
            0 <= k < i ==> is_white_space(#[trigger] s[k])) && (forall|k: int|
            j <= k < s.len() ==> is_white_space(#[trigger] s[k])) && (i < j ==> !is_white_space(
            s[i],
        ) && !is_white_space(s[j - 1]))
}

/// The longest query, in characters, that the matcher scores: each matched
/// character adds at most 26 to a 16-bit score whose first character adds
/// at most 36.
pub const MAX_QUERY_CHARS: usize = 2048;

/// `q` is short enough for the matcher's 16-bit score.
pub open spec fn query_fits(q: Seq<char>) -> bool {
    q.len() <= MAX_QUERY_CHARS
}

/// The UTF-8 form of `p` is short enough for the matcher, whose haystack
/// may be as long as that form.
pub open spec fn fits_matcher(p: Seq<char>) -> bool {
    encode_utf8(p).len() <= u32::MAX
}

/// Relies on nucleo_matcher::Matcher::new: a matcher with the default scoring
/// configuration, scratch space for the calls below.
#[verifier::external_body]
fn new_matcher() -> Matcher {
    Matcher::new(Config::DEFAULT)
}

/// Relies on nucleo_matcher::pattern::Atom::score, with an atom built by
/// Atom::new for a fuzzy pattern with smart case and smart normalization:
/// the score depends on the query and the target alone (the atom overwrites
/// the matcher's case and normalization settings; the rest is the default
/// configuration). The matcher panics on a haystack longer than `u32::MAX`;
/// the haystack holds at most as many items as the target has UTF-8 bytes.
/// The score is a `u16` summed with plain additions, which stays in range
/// when the needle (at most one item per query character) is short enough.
#[verifier::external_body]
fn fuzzy_score(matcher: &mut Matcher, query: &str, target: &str) -> (r: Option<u16>)
    requires
        query_fits(query@),
        fits_matcher(target@),
    ensures
        r == fuzzy_score_of(query@, target@),
{
    let atom = Atom::new(query, CaseMatching::Smart, Normalization::Smart, AtomKind::Fuzzy, false);
    let mut buf = Vec::new();
    atom.score(Utf32Str::new(target, &mut buf), matcher)
}

/// Relies on str::trim: the string without leading and trailing white
/// space, as char::is_whitespace (the White_Space property) defines it.
#[verifier::external_body]
fn trim(s: &str) -> (r: &str)
    ensures
        trimmed(s@, r@),
{
    s.trim()
}

/// Whether `q` holds white space only.
pub fn is_blank(q: &str) -> (r: bool)
    ensures
        r == is_blank_text(q@),
{
    let t = trim(q);
    proof {
        let (i, j) = choose|i: int, j: int|
            #![trigger q@.subrange(i, j)]
            0 <= i <= j <= q@.len() && t@ == q@.subrange(i, j) && (forall|k: int|
                0 <= k < i ==> is_white_space(#[trigger] q@[k])) && (forall|k: int|
                j <= k < q@.len() ==> is_white_space(#[trigger] q@[k])) && (i < j
                ==> !is_white_space(q@[i]) && !is_white_space(q@[j - 1]));
        if i == j {
            assert(forall|k: int| 0 <= k < q@.len() ==> is_white_space(#[trigger] q@[k]));
        } else {
            assert(!is_white_space(q@[i]));
            assert(t@.len() > 0);
        }
    }
    t.is_empty()
}

/// Relies on str::strip_prefix: the rest of `s` after `prefix`, where `s`
/// starts with `prefix`.
#[verifier::external_body]
fn strip_prefix<'a>(s: &'a str, prefix: &str) -> (r: Option<&'a str>)
    ensures
        prefix@.is_prefix_of(s@) ==> r is Some && r->0@ == s@.subrange(
            prefix@.len() as int,
            s@.len() as int,
        ),
        !prefix@.is_prefix_of(s@) ==> r is None,
{
    s.strip_prefix(prefix)
}

/// Relies on std::time::Instant::elapsed: the time since `t`, in
/// nanoseconds.
#[verifier::external_body]
fn elapsed_nanos(t: &Instant) -> u128 {
    t.elapsed().as_nanos()
}

pub assume_specification[ Instant::now ]() -> Instant;

/// One search hit.
#[derive(Debug)]
pub struct FileSearchResult {
    /// Full path of the file.
    pub path: String,
    /// The path with the home directory shown as `~`.
    pub display_path: String,
    /// Match score; higher is better.
    pub score: u16,
}

/// The part of `path` that is matched: the path below `home`, or the whole
/// path where it does not start with `home`.
pub open spec fn match_target(path: Seq<char>, home: Seq<char>) -> Seq<char> {
    if home.is_prefix_of(path) {
        path.subrange(home.len() as int, path.len() as int)
    } else {
        path
    }
}

/// `path` as shown: `~` in place of `home` where it starts with `home`.
pub open spec fn display_of(path: Seq<char>, home: Seq<char>) -> Seq<char> {
    if home.is_prefix_of(path) {
        seq!['~'] + match_target(path, home)
    } else {
        path
    }
}

/// The fuzzy score of each path for `query`.
pub open spec fn scores_for(query: Seq<char>, paths: Seq<String>, home: Seq<char>) -> Seq<
    Option<u16>,
> {
    Seq::new(paths.len(), |i: int| fuzzy_score_of(query, match_target(paths[i]@, home)))
}

/// `r` is the search result for the path at `index` with `score`.
pub open spec fn is_result_for(
    r: FileSearchResult,
    paths: Seq<String>,
    home: Seq<char>,
    index: int,
    score: u16,
) -> bool {
    &&& r.path@ == paths[index]@
    &&& r.display_path@ == display_of(paths[index]@, home)
    &&& r.score == score
}

/// The results for the ranked entries `top`, in their order.
pub open spec fn results_match(
    r: Seq<FileSearchResult>,
    paths: Seq<String>,
    home: Seq<char>,
    top: Seq<Ranked>,
) -> bool {
    &&& r.len() == top.len()
    &&& forall|j: int|
        0 <= j < r.len() ==> is_result_for(
            #[trigger] r[j],
            paths,
            home,
            top[j].index as int,
            top[j].score,
        )
}

/// The part of `path` that the query is matched against.
pub fn match_target_of<'a>(path: &'a str, home_dir: &str) -> (r: &'a str)
    ensures
        r@ == match_target(path@, home_dir@),
{
    match strip_prefix(path, home_dir) {
        Some(rest) => rest,
        None => path,
    }
}

/// `path` with the home directory shown as `~`.
pub fn display_path_of(path: &str, home_dir: &str) -> (r: String)
    ensures
        r@ == display_of(path@, home_dir@),
{
    match strip_prefix(path, home_dir) {
        Some(rest) => {
            let mut shown = String::from_str("~");
            shown.append(rest);
            proof {
                reveal_strlit("~");
            }
            shown
        },
        None => path.to_owned(),
    }
}

fn result_for(path: &String, home_dir: &str, score: u16) -> (r: FileSearchResult)
    ensures
        r.path@ == path@,
        r.display_path@ == display_of(path@, home_dir@),
        r.score == score,
{
    FileSearchResult {
        path: path.clone(),
        display_path: display_path_of(path.as_str(), home_dir),
        score,
    }
}

/// The results for ranked entries of `paths`, in the order given.
pub fn ranked_results(paths: &Vec<String>, home_dir: &str, top: &Vec<Ranked>) -> (r: Vec<
    FileSearchResult,
>)
    requires
        forall|j: int| 0 <= j < top@.len() ==> #[trigger] top@[j].index < paths@.len(),
    ensures
        results_match(r@, paths@, home_dir@, top@),
{
    let mut out: Vec<FileSearchResult> = Vec::new();
    let mut j: usize = 0;
    while j < top.len()
        invariant
            j <= top@.len(),
            forall|k: int| 0 <= k < top@.len() ==> #[trigger] top@[k].index < paths@.len(),
            results_match(out@, paths@, home_dir@, top@.subrange(0, j as int)),
        decreases top@.len() - j,
    {
        let item = top[j];
        out.push(result_for(&paths[item.index], home_dir, item.score));
        j = j + 1;
    }
    assert(top@.subrange(0, top@.len() as int) =~= top@);
    out
}

/// The first `MAX_RESULTS` paths, in order, each with score 0.
pub fn leading_results(paths: &Vec<String>, home_dir: &str) -> (r: Vec<FileSearchResult>)
    ensures
        r@.len() == if paths@.len() < MAX_RESULTS {
            paths@.len() as int
        } else {
            MAX_RESULTS as int
        },
        forall|j: int| 0 <= j < r@.len() ==> is_result_for(#[trigger] r@[j], paths@, home_dir@, j, 0),
{
    let mut out: Vec<FileSearchResult> = Vec::new();
    let mut j: usize = 0;
    while j < paths.len() && j < MAX_RESULTS
        invariant
            j <= paths@.len(),
            j <= MAX_RESULTS,
            out@.len() == j,
            forall|k: int| 0 <= k < j ==> is_result_for(#[trigger] out@[k], paths@, home_dir@, k, 0),
        decreases paths@.len() - j,
    {
        out.push(result_for(&paths[j], home_dir, 0));
        j = j + 1;
    }
    out
}

/// The fuzzy score of each path for `query`, matched below `home_dir`.
pub fn score_paths(query: &str, paths: &Vec<String>, home_dir: &str) -> (r: Vec<Option<u16>>)
    requires
        query_fits(query@),
        all_fit_matcher(paths@),
    ensures
        r@ == scores_for(query@, paths@, home_dir@),
{
    let mut matcher = new_matcher();
    let mut out: Vec<Option<u16>> = Vec::new();
    let mut i: usize = 0;
    while i < paths.len()
        invariant
            i <= paths@.len(),
            query_fits(query@),
            all_fit_matcher(paths@),
            out@ =~= scores_for(query@, paths@, home_dir@).subrange(0, i as int),
        decreases paths@.len() - i,
    {
        let target = match_target_of(paths[i].as_str(), home_dir);
        proof {
            lemma_match_target_fits(paths@[i as int]@, home_dir@);
        }
        out.push(fuzzy_score(&mut matcher, query, target));
        i = i + 1;
    }
    out
}

/// Every path's UTF-8 form is short enough for the matcher.
pub open spec fn all_fit_matcher(paths: Seq<String>) -> bool {
    forall|i: int| 0 <= i < paths.len() ==> fits_matcher(#[trigger] paths[i]@)
}

/// The part of a path below `home` is no longer than the path.
pub proof fn lemma_match_target_fits(path: Seq<char>, home: Seq<char>)
    requires
        fits_matcher(path),
    ensures
        fits_matcher(match_target(path, home)),
{
    if home.is_prefix_of(path) {
        let rest = path.subrange(home.len() as int, path.len() as int);
        assert(path =~= home + rest);
        crate::ids::lemma_encode_utf8_concat(home, rest);
    }
}

/// `r` is the outcome of searching `paths` for `query`: at most
/// `MAX_RESULTS` hits with non-increasing scores; for a blank query the
/// first paths in order with score 0; otherwise the best-scored matches,
/// ties in the order of `paths`.
pub open spec fn search_outcome(
    r: Seq<FileSearchResult>,
    query: Seq<char>,
    paths: Seq<String>,
    home: Seq<char>,
) -> bool {
    &&& r.len() <= MAX_RESULTS
    &&& forall|j: int, k: int| 0 <= j < k < r.len() ==> r[j].score >= r[k].score
    &&& is_blank_text(query) ==> r.len() == if paths.len() < MAX_RESULTS {
        paths.len() as int
    } else {
        MAX_RESULTS as int
    } && forall|j: int| 0 <= j < r.len() ==> is_result_for(#[trigger] r[j], paths, home, j, 0)
    &&& !is_blank_text(query) ==> exists|top: Seq<Ranked>|
        is_top(top, scores_for(query, paths, home), paths.len() as int) && results_match(
            r,
            paths,
            home,
            top,
        )
}

/// Fuzzy search of `paths` for `query`. A blank query lists the first
/// `MAX_RESULTS` paths with score 0. Otherwise the matching paths come best
/// first, ties in the order of `paths`, at most `MAX_RESULTS` of them.
pub fn search_files(query: &str, paths: &Vec<String>, home_dir: &str) -> (r: Vec<
    FileSearchResult,
>)
    requires
        !is_blank_text(query@) ==> query_fits(query@) && all_fit_matcher(paths@),
    ensures
        search_outcome(r@, query@, paths@, home_dir@),
        r@.len() <= MAX_RESULTS,
        forall|j: int, k: int| 0 <= j < k < r@.len() ==> r@[j].score >= r@[k].score,
{
    if is_blank(query) {
        return leading_results(paths, home_dir);
    }
    let scores = score_paths(query, paths, home_dir);
    let top = top_ranked(&scores);
    proof {
        assert forall|j: int| 0 <= j < top@.len() implies #[trigger] top@[j].index
            < paths@.len() by {
            assert(crate::ranking::is_candidate(scores@, scores@.len() as int, top@[j]));
        }
    }
    let r = ranked_results(paths, home_dir, &top);
    proof {
        assert forall|j: int, k: int| 0 <= j < k < r@.len() implies r@[j].score
            >= r@[k].score by {
            assert(ranks_before(top@[j], top@[k]));
            assert(is_result_for(r@[j], paths@, home_dir@, top@[j].index as int, top@[j].score));
            assert(is_result_for(r@[k], paths@, home_dir@, top@[k].index as int, top@[k].score));
        }
    }
    r
}

/// Nanoseconds in a second.
pub const NANOS_PER_SEC: u128 = 1_000_000_000;

/// Whether a snapshot refreshed `elapsed_nanos` nanoseconds ago is older
/// than `threshold_secs` seconds.
pub open spec fn stale(elapsed_nanos: int, threshold_secs: int) -> bool {
    elapsed_nanos > threshold_secs * NANOS_PER_SEC
}

/// Whether a snapshot refreshed `elapsed_nanos` nanoseconds ago is older
/// than `threshold_secs` seconds.
pub fn stale_after(elapsed_nanos: u128, threshold_secs: u64) -> (r: bool)
    ensures
        r == stale(elapsed_nanos as int, threshold_secs as int),
{
    proof {
        assert(threshold_secs * NANOS_PER_SEC <= u64::MAX * NANOS_PER_SEC) by (nonlinear_arith);
    }
    elapsed_nanos > threshold_secs as u128 * NANOS_PER_SEC
}

/// Whether a refresh is due for a snapshot refreshed `elapsed_nanos`
/// nanoseconds ago, with `empty` telling whether it holds no path.
pub fn refresh_due(elapsed_nanos: u128, threshold_secs: u64, empty: bool) -> (r: bool)
    ensures
        r == (stale(elapsed_nanos as int, threshold_secs as int) || empty),
{
    stale_after(elapsed_nanos, threshold_secs) || empty
}

/// A snapshot is never stale at any threshold at least as long as its age;
/// in particular a snapshot just refreshed is not stale for any threshold.
pub proof fn lemma_fresh_not_stale(elapsed_nanos: int, threshold_secs: int)
    requires
        0 <= elapsed_nanos <= threshold_secs * NANOS_PER_SEC,
        0 <= threshold_secs,
    ensures
        !stale(elapsed_nanos, threshold_secs),
        !stale(0, threshold_secs),
{
}

/// Copy of a list of paths.
fn copy_paths(paths: &Vec<String>) -> (r: Vec<String>)
    ensures
        r@ == paths@,
{
    let mut out: Vec<String> = Vec::new();
    let mut i: usize = 0;
    while i < paths.len()
        invariant
            i <= paths@.len(),
            out@ == paths@.subrange(0, i as int),
        decreases paths@.len() - i,
    {
        out.push(paths[i].clone());
        i = i + 1;
    }
    assert(out@ =~= paths@);
    out
}

/// The cached snapshot of candidate document paths and when it was last
/// replaced. An update replaces the whole list at once.
pub struct FileIndex {
    paths: Vec<String>,
    last_refresh: Instant,
}

impl FileIndex {
    /// The paths of the current snapshot.
    pub closed spec fn paths(&self) -> Seq<String> {
        self.paths@
    }

    /// An empty snapshot, refreshed now.
    pub fn new() -> (r: Self)
        ensures
            r.paths().len() == 0,
    {
        FileIndex { paths: Vec::new(), last_refresh: Instant::now() }
    }

    /// A copy of the current snapshot's paths.
    pub fn get_paths(&self) -> (r: Vec<String>)
        ensures
            r@ == self.paths(),
    {
        copy_paths(&self.paths)
    }

    /// Replaces the whole snapshot with `new_paths` and marks it refreshed now.
    pub fn update(&mut self, new_paths: Vec<String>)
        ensures
            final(self).paths() == new_paths@,
    {
        self.paths = new_paths;
        self.last_refresh = Instant::now();
    }

    /// Whether more than `threshold_secs` seconds have passed since the last
    /// update (or since creation). The time passed is read from the clock;
    /// `stale_after` says what is returned for each value of it.
    pub fn is_stale(&self, threshold_secs: u64) -> bool {
        stale_after(elapsed_nanos(&self.last_refresh), threshold_secs)
    }

    pub fn is_empty(&self) -> (r: bool)
        ensures
            r == (self.paths().len() == 0),
    {
        self.paths.is_empty()
    }

    /// Whether a refresh is due: the snapshot is stale for `threshold_secs`,
    /// or holds no path. How long ago the last update was is read from the
    /// clock; `refresh_due` says what is returned for each value of it.
    pub fn needs_refresh(&self, threshold_secs: u64) -> (r: bool)
        ensures
            self.paths().len() == 0 ==> r,
    {
        refresh_due(elapsed_nanos(&self.last_refresh), threshold_secs, self.paths.is_empty())
    }

    /// Searches the snapshot for `query` (see `search_files`), or gives
    /// `None` where the query is not blank and it, or some path, is too long
    /// for the matcher.
    pub fn search(&self, query: &str, home_dir: &str) -> (r: Option<Vec<FileSearchResult>>)
        ensures
            r is None <==> !is_blank_text(query@) && !(query_fits(query@) && all_fit_matcher(
                self.paths(),
            )),
            r is Some ==> search_outcome(r->0@, query@, self.paths(), home_dir@),
    {
        if !is_blank(query) {
            if query.unicode_len() > MAX_QUERY_CHARS {
                return None;
            }
            let mut i: usize = 0;
            while i < self.paths.len()
                invariant
                    !is_blank_text(query@),
                    query_fits(query@),
                    i <= self.paths@.len(),
                    forall|k: int| 0 <= k < i ==> fits_matcher(#[trigger] self.paths@[k]@),
                decreases self.paths@.len() - i,
            {
                let p = self.paths[i].as_str();
                let n: usize = p.as_bytes().len();
                if n as u64 > 0xffff_ffffu64 {
                    proof {
                        assert(!fits_matcher(self.paths@[i as int]@));
                    }
                    return None;
                }
                i = i + 1;
            }
        }
        Some(search_files(query, &self.paths, home_dir))
    }
}

} // verus!
