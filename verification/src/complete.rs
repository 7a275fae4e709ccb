//! Completions for a path being typed into the location bar: the directory
//! whose entries complete it, and which of them match what was typed so far,
//! ignoring case.

use crate::paths::{parent, path_parent, path_strip_prefix, strip_prefix};
use crate::sort::{is_permutation, sort_order, sorted_stably, SortKey};
use crate::tab::has_trailing_sep;
use crate::text::{chars_of, concat, owned, str_eq, string_from_chars};
use vstd::prelude::*;

verus! {

/// `regex::Regex`, held only as built from a known pattern.
#[verifier::external_type_specification]
#[verifier::external_body]
pub struct ExRegex(regex::Regex);

/// `regex::Error`, the error of a pattern that does not build.
#[verifier::external_type_specification]
#[verifier::external_body]
pub struct ExRegexError(regex::Error);

/// Whether `c` has a meaning in a regular expression: the metacharacters
/// that `regex::escape` escapes.
pub open spec fn is_meta_character(c: char) -> bool {
    c == '\\' || c == '.' || c == '+' || c == '*' || c == '?' || c == '(' || c == ')' || c == '|' || c
        == '[' || c == ']' || c == '{' || c == '}' || c == '^' || c == '$' || c == '#' || c == '&' || c
        == '-' || c == '~'
}

/// `s` with a backslash before each metacharacter, as `regex::escape`
/// writes it.
pub open spec fn regex_escaped(s: Seq<char>) -> Seq<char>
    decreases s.len(),
{
    if s.len() == 0 {
        seq![]
    } else {
        let before = regex_escaped(s.drop_last());
        if is_meta_character(s.last()) {
            before + seq!['\\', s.last()]
        } else {
            before.push(s.last())
        }
    }
}

/// Whether `regex` builds `pattern` into a case-insensitive regex.
pub uninterp spec fn ci_pattern_builds(pattern: Seq<char>) -> bool;

/// Whether the case-insensitive regex built from `pattern` matches
/// somewhere in `hay`.
pub uninterp spec fn ci_pattern_matches(pattern: Seq<char>, hay: Seq<char>) -> bool;

/// `s` with its metacharacters escaped, so that it matches itself as a
/// pattern.
fn escape(s: &str) -> (r: String)
    ensures
        r@ == regex_escaped(s@),
{
    let cs = chars_of(s);
    let mut out: Vec<char> = Vec::new();
    let mut i: usize = 0;
    while i < cs.len()
        invariant
            i <= cs@.len(),
            cs@ == s@,
            out@ == regex_escaped(cs@.take(i as int)),
        decreases cs@.len() - i,
    {
        let c = cs[i];
        assert(cs@.take(i + 1).drop_last() =~= cs@.take(i as int));
        assert(cs@.take(i + 1).last() == c);
        if is_meta(c) {
            out.push('\\');
        }
        out.push(c);
        i = i + 1;
    }
    assert(cs@.take(cs@.len() as int) =~= cs@);
    string_from_chars(out.as_slice())
}

fn is_meta(c: char) -> (r: bool)
    ensures
        r == is_meta_character(c),
{
    c == '\\' || c == '.' || c == '+' || c == '*' || c == '?' || c == '(' || c == ')' || c == '|' || c == '['
        || c == ']' || c == '{' || c == '}' || c == '^' || c == '$' || c == '#' || c == '&' || c == '-'
        || c == '~'
}

/// A case-insensitive regex, with the pattern it was built from.
pub struct NamePattern {
    pattern: String,
    re: regex::Regex,
}

impl NamePattern {
    /// The pattern.
    pub closed spec fn pattern(&self) -> Seq<char> {
        self.pattern@
    }
}

/// `pattern` built case-insensitive, by `regex::RegexBuilder`.
#[verifier::external_body]
fn build_case_insensitive(pattern: &str) -> (r: Result<NamePattern, regex::Error>)
    ensures
        r is Ok == ci_pattern_builds(pattern@),
        r matches Ok(p) ==> p.pattern() == pattern@,
{
    match regex::RegexBuilder::new(pattern).case_insensitive(true).build() {
        Ok(re) => Ok(NamePattern { pattern: pattern.to_owned(), re }),
        Err(e) => Err(e),
    }
}

/// Whether `p` matches in `hay`, by `regex::Regex::is_match`.
#[verifier::external_body]
fn is_match(p: &NamePattern, hay: &str) -> (r: bool)
    ensures
        r == ci_pattern_matches(p.pattern(), hay@),
{
    p.re.is_match(hay)
}

/// Why a path has no completions.
#[derive(Debug, PartialEq, Eq, Structural)]
pub enum CompleteError {
    /// The path has no parent to list.
    NoParent,
    /// The path does not lie under the directory listed.
    NotUnder,
    /// What was typed does not make a pattern.
    Pattern,
}

/// The directory whose entries complete `path`: the path itself when it
/// ends in a separator and is a directory, else its parent.
pub open spec fn completion_parent(path: Seq<char>, is_dir: bool) -> Option<Seq<char>> {
    if path.len() > 0 && path.last() == '/' && is_dir {
        Some(path)
    } else {
        path_parent(path)
    }
}

/// The directory to list for completing `path`, and the part of `path`
/// below it that the entries must start with. `is_dir` says whether `path`
/// is a directory.
pub fn completion_dir(path: &str, is_dir: bool) -> (r: Result<(String, String), CompleteError>)
    ensures
        match r {
            Ok((dir, child)) => completion_parent(path@, is_dir) == Some(dir@) && path_strip_prefix(
                path@,
                dir@,
            ) == Some(child@),
            Err(CompleteError::NoParent) => completion_parent(path@, is_dir) is None,
            Err(CompleteError::NotUnder) => completion_parent(path@, is_dir) matches Some(d)
                && path_strip_prefix(path@, d) is None,
            Err(CompleteError::Pattern) => false,
        },
{
    let dir = if has_trailing_sep(path) && is_dir {
        owned(path)
    } else {
        match parent(path) {
            Some(p) => p,
            None => return Err(CompleteError::NoParent),
        }
    };
    match strip_prefix(path, dir.as_str()) {
        Some(child) => Ok((dir, child)),
        None => Err(CompleteError::NotUnder),
    }
}

/// The pattern an entry must match to complete `child`: `child` escaped,
/// anchored at the start.
pub open spec fn child_pattern(child: Seq<char>) -> Seq<char> {
    "^"@ + regex_escaped(child)
}

/// Whether an entry named `name` completes: hidden entries are left out
/// until something is typed, and the rest must match the pattern.
pub open spec fn completes(pattern: Seq<char>, name: Seq<char>) -> bool {
    !(pattern == "^"@ && name.len() > 0 && name[0] == '.') && ci_pattern_matches(pattern, name)
}

/// The positions of the entries among the first `n` of `names` that
/// complete.
pub open spec fn completing(pattern: Seq<char>, names: Seq<String>, n: int) -> Seq<usize>
    decreases n,
{
    if n <= 0 {
        seq![]
    } else {
        let before = completing(pattern, names, n - 1);
        if completes(pattern, names[n - 1]@) {
            before.push((n - 1) as usize)
        } else {
            before
        }
    }
}

/// Which of the entries `names` of the listed directory complete `child`,
/// by position, in the order given.
pub fn matching_names(child: &str, names: &[String]) -> (r: Result<Vec<usize>, CompleteError>)
    ensures
        match r {
            Ok(found) => ci_pattern_builds(child_pattern(child@)) && found@ == completing(
                child_pattern(child@),
                names@,
                names@.len() as int,
            ),
            Err(e) => e == CompleteError::Pattern && !ci_pattern_builds(child_pattern(child@)),
        },
{
    let escaped = escape(child);
    let pattern = concat("^", escaped.as_str());
    let re = match build_case_insensitive(pattern.as_str()) {
        Ok(re) => re,
        Err(_) => return Err(CompleteError::Pattern),
    };
    let bare = str_eq(pattern.as_str(), "^");
    let mut found: Vec<usize> = Vec::new();
    let mut i: usize = 0;
    while i < names.len()
        invariant
            i <= names@.len(),
            pattern@ == child_pattern(child@),
            re.pattern() == pattern@,
            bare == (pattern@ == "^"@),
            found@ == completing(pattern@, names@, i as int),
        decreases names@.len() - i,
    {
        let name = names[i].as_str();
        let cs = chars_of(name);
        let hidden = bare && cs.len() > 0 && cs[0] == '.';
        if !hidden && is_match(&re, name) {
            found.push(i);
        }
        i = i + 1;
    }
    Ok(found)
}

/// How many completions the location bar offers.
pub const MAX_COMPLETIONS: usize = 8;

/// The sort keys of completions by their collation ranks.
pub open spec fn rank_keys(candidates: Seq<(usize, u64)>) -> Seq<SortKey> {
    candidates.map_values(|c: (usize, u64)| SortKey { first: false, value: Some(c.1 as i128) })
}

/// How many of `n` completions are offered.
pub open spec fn offered_count(n: nat) -> nat {
    if n < MAX_COMPLETIONS {
        n
    } else {
        MAX_COMPLETIONS as nat
    }
}

/// The completions offered out of `candidates`, each an entry's position and
/// its rank in the locale's collation of the names: the candidates sorted
/// stably by rank, the first [`MAX_COMPLETIONS`] of them, by position.
pub fn offered_completions(candidates: &[(usize, u64)]) -> (r: Vec<usize>)
    ensures
        exists|order: Seq<usize>|
            #![trigger is_permutation(order, candidates@.len())]
            is_permutation(order, candidates@.len()) && sorted_stably(order, rank_keys(candidates@), true)
                && r@ == order.take(offered_count(candidates@.len()) as int).map_values(
                |k: usize| candidates@[k as int].0,
            ),
{
    let n = candidates.len();
    let mut keys: Vec<SortKey> = Vec::new();
    let mut i: usize = 0;
    while i < n
        invariant
            i <= n == candidates@.len(),
            keys@ =~= rank_keys(candidates@).take(i as int),
        decreases n - i,
    {
        keys.push(SortKey { first: false, value: Some(candidates[i].1 as i128) });
        i = i + 1;
    }
    assert(keys@ =~= rank_keys(candidates@));
    let order = sort_order(keys.as_slice(), true);
    let k: usize = if n < MAX_COMPLETIONS {
        n
    } else {
        MAX_COMPLETIONS
    };
    let mut r: Vec<usize> = Vec::new();
    let mut j: usize = 0;
    while j < k
        invariant
            j <= k <= n == candidates@.len() == order@.len(),
            forall|m: int| 0 <= m < order@.len() ==> #[trigger] order@[m] < n,
            r@ =~= order@.take(j as int).map_values(|x: usize| candidates@[x as int].0),
        decreases k - j,
    {
        r.push(candidates[order[j]].0);
        j = j + 1;
    }
    assert(is_permutation(order@, candidates@.len()));
    r
}

impl NamePattern {
    /// Whether the pattern matches somewhere in `name`.
    pub fn matches(&self, name: &str) -> (r: bool)
        ensures
            r == ci_pattern_matches(self.pattern(), name@),
    {
        is_match(self, name)
    }
}

/// The pattern a search for `term` matches file names with: `term` taken
/// literally, ignoring case, anywhere in the name. None for an empty term,
/// which searches for nothing, or when the pattern does not build.
pub fn search_pattern(term: &str) -> (r: Option<NamePattern>)
    ensures
        match r {
            Some(p) => term@.len() > 0 && p.pattern() == regex_escaped(term@) && ci_pattern_builds(regex_escaped(term@)),
            None => term@.len() == 0 || !ci_pattern_builds(regex_escaped(term@)),
        },
{
    if chars_of(term).len() == 0 {
        return None;
    }
    let escaped = escape(term);
    match build_case_insensitive(escaped.as_str()) {
        Ok(p) => Some(p),
        Err(_) => None,
    }
}

} // verus!
