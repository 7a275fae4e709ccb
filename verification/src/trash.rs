//! The freedesktop trash: where a trashed item's copy lives, whether a path
//! is inside a trash, and where a file inside a trashed folder came from.
//!
//! Which directories are trash roots, and the text of a `.trashinfo` file,
//! are read by the caller; everything computed from them is here.

use crate::paths::{
    ancestors, ancestors_spec, lemma_ancestor_chain_unique,
    file_stem, first_component, join, parent, path_ends_with, path_eq, path_extension,
    path_file_stem, path_first_component, path_join, path_parent, path_strip_prefix, same_path,
    strip_prefix, ends_with, extension,
};
use crate::text::{
    bytes_of, chars_of, concat, has_prefix, lines, lines_of, string_from_chars, trim, trim_chars,
    views, strip_prefix_chars, str_eq, string_views,
};
use vstd::prelude::*;
use vstd::string::StringSliceAdditionalSpecFns;

verus! {

broadcast use vstd::string::group_string_axioms;

/// The byte `%`.
pub const PERCENT: u8 = 37;

/// The value of the hex digit `b`, of either case.
pub open spec fn hex_value(b: u8) -> Option<u8> {
    if 48 <= b <= 57 {
        Some((b - 48) as u8)
    } else if 97 <= b <= 102 {
        Some((b - 87) as u8)
    } else if 65 <= b <= 70 {
        Some((b - 55) as u8)
    } else {
        None
    }
}

/// `s` with each `%XY` escape read as the byte `0xXY`, or `None` when an
/// escape is cut short or is not two hex digits.
pub open spec fn percent_decoded(s: Seq<u8>) -> Option<Seq<u8>>
    decreases s.len(),
{
    if s.len() == 0 {
        Some(Seq::empty())
    } else if s[0] == PERCENT {
        if s.len() < 3 {
            None
        } else {
            match (hex_value(s[1]), hex_value(s[2])) {
                (Some(h), Some(l)) => match percent_decoded(s.skip(3)) {
                    Some(rest) => Some(seq![(h * 16 + l) as u8] + rest),
                    None => None,
                },
                _ => None,
            }
        }
    } else {
        match percent_decoded(s.skip(1)) {
            Some(rest) => Some(seq![s[0]] + rest),
            None => None,
        }
    }
}

/// Whether the `%` at `i` in `s` starts no escape: it is not followed by two
/// hex digits.
pub open spec fn bad_escape_at(s: Seq<u8>, i: int) -> bool {
    s[i] == PERCENT && !(i + 2 < s.len() && hex_value(s[i + 1]) is Some && hex_value(s[i + 2]) is Some)
}

/// Decoding fails exactly when some `%` in `s` is not followed by two hex
/// digits.
pub proof fn lemma_decoding_fails_iff_bad_escape(s: Seq<u8>)
    ensures
        (percent_decoded(s) is None) == (exists|i: int| 0 <= i < s.len() && #[trigger] bad_escape_at(s, i)),
    decreases s.len(),
{
    if s.len() > 0 {
        if s[0] == PERCENT {
            if s.len() >= 3 && hex_value(s[1]) is Some && hex_value(s[2]) is Some {
                let rest = s.skip(3);
                lemma_decoding_fails_iff_bad_escape(rest);
                if exists|j: int| 0 <= j < rest.len() && #[trigger] bad_escape_at(rest, j) {
                    let j = choose|j: int| 0 <= j < rest.len() && #[trigger] bad_escape_at(rest, j);
                    assert(bad_escape_at(s, j + 3));
                }
                if exists|i: int| 0 <= i < s.len() && #[trigger] bad_escape_at(s, i) {
                    let i = choose|i: int| 0 <= i < s.len() && #[trigger] bad_escape_at(s, i);
                    assert(i >= 3);
                    assert(bad_escape_at(rest, i - 3));
                }
            } else {
                assert(bad_escape_at(s, 0));
            }
        } else {
            let rest = s.skip(1);
            lemma_decoding_fails_iff_bad_escape(rest);
            if exists|j: int| 0 <= j < rest.len() && #[trigger] bad_escape_at(rest, j) {
                let j = choose|j: int| 0 <= j < rest.len() && #[trigger] bad_escape_at(rest, j);
                assert(bad_escape_at(s, j + 1));
            }
            if exists|i: int| 0 <= i < s.len() && #[trigger] bad_escape_at(s, i) {
                let i = choose|i: int| 0 <= i < s.len() && #[trigger] bad_escape_at(s, i);
                assert(bad_escape_at(rest, i - 1));
            }
        }
    }
}

/// `prefix` in front of `rest`, when there is a `rest`.
pub open spec fn prepend(prefix: Seq<u8>, rest: Option<Seq<u8>>) -> Option<Seq<u8>> {
    match rest {
        Some(r) => Some(prefix + r),
        None => None,
    }
}

fn hex_digit(b: u8) -> (r: Option<u8>)
    ensures
        r == hex_value(b),
        r matches Some(v) ==> v < 16,
{
    if 48 <= b && b <= 57 {
        Some(b - 48)
    } else if 97 <= b && b <= 102 {
        Some(b - 87)
    } else if 65 <= b && b <= 70 {
        Some(b - 55)
    } else {
        None
    }
}

/// Decode the percent escapes of a `.trashinfo` `Path=` value into the bytes
/// of a path.
///
/// The escapes stand for bytes, not characters: a path holding `é` is written
/// as two escapes, and a name that is not UTF-8 survives as raw bytes.
pub fn percent_decode(s: &str) -> (r: Option<Vec<u8>>)
    ensures
        match r {
            Some(b) => percent_decoded(s.spec_bytes()) == Some(b@),
            None => percent_decoded(s.spec_bytes()) is None,
        },
{
    let bytes = s.as_bytes();
    let n = bytes.len();
    let mut out: Vec<u8> = Vec::new();
    let mut i: usize = 0;
    assert(bytes@.skip(0) =~= bytes@);
    while i < n
        invariant
            i <= n,
            n == bytes@.len(),
            bytes@ == s.spec_bytes(),
            percent_decoded(bytes@) == prepend(out@, percent_decoded(bytes@.skip(i as int))),
        decreases n - i,
    {
        let ghost t = bytes@.skip(i as int);
        let byte = bytes[i];
        assert(t[0] == byte);
        if byte == PERCENT {
            if n - i < 3 {
                assert(t.len() < 3);
                return None;
            }
            let hi = hex_digit(bytes[i + 1]);
            let lo = hex_digit(bytes[i + 2]);
            assert(t[1] == bytes@[i + 1] && t[2] == bytes@[i + 2]);
            match (hi, lo) {
                (Some(h), Some(l)) => {
                    assert(t.skip(3) =~= bytes@.skip(i + 3));
                    let v: u8 = h * 16 + l;
                    let ghost before = out@;
                    out.push(v);
                    assert(out@ =~= before + seq![v]);
                    assert(prepend(before, percent_decoded(t)) == prepend(
                        out@,
                        percent_decoded(bytes@.skip(i + 3)),
                    )) by {
                        match percent_decoded(bytes@.skip(i + 3)) {
                            Some(rest) => {
                                assert(before + (seq![v] + rest) =~= out@ + rest);
                            },
                            None => {},
                        }
                    }
                    i = i + 3;
                },
                _ => {
                    return None;
                },
            }
        } else {
            assert(t.skip(1) =~= bytes@.skip(i + 1));
            let ghost before = out@;
            out.push(byte);
            assert(out@ =~= before + seq![byte]);
            assert(prepend(before, percent_decoded(t)) == prepend(
                out@,
                percent_decoded(bytes@.skip(i + 1)),
            )) by {
                match percent_decoded(bytes@.skip(i + 1)) {
                    Some(rest) => {
                        assert(before + (seq![byte] + rest) =~= out@ + rest);
                    },
                    None => {},
                }
            }
            i = i + 1;
        }
    }
    assert(bytes@.skip(n as int) =~= Seq::<u8>::empty());
    assert(out@ + Seq::<u8>::empty() =~= out@);
    Some(out)
}

/// Text without a `%` decodes to itself: plain paths pass through.
pub proof fn lemma_plain_text_passes_through(s: Seq<u8>)
    requires
        !s.contains(PERCENT),
    ensures
        percent_decoded(s) == Some(s),
    decreases s.len(),
{
    if s.len() > 0 {
        assert(s[0] != PERCENT) by {
            if s[0] == PERCENT {
                assert(s.contains(PERCENT));
            }
        }
        assert(!s.skip(1).contains(PERCENT)) by {
            if s.skip(1).contains(PERCENT) {
                let k = choose|k: int| 0 <= k < s.skip(1).len() && s.skip(1)[k] == PERCENT;
                assert(s[k + 1] == PERCENT);
            }
        }
        lemma_plain_text_passes_through(s.skip(1));
        assert(seq![s[0]] + s.skip(1) =~= s);
    }
}

/// The upper-case hex digit for the value `v`.
pub open spec fn hex_digit_for(v: u8) -> u8 {
    if v < 10 {
        (v + 48) as u8
    } else {
        (v + 55) as u8
    }
}

/// `bytes` with every byte written as a `%XY` escape.
pub open spec fn percent_encoded(bytes: Seq<u8>) -> Seq<u8>
    decreases bytes.len(),
{
    if bytes.len() == 0 {
        Seq::empty()
    } else {
        seq![PERCENT, hex_digit_for(bytes[0] / 16), hex_digit_for(bytes[0] % 16)]
            + percent_encoded(bytes.skip(1))
    }
}

/// Any bytes at all, written as escapes, decode back to exactly those bytes:
/// no name the filesystem allows is lost.
pub proof fn lemma_escapes_stand_for_bytes(bytes: Seq<u8>)
    ensures
        percent_decoded(percent_encoded(bytes)) == Some(bytes),
    decreases bytes.len(),
{
    if bytes.len() > 0 {
        let e = percent_encoded(bytes);
        let rest = percent_encoded(bytes.skip(1));
        lemma_escapes_stand_for_bytes(bytes.skip(1));
        assert(e.skip(3) =~= rest);
        let b = bytes[0];
        assert(hex_value(hex_digit_for(b / 16)) == Some((b / 16) as u8));
        assert(hex_value(hex_digit_for(b % 16)) == Some((b % 16) as u8));
        assert(((b / 16) as u8) * 16 + ((b % 16) as u8) == b);
        assert(seq![b] + bytes.skip(1) =~= bytes);
    }
}

/// A trashed item, as the trash listing reports it.
#[derive(Clone, Debug, PartialEq, Eq)]
pub struct TrashItem {
    /// The path of its `.trashinfo` file, or of the item itself.
    pub id: String,
    /// Its file name.
    pub name: String,
    /// The directory it was trashed from.
    pub original_parent: String,
    /// When it was trashed, in seconds since the epoch.
    pub time_deleted: i64,
}

impl TrashItem {
    /// Where the item was before it was trashed.
    pub fn original_path(&self) -> (r: String)
        ensures
            r@ == path_join(self.original_parent@, self.name@),
    {
        join(self.original_parent.as_str(), self.name.as_str())
    }
}

/// The copy of a trashed item inside the trash, for an item whose id is
/// `id`.
pub open spec fn trash_item_path_spec(id: Seq<char>) -> Option<Seq<char>> {
    if path_extension(id) == Some("trashinfo"@) {
        match path_parent(id) {
            Some(info_dir) => match path_parent(info_dir) {
                Some(root) => match path_file_stem(id) {
                    Some(stem) => Some(path_join(path_join(root, "files"@), stem)),
                    None => None,
                },
                None => None,
            },
            None => None,
        }
    } else {
        Some(id)
    }
}

/// The actual filesystem path of a trashed item: derived from its
/// `.trashinfo` path, or the id itself when that is already a path.
pub fn trash_item_path(item: &TrashItem) -> (r: Option<String>)
    ensures
        match r {
            Some(p) => trash_item_path_spec(item.id@) == Some(p@),
            None => trash_item_path_spec(item.id@) is None,
        },
{
    let id = item.id.as_str();
    let is_info = match extension(id) {
        Some(e) => str_eq(e.as_str(), "trashinfo"),
        None => false,
    };
    if is_info {
        let info_dir = parent(id)?;
        let root = parent(info_dir.as_str())?;
        let stem = file_stem(id)?;
        let files = join(root.as_str(), "files");
        Some(join(files.as_str(), stem.as_str()))
    } else {
        Some(item.id.clone())
    }
}

/// Whether `root` is among `roots`, compared as paths.
pub open spec fn among(roots: Seq<Seq<char>>, root: Seq<char>) -> bool {
    exists|i: int| 0 <= i < roots.len() && path_eq(roots[i], root)
}

/// Whether `root` is a trash root: one of `roots` when any are listed; else
/// when it holds an `info` directory, which `info` answers.
pub open spec fn is_root(root: Seq<char>, roots: Seq<Seq<char>>, info: bool) -> bool {
    if roots.len() == 0 {
        info
    } else {
        among(roots, root)
    }
}

/// Whether `dir` is the `files` directory of a trash root, `info` answering
/// for its parent when no roots are listed.
pub open spec fn is_files_dir(dir: Seq<char>, roots: Seq<Seq<char>>, info: bool) -> bool {
    path_ends_with(dir, "files"@) && (path_parent(dir) matches Some(root) && is_root(root, roots, info))
}

/// Whether `info_is_dir` is asked about the parent of `dir`: when no roots are
/// listed and `dir` is named `files` and has a parent.
pub open spec fn asks_about(dir: Seq<char>, roots: Seq<Seq<char>>) -> bool {
    roots.len() == 0 && path_ends_with(dir, "files"@) && path_parent(dir) is Some
}

/// `info_is_dir` may have answered `answer` about the `info` directory of the
/// parent of `dir`, when it is asked at all.
pub open spec fn info_said<F: Fn(&str) -> bool>(info_is_dir: F, roots: Seq<Seq<char>>, dir: Seq<char>, answer: bool) -> bool {
    asks_about(dir, roots) ==> exists|s: &str|
        s@ == path_join(path_parent(dir)->0, "info"@) && call_ensures(info_is_dir, (s,), answer)
}

/// The nearest of `chain` that is the `files` directory of a trash root, with
/// `infos` answering for each entry in turn.
pub open spec fn first_files_dir(chain: Seq<Seq<char>>, roots: Seq<Seq<char>>, infos: Seq<bool>) -> Option<
    Seq<char>,
>
    decreases chain.len(),
{
    if chain.len() == 0 {
        None
    } else if is_files_dir(chain[0], roots, infos[0]) {
        Some(chain[0])
    } else {
        first_files_dir(chain.drop_first(), roots, infos.drop_first())
    }
}

/// `infos` holds what `info_is_dir` answered for each entry of `chain` that
/// the search reached: every entry up to the first `files` directory of a
/// trash root.
pub open spec fn answered_along<F: Fn(&str) -> bool>(
    info_is_dir: F,
    roots: Seq<Seq<char>>,
    chain: Seq<Seq<char>>,
    infos: Seq<bool>,
) -> bool {
    &&& infos.len() == chain.len()
    &&& forall|i: int|
        0 <= i < chain.len() && (forall|j: int| 0 <= j < i ==> !is_files_dir(chain[j], roots, infos[j]))
            ==> #[trigger] info_said(info_is_dir, roots, chain[i], infos[i])
}

/// A `files` directory of a trash root is found among `chain` exactly when
/// some entry of `chain` is one, and what is found is such an entry.
pub proof fn lemma_files_dir_found_iff_any(chain: Seq<Seq<char>>, roots: Seq<Seq<char>>, infos: Seq<bool>)
    requires
        infos.len() == chain.len(),
    ensures
        (first_files_dir(chain, roots, infos) is Some) == (exists|i: int|
            0 <= i < chain.len() && is_files_dir(#[trigger] chain[i], roots, infos[i])),
        first_files_dir(chain, roots, infos) matches Some(d) ==> exists|i: int|
            0 <= i < chain.len() && chain[i] == d && is_files_dir(d, roots, #[trigger] infos[i]),
    decreases chain.len(),
{
    if chain.len() > 0 {
        let rest = chain.drop_first();
        let more = infos.drop_first();
        lemma_files_dir_found_iff_any(rest, roots, more);
        if is_files_dir(chain[0], roots, infos[0]) {
            assert(chain[0] == chain[0] && is_files_dir(chain[0], roots, infos[0]));
        } else {
            if exists|i: int| 0 <= i < chain.len() && is_files_dir(#[trigger] chain[i], roots, infos[i]) {
                let i = choose|i: int| 0 <= i < chain.len() && is_files_dir(#[trigger] chain[i], roots, infos[i]);
                assert(rest[i - 1] == chain[i] && more[i - 1] == infos[i]);
            }
            if exists|i: int| 0 <= i < rest.len() && is_files_dir(#[trigger] rest[i], roots, more[i]) {
                let i = choose|i: int| 0 <= i < rest.len() && is_files_dir(#[trigger] rest[i], roots, more[i]);
                assert(chain[i + 1] == rest[i] && infos[i + 1] == more[i]);
            }
            if first_files_dir(rest, roots, more) is Some {
                let d = first_files_dir(rest, roots, more).unwrap();
                let j = choose|j: int| 0 <= j < rest.len() && rest[j] == d && is_files_dir(d, roots, #[trigger] more[j]);
                assert(chain[j + 1] == d && infos[j + 1] == more[j]);
            }
        }
    }
}

/// The search stops at the first entry that is a `files` directory of a
/// trash root, at position `k`, or finds none when no entry is one.
proof fn lemma_first_files_dir_at(chain: Seq<Seq<char>>, roots: Seq<Seq<char>>, infos: Seq<bool>, k: int)
    requires
        infos.len() == chain.len(),
        0 <= k <= chain.len(),
        forall|j: int| 0 <= j < k ==> !is_files_dir(#[trigger] chain[j], roots, infos[j]),
        k < chain.len() ==> is_files_dir(chain[k], roots, infos[k]),
    ensures
        first_files_dir(chain, roots, infos) == if k < chain.len() {
            Some(chain[k])
        } else {
            None
        },
    decreases chain.len(),
{
    if chain.len() > 0 && k > 0 {
        let rest = chain.drop_first();
        let more = infos.drop_first();
        assert(!is_files_dir(chain[0], roots, infos[0]));
        assert forall|j: int| 0 <= j < k - 1 implies !is_files_dir(#[trigger] rest[j], roots, more[j]) by {
            assert(rest[j] == chain[j + 1] && more[j] == infos[j + 1]);
        }
        if k - 1 < rest.len() {
            assert(rest[k - 1] == chain[k] && more[k - 1] == infos[k]);
        }
        lemma_first_files_dir_at(rest, roots, more, k - 1);
    }
}

fn is_among(roots: &[String], root: &str) -> (r: bool)
    ensures
        r == among(roots@.map_values(|s: String| s@), root@),
{
    let ghost v = roots@.map_values(|s: String| s@);
    let mut i: usize = 0;
    while i < roots.len()
        invariant
            i <= roots@.len(),
            v == roots@.map_values(|s: String| s@),
            forall|j: int| 0 <= j < i ==> !path_eq(v[j], root@),
        decreases roots@.len() - i,
    {
        if same_path(roots[i].as_str(), root) {
            assert(path_eq(v[i as int], root@));
            return true;
        }
        i = i + 1;
    }
    false
}

fn files_dir_check(dir: &str, roots: &[String], info_is_dir: &impl Fn(&str) -> bool) -> (r: bool)
    requires
        forall|s: &str| call_requires(*info_is_dir, (s,)),
    ensures
        exists|a: bool|
            #[trigger] info_said(*info_is_dir, string_views(roots@), dir@, a) && r == is_files_dir(
                dir@,
                string_views(roots@),
                a,
            ),
{
    let ghost rv = string_views(roots@);
    if !ends_with(dir, "files") {
        assert(info_said(*info_is_dir, rv, dir@, false) && !is_files_dir(dir@, rv, false));
        return false;
    }
    match parent(dir) {
        Some(root) => {
            if roots.len() == 0 {
                let info = join(root.as_str(), "info");
                let answer = info_is_dir(info.as_str());
                assert(info_said(*info_is_dir, rv, dir@, answer));
                answer
            } else {
                let r = is_among(roots, root.as_str());
                assert(info_said(*info_is_dir, rv, dir@, false) && r == is_files_dir(dir@, rv, false));
                r
            }
        },
        None => {
            assert(info_said(*info_is_dir, rv, dir@, false) && !is_files_dir(dir@, rv, false));
            false
        },
    }
}

/// The `files` directory of a trash that `path` is inside: the nearest
/// ancestor of `path` named `files` whose parent is a trash root. The roots
/// are `roots` when any are listed; when none are, a parent is a root when it
/// holds an `info` directory, which `info_is_dir` tells.
pub fn trash_files_dir(path: &str, roots: &[String], info_is_dir: impl Fn(&str) -> bool) -> (r: Option<String>)
    requires
        forall|s: &str| call_requires(info_is_dir, (s,)),
    ensures
        exists|infos: Seq<bool>|
            #[trigger] answered_along(info_is_dir, string_views(roots@), ancestors_spec(path@), infos)
                && match r {
                Some(dir) => first_files_dir(
                    ancestors_spec(path@),
                    string_views(roots@),
                    infos,
                ) == Some(dir@),
                None => first_files_dir(ancestors_spec(path@), string_views(roots@), infos) is None,
            },
{
    let chain = ancestors(path);
    proof {
        lemma_ancestor_chain_unique(path@, chain@.map_values(|s: String| s@));
    }
    let ghost cv = chain@.map_values(|s: String| s@);
    let ghost rv = string_views(roots@);
    let ghost mut infos: Seq<bool> = Seq::empty();
    let mut i: usize = 0;
    while i < chain.len()
        invariant
            i <= chain@.len(),
            cv == chain@.map_values(|s: String| s@),
            rv == string_views(roots@),
            cv == ancestors_spec(path@),
            infos.len() == i,
            forall|j: int| 0 <= j < i ==> !is_files_dir(#[trigger] cv[j], rv, infos[j]),
            forall|j: int| 0 <= j < i ==> #[trigger] info_said(info_is_dir, rv, cv[j], infos[j]),
            forall|s: &str| call_requires(info_is_dir, (s,)),
        decreases chain@.len() - i,
    {
        assert(cv[i as int] == chain@[i as int]@);
        let found = files_dir_check(chain[i].as_str(), roots, &info_is_dir);
        let ghost a = choose|a: bool| info_said(info_is_dir, rv, cv[i as int], a) && found == is_files_dir(cv[i as int], rv, a);
        if found {
            let ghost all = infos.push(a) + Seq::new((cv.len() - i - 1) as nat, |k: int| false);
            proof {
                assert forall|j: int| 0 <= j < i + 1 implies all[j] == infos.push(a)[j] by {}
                assert forall|j: int| 0 <= j < i implies !is_files_dir(#[trigger] cv[j], rv, all[j]) by {
                    assert(all[j] == infos[j]);
                }
                assert(all[i as int] == a);
                lemma_first_files_dir_at(cv, rv, all, i as int);
                assert forall|j: int|
                    0 <= j < cv.len() && (forall|m: int| 0 <= m < j ==> !is_files_dir(cv[m], rv, all[m])) implies
                    #[trigger] info_said(info_is_dir, rv, cv[j], all[j]) by {
                    if j < i {
                        assert(all[j] == infos[j]);
                    } else if j > i {
                        assert(!is_files_dir(cv[i as int], rv, all[i as int]));
                    }
                }
                assert(answered_along(info_is_dir, rv, cv, all));
            }
            return Some(chain[i].clone());
        }
        proof {
            infos = infos.push(a);
        }
        i = i + 1;
    }
    proof {
        lemma_first_files_dir_at(cv, rv, infos, cv.len() as int);
        assert(answered_along(info_is_dir, rv, cv, infos));
    }
    None
}

/// Whether `path` is inside the `files` directory of a trash: of one of
/// `roots` when any are listed, else of a directory holding an `info`
/// directory, which `info_is_dir` tells.
pub fn is_trash_path(path: &str, roots: &[String], info_is_dir: impl Fn(&str) -> bool) -> (r: bool)
    requires
        forall|s: &str| call_requires(info_is_dir, (s,)),
    ensures
        exists|infos: Seq<bool>|
            #[trigger] answered_along(info_is_dir, string_views(roots@), ancestors_spec(path@), infos)
                && r == (first_files_dir(ancestors_spec(path@), string_views(roots@), infos) is Some),
{
    let found = trash_files_dir(path, roots, info_is_dir);
    found.is_some()
}

/// The parents of the entries of `chain` named `files`, in order.
pub open spec fn root_candidates(chain: Seq<Seq<char>>) -> Seq<Seq<char>>
    decreases chain.len(),
{
    if chain.len() == 0 {
        seq![]
    } else {
        let rest = root_candidates(chain.drop_first());
        if path_ends_with(chain[0], "files"@) && path_parent(chain[0]) is Some {
            seq![path_parent(chain[0])->0] + rest
        } else {
            rest
        }
    }
}

/// The trash roots worth asking about for `path`: the parent of each of its
/// ancestors named `files`, nearest first. When the list of trash folders is
/// not known, a caller tells which of these hold an `info` directory.
pub fn trash_root_candidates(path: &str) -> (r: Vec<String>)
    ensures
        r@.map_values(|s: String| s@) == root_candidates(ancestors_spec(path@)),
{
    let chain = ancestors(path);
    proof {
        lemma_ancestor_chain_unique(path@, chain@.map_values(|s: String| s@));
    }
    let ghost cv = chain@.map_values(|s: String| s@);
    let mut out: Vec<String> = Vec::new();
    let mut i: usize = 0;
    assert(cv.skip(0) =~= cv);
    while i < chain.len()
        invariant
            i <= chain@.len(),
            cv == chain@.map_values(|s: String| s@),
            cv == ancestors_spec(path@),
            out@.map_values(|s: String| s@) + root_candidates(cv.skip(i as int)) == root_candidates(cv),
        decreases chain@.len() - i,
    {
        let ghost t = cv.skip(i as int);
        assert(t[0] == chain@[i as int]@);
        assert(t.drop_first() =~= cv.skip(i + 1));
        let ghost before = out@.map_values(|s: String| s@);
        if ends_with(chain[i].as_str(), "files") {
            match parent(chain[i].as_str()) {
                Some(root) => {
                    let ghost rv = root@;
                    out.push(root);
                    assert(out@.map_values(|s: String| s@) =~= before.push(rv));
                    assert(before + (seq![rv] + root_candidates(cv.skip(i + 1))) =~= before.push(rv)
                        + root_candidates(cv.skip(i + 1)));
                },
                None => {},
            }
        }
        i = i + 1;
    }
    assert(cv.skip(i as int) =~= Seq::<Seq<char>>::empty());
    assert(out@.map_values(|s: String| s@) + Seq::<Seq<char>>::empty() =~= out@.map_values(|s: String| s@));
    out
}

/// The value of the first `Path=` line among `lines`.
pub open spec fn path_value(lines: Seq<Seq<char>>) -> Option<Seq<char>>
    decreases lines.len(),
{
    if lines.len() == 0 {
        None
    } else if has_prefix(lines[0], "Path="@) {
        Some(lines[0].skip(5))
    } else {
        path_value(lines.drop_first())
    }
}

/// The original path a `.trashinfo` file with the text `text` records, as
/// bytes: its first `Path=` value, trimmed, with its escapes decoded.
pub open spec fn trashinfo_original(text: Seq<char>) -> Option<Seq<u8>> {
    match path_value(lines(text)) {
        Some(v) => percent_decoded(vstd::utf8::encode_utf8(trim(v))),
        None => None,
    }
}

/// The original path recorded in the text of a `.trashinfo` file.
pub fn parse_trashinfo(text: &str) -> (r: Option<Vec<u8>>)
    ensures
        match r {
            Some(b) => trashinfo_original(text@) == Some(b@),
            None => trashinfo_original(text@) is None,
        },
{
    let cs = chars_of(text);
    let ls = lines_of(cs.as_slice());
    let key = chars_of("Path=");
    proof {
        reveal_strlit("Path=");
    }
    let mut i: usize = 0;
    assert(views(ls@).skip(0) =~= views(ls@));
    while i < ls.len()
        invariant
            i <= ls@.len(),
            views(ls@) == lines(text@),
            key@ == "Path="@,
            key@.len() == 5,
            path_value(lines(text@)) == path_value(views(ls@).skip(i as int)),
        decreases ls@.len() - i,
    {
        assert(views(ls@).skip(i as int)[0] == ls@[i as int]@);
        assert(views(ls@).skip(i as int).drop_first() =~= views(ls@).skip(i + 1));
        if let Some(value) = strip_prefix_chars(ls[i].as_slice(), key.as_slice()) {
            let trimmed = trim_chars(value.as_slice());
            let s = string_from_chars(trimmed.as_slice());
            let st = s.as_str();
            assert(key@.len() == 5);
            assert(value@ == ls@[i as int]@.skip(5));
            assert(st@ == s@);
            assert(st@ == trim(views(ls@).skip(i as int)[0].skip(5)));
            return percent_decode(st);
        }
        i = i + 1;
    }
    None
}

/// `rel` appended to the path `base`, as `PathBuf::push` appends: a
/// relative `rel` goes after a separator, which is added unless `base` is
/// empty or already ends with one, and an absolute `rel` replaces `base`.
pub open spec fn pushed(base: Seq<u8>, rel: Seq<u8>) -> Seq<u8> {
    if rel.len() > 0 && rel[0] == 47u8 {
        rel
    } else if base.len() > 0 && base.last() != 47u8 {
        base + seq![47u8] + rel
    } else {
        base + rel
    }
}

/// Append the path `rel` to the path `base`.
pub fn push_path(base: Vec<u8>, rel: &[u8]) -> (r: Vec<u8>)
    ensures
        r@ == pushed(base@, rel@),
{
    let mut out: Vec<u8>;
    if rel.len() > 0 && rel[0] == 47 {
        out = Vec::new();
    } else {
        out = base;
        if out.len() > 0 && out[out.len() - 1] != 47 {
            out.push(47);
        }
    }
    let ghost start = out@;
    let mut i: usize = 0;
    while i < rel.len()
        invariant
            i <= rel@.len(),
            out@ =~= start + rel@.take(i as int),
        decreases rel@.len() - i,
    {
        out.push(rel[i]);
        i = i + 1;
    }
    assert(rel@.take(rel@.len() as int) =~= rel@);
    out
}

/// Where a path inside a trashed folder sits: the trash's `files`
/// directory, the trashed item at the top, and that item's `.trashinfo`.
#[derive(Clone, Debug, PartialEq, Eq)]
pub struct TrashChild {
    /// The `files` directory of the trash.
    pub files: String,
    /// The name of the trashed item the path is inside.
    pub top: String,
    /// The `.trashinfo` file of that item.
    pub info_file: String,
}

/// Where the path `p` sits in a trash, when it is inside one of `roots`.
pub open spec fn trash_child_spec(p: Seq<char>, files: Seq<char>) -> Option<TrashChildSpec> {
    match path_parent(files) {
        Some(root) => match path_strip_prefix(p, files) {
            Some(inner) => match path_first_component(inner) {
                Some(top) => Some(
                    TrashChildSpec {
                        files,
                        top,
                        info_file: path_join(path_join(root, "info"@), top + ".trashinfo"@),
                    },
                ),
                None => None,
            },
            None => None,
        },
        None => None,
    }
}

/// The characters of a [`TrashChild`].
pub struct TrashChildSpec {
    pub files: Seq<char>,
    pub top: Seq<char>,
    pub info_file: Seq<char>,
}

impl TrashChild {
    /// Its characters.
    pub open spec fn view(&self) -> TrashChildSpec {
        TrashChildSpec { files: self.files@, top: self.top@, info_file: self.info_file@ }
    }
}

/// Find where `p` sits in a trash (its roots as for [`trash_files_dir`]): the `files`
/// directory it is inside, the trashed item at the top of it, and the
/// `.trashinfo` file that records where that item came from.
pub fn locate_trash_child(p: &str, roots: &[String], info_is_dir: impl Fn(&str) -> bool) -> (r: Option<TrashChild>)
    requires
        forall|s: &str| call_requires(info_is_dir, (s,)),
    ensures
        exists|infos: Seq<bool>|
            #[trigger] answered_along(info_is_dir, string_views(roots@), ancestors_spec(p@), infos) && ({
                let found = match first_files_dir(ancestors_spec(p@), string_views(roots@), infos) {
                    Some(files) => trash_child_spec(p@, files),
                    None => None,
                };
                match r {
                    Some(c) => found == Some(c.view()),
                    None => found is None,
                }
            }),
{
    let files = trash_files_dir(p, roots, info_is_dir)?;
    let root = parent(files.as_str())?;
    let inner = strip_prefix(p, files.as_str())?;
    let top = first_component(inner.as_str())?;
    let info_dir = join(root.as_str(), "info");
    let name = concat(top.as_str(), ".trashinfo");
    let info_file = join(info_dir.as_str(), name.as_str());
    Some(TrashChild { files, top, info_file })
}

/// Where the path `p`, inside the trashed item of `child`, was before it was
/// trashed, given the text of that item's `.trashinfo`: the recorded
/// original path, followed by the rest of `p` below the item.
pub open spec fn original_path_spec(p: Seq<char>, child: TrashChildSpec, info: Seq<char>) -> Option<
    Seq<u8>,
> {
    match trashinfo_original(info) {
        Some(orig) => match path_strip_prefix(p, path_join(child.files, child.top)) {
            Some(rel) => if vstd::utf8::encode_utf8(rel).len() == 0 {
                Some(orig)
            } else {
                Some(pushed(orig, vstd::utf8::encode_utf8(rel)))
            },
            None => None,
        },
        None => None,
    }
}

/// For a path inside a trash `files/` directory, the original path, from
/// the `.trashinfo` of the trashed item it is inside.
///
/// Given `~/.local/share/Trash/files/folder/sub/file.txt`, the trashed item is
/// `folder`, its record is `~/.local/share/Trash/info/folder.trashinfo`, and
/// the answer is the path recorded there followed by `sub/file.txt`.
pub fn original_path_for_trash_child(p: &str, child: &TrashChild, info: &str) -> (r: Option<
    Vec<u8>,
>)
    ensures
        match r {
            Some(b) => original_path_spec(p@, child.view(), info@) == Some(b@),
            None => original_path_spec(p@, child.view(), info@) is None,
        },
{
    let orig = parse_trashinfo(info)?;
    let item = join(child.files.as_str(), child.top.as_str());
    let rel = strip_prefix(p, item.as_str())?;
    let rel_bytes = bytes_of(rel.as_str());
    if rel_bytes.len() == 0 {
        Some(orig)
    } else {
        Some(push_path(orig, rel_bytes.as_slice()))
    }
}

} // verus!
