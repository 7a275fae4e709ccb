//! Paths, held as UTF-8 strings, and the few operations of `std::path` that
//! the library asks of them.
//!
//! Path syntax (components, separators, `.` and `..`) is std's business: each
//! operation below is a call of the std method of the same name, whose result
//! is named by a specification function of its arguments.

use std::path::Path;
use vstd::prelude::*;

verus! {

/// What `Path::parent` returns for the path `p`.
pub uninterp spec fn path_parent(p: Seq<char>) -> Option<Seq<char>>;

/// What `Path::file_name` returns for the path `p`.
pub uninterp spec fn path_file_name(p: Seq<char>) -> Option<Seq<char>>;

/// What `Path::extension` returns for the path `p`.
pub uninterp spec fn path_extension(p: Seq<char>) -> Option<Seq<char>>;

/// What `Path::file_stem` returns for the path `p`.
pub uninterp spec fn path_file_stem(p: Seq<char>) -> Option<Seq<char>>;

/// What `Path::join` returns for the path `base` joined with `rest`.
pub uninterp spec fn path_join(base: Seq<char>, rest: Seq<char>) -> Seq<char>;

/// What `Path::strip_prefix` returns for `p` with the leading components
/// `base` removed, when they are there.
pub uninterp spec fn path_strip_prefix(p: Seq<char>, base: Seq<char>) -> Option<Seq<char>>;

/// Whether `Path`'s `==` holds: the two paths have the same components.
pub uninterp spec fn path_eq(a: Seq<char>, b: Seq<char>) -> bool;

/// What `Path::ends_with` returns: whether the last components of `p` are
/// those of `child`.
pub uninterp spec fn path_ends_with(p: Seq<char>, child: Seq<char>) -> bool;

/// The first component of `p`, as `Path::components` yields it.
pub uninterp spec fn path_first_component(p: Seq<char>) -> Option<Seq<char>>;

/// `p` with its final component taken off, by `Path::parent`.
///
/// A parent drops a component, so it is shorter than the path it came from,
/// as `Path::parent`'s documentation says.
#[verifier::external_body]
pub(crate) fn parent(p: &str) -> (r: Option<String>)
    ensures
        match r {
            Some(q) => path_parent(p@) == Some(q@) && q@.len() < p@.len(),
            None => path_parent(p@) is None,
        },
{
    Path::new(p).parent().map(|q| q.to_string_lossy().into_owned())
}

/// The final component of `p` when it is a name, by `Path::file_name`.
#[verifier::external_body]
pub(crate) fn file_name(p: &str) -> (r: Option<String>)
    ensures
        match r {
            Some(q) => path_file_name(p@) == Some(q@),
            None => path_file_name(p@) is None,
        },
{
    Path::new(p).file_name().map(|q| q.to_string_lossy().into_owned())
}

/// The extension of the file name of `p`, by `Path::extension`.
#[verifier::external_body]
pub(crate) fn extension(p: &str) -> (r: Option<String>)
    ensures
        match r {
            Some(q) => path_extension(p@) == Some(q@),
            None => path_extension(p@) is None,
        },
{
    Path::new(p).extension().map(|q| q.to_string_lossy().into_owned())
}

/// The file name of `p` without its extension, by `Path::file_stem`.
#[verifier::external_body]
pub(crate) fn file_stem(p: &str) -> (r: Option<String>)
    ensures
        match r {
            Some(q) => path_file_stem(p@) == Some(q@),
            None => path_file_stem(p@) is None,
        },
{
    Path::new(p).file_stem().map(|q| q.to_string_lossy().into_owned())
}

/// `base` joined with `rest`, by `Path::join`.
#[verifier::external_body]
pub(crate) fn join(base: &str, rest: &str) -> (r: String)
    ensures
        r@ == path_join(base@, rest@),
{
    Path::new(base).join(rest).to_string_lossy().into_owned()
}

/// `p` with the leading components `base` removed, by `Path::strip_prefix`.
#[verifier::external_body]
pub(crate) fn strip_prefix(p: &str, base: &str) -> (r: Option<String>)
    ensures
        match r {
            Some(q) => path_strip_prefix(p@, base@) == Some(q@),
            None => path_strip_prefix(p@, base@) is None,
        },
{
    Path::new(p).strip_prefix(base).ok().map(|q| q.to_string_lossy().into_owned())
}

/// Whether the paths `a` and `b` are equal, by `Path`'s `==`.
#[verifier::external_body]
pub(crate) fn same_path(a: &str, b: &str) -> (r: bool)
    ensures
        r == path_eq(a@, b@),
{
    Path::new(a) == Path::new(b)
}

/// Whether `p` ends with the components of `child`, by `Path::ends_with`.
#[verifier::external_body]
pub(crate) fn ends_with(p: &str, child: &str) -> (r: bool)
    ensures
        r == path_ends_with(p@, child@),
{
    Path::new(p).ends_with(child)
}

/// The first component of `p`, by `Path::components`.
#[verifier::external_body]
pub(crate) fn first_component(p: &str) -> (r: Option<String>)
    ensures
        match r {
            Some(q) => path_first_component(p@) == Some(q@),
            None => path_first_component(p@) is None,
        },
{
    Path::new(p).components().next().map(|c| c.as_os_str().to_string_lossy().into_owned())
}

/// The ancestors of `p`, nearest first: `p` itself, then each parent in
/// turn, as `Path::ancestors` yields them.
pub open spec fn is_ancestor_chain(p: Seq<char>, chain: Seq<Seq<char>>) -> bool {
    &&& chain.len() > 0
    &&& chain[0] == p
    &&& forall|i: int| 0 <= i < chain.len() - 1 ==> path_parent(#[trigger] chain[i]) == Some(chain[i + 1])
    &&& path_parent(chain.last()) is None
}

/// The ancestors of `p`, nearest first.
pub open spec fn ancestors_spec(p: Seq<char>) -> Seq<Seq<char>> {
    choose|chain: Seq<Seq<char>>| is_ancestor_chain(p, chain)
}

proof fn lemma_chains_agree(p: Seq<char>, a: Seq<Seq<char>>, b: Seq<Seq<char>>, i: int)
    requires
        is_ancestor_chain(p, a),
        is_ancestor_chain(p, b),
        0 <= i < a.len(),
        i < b.len(),
    ensures
        a[i] == b[i],
    decreases i,
{
    if i > 0 {
        lemma_chains_agree(p, a, b, i - 1);
        assert(path_parent(a[i - 1]) == Some(a[i]));
        assert(path_parent(b[i - 1]) == Some(b[i]));
    }
}

/// The ancestors of a path are determined by the path alone.
pub proof fn lemma_ancestor_chain_unique(p: Seq<char>, chain: Seq<Seq<char>>)
    requires
        is_ancestor_chain(p, chain),
    ensures
        ancestors_spec(p) == chain,
{
    let other = ancestors_spec(p);
    assert(is_ancestor_chain(p, other));
    if other.len() < chain.len() {
        lemma_chains_agree(p, other, chain, other.len() - 1);
        assert(path_parent(chain[other.len() - 1]) == Some(chain[other.len() as int]));
    } else if other.len() > chain.len() {
        lemma_chains_agree(p, other, chain, chain.len() - 1);
        assert(path_parent(other[chain.len() - 1]) == Some(other[chain.len() as int]));
    }
    assert forall|i: int| 0 <= i < chain.len() implies other[i] == chain[i] by {
        lemma_chains_agree(p, other, chain, i);
    }
    assert(other =~= chain);
}

/// The ancestors of `p`, nearest first.
pub fn ancestors(p: &str) -> (r: Vec<String>)
    ensures
        is_ancestor_chain(p@, r@.map_values(|s: String| s@)),
{
    let mut out: Vec<String> = Vec::new();
    let mut cur: String = p.to_owned();
    out.push(cur.clone());
    assert(out@.map_values(|s: String| s@) =~= seq![p@]);
    loop
        invariant
            out@.len() > 0,
            out@.last()@ == cur@,
            out@[0]@ == p@,
            forall|i: int| 0 <= i < out@.len() - 1 ==> path_parent(#[trigger] out@[i]@) == Some(
                out@[i + 1]@,
            ),
        ensures
            out@.len() > 0,
            out@[0]@ == p@,
            forall|i: int| 0 <= i < out@.len() - 1 ==> path_parent(#[trigger] out@[i]@) == Some(
                out@[i + 1]@,
            ),
            path_parent(out@.last()@) is None,
        decreases cur@.len(),
    {
        match parent(cur.as_str()) {
            Some(up) => {
                let ghost before = out@;
                out.push(up.clone());
                assert(out@[before.len() - 1]@ == cur@);
                cur = up;
            },
            None => {
                break;
            },
        }
    }
    let ghost v = out@.map_values(|s: String| s@);
    assert forall|i: int| 0 <= i < v.len() - 1 implies path_parent(#[trigger] v[i]) == Some(
        v[i + 1],
    ) by {
        assert(path_parent(out@[i]@) == Some(out@[i + 1]@));
    }
    out
}

} // verus!
