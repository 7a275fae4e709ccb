//! Where a tab can be: a directory, a network share, the recent files, the
//! trash, or a search in one of them; and the location being typed into the
//! location bar, with its completions.
//!
//! What the filesystem says about a path (its canonical form, whether it is a
//! directory) and what a network mounter knows about a share are asked of the
//! caller through the functions it passes in.

use crate::paths::{join, path_join, path_parent, path_strip_prefix, same_path, path_eq, parent, strip_prefix};
use crate::text::{concat, str_eq};
use std::time::Instant;
use vstd::prelude::*;

verus! {

broadcast use vstd::string::group_string_axioms;

/// `std::time::Instant`, carried through as the identity of a search.
#[verifier::external_type_specification]
#[verifier::external_body]
pub struct ExInstant(Instant);

/// Where a search looks.
#[derive(Debug, Eq, Hash, PartialEq)]
pub enum SearchLocation {
    /// A directory and everything below it.
    Path(String),
    /// The recently used files.
    Recents,
    /// The trash.
    Trash,
}

/// Where a tab is.
#[derive(Debug, Eq, Hash, PartialEq)]
pub enum Location {
    /// A network share: its URI, its display name and its local path, if it
    /// is mounted.
    Network(String, String, Option<String>),
    /// A directory.
    Path(String),
    /// The recently used files.
    Recents,
    /// A search: where, for what, whether hidden files count, and when it
    /// began, which tells one search from another.
    Search(SearchLocation, String, bool, Instant),
    /// The trash.
    Trash,
}

/// A [`SearchLocation`] as characters.
pub enum SearchLocationView {
    Path(Seq<char>),
    Recents,
    Trash,
}

/// A [`Location`] as characters.
pub enum LocationView {
    Network(Seq<char>, Seq<char>, Option<Seq<char>>),
    Path(Seq<char>),
    Recents,
    Search(SearchLocationView, Seq<char>, bool, Instant),
    Trash,
}

/// What a tab's title names.
#[derive(Debug)]
pub enum Title {
    /// The folder at this path.
    Folder(String),
    /// A network share, by the first field of its location (its address,
    /// as the location is written out).
    Network(String),
    /// The recently used files.
    Recents,
    /// A search for a term, and where it looks.
    Search(String, SearchLocation),
    /// The trash.
    Trash,
}

impl View for SearchLocation {
    type V = SearchLocationView;

    open spec fn view(&self) -> SearchLocationView {
        match self {
            SearchLocation::Path(p) => SearchLocationView::Path(p@),
            SearchLocation::Recents => SearchLocationView::Recents,
            SearchLocation::Trash => SearchLocationView::Trash,
        }
    }
}

/// The characters of an optional string.
pub open spec fn opt_view(o: Option<String>) -> Option<Seq<char>> {
    match o {
        Some(s) => Some(s@),
        None => None,
    }
}

impl View for Location {
    type V = LocationView;

    open spec fn view(&self) -> LocationView {
        match self {
            Location::Network(uri, name, path) => LocationView::Network(uri@, name@, opt_view(*path)),
            Location::Path(p) => LocationView::Path(p@),
            Location::Recents => LocationView::Recents,
            Location::Search(l, term, hidden, time) => LocationView::Search(l@, term@, *hidden, *time),
            Location::Trash => LocationView::Trash,
        }
    }
}

fn clone_opt(o: &Option<String>) -> (r: Option<String>)
    ensures
        r == *o,
{
    match o {
        Some(s) => Some(s.clone()),
        None => None,
    }
}

impl Clone for SearchLocation {
    fn clone(&self) -> (r: Self)
        ensures
            r == *self,
    {
        match self {
            SearchLocation::Path(p) => SearchLocation::Path(p.clone()),
            SearchLocation::Recents => SearchLocation::Recents,
            SearchLocation::Trash => SearchLocation::Trash,
        }
    }
}

impl Clone for Location {
    fn clone(&self) -> (r: Self)
        ensures
            r == *self,
    {
        match self {
            Location::Network(uri, name, path) => Location::Network(uri.clone(), name.clone(), clone_opt(path)),
            Location::Path(p) => Location::Path(p.clone()),
            Location::Recents => Location::Recents,
            Location::Search(l, term, hidden, time) => Location::Search(l.clone(), term.clone(), *hidden, *time),
            Location::Trash => Location::Trash,
        }
    }
}

/// Whether two instants are the same, by `Instant`'s `==`, which compares
/// the points in time they hold.
#[verifier::external_body]
fn instant_eq(a: &Instant, b: &Instant) -> (r: bool)
    ensures
        r == (*a == *b),
{
    *a == *b
}

/// Whether two paths are the same path: the same text, or the same
/// components as `Path`'s `==` compares them.
pub open spec fn paths_equal(a: Seq<char>, b: Seq<char>) -> bool {
    a == b || path_eq(a, b)
}

/// Whether two optional paths are both absent or the same path.
pub open spec fn opt_paths_equal(a: Option<Seq<char>>, b: Option<Seq<char>>) -> bool {
    match (a, b) {
        (Some(x), Some(y)) => paths_equal(x, y),
        (None, None) => true,
        _ => false,
    }
}

/// Whether two places to search are the same: paths compared as paths.
pub open spec fn search_location_eq(a: SearchLocationView, b: SearchLocationView) -> bool {
    match (a, b) {
        (SearchLocationView::Path(x), SearchLocationView::Path(y)) => paths_equal(x, y),
        (SearchLocationView::Recents, SearchLocationView::Recents) => true,
        (SearchLocationView::Trash, SearchLocationView::Trash) => true,
        _ => false,
    }
}

/// Whether two locations are the same, as `Location`'s `==` tells: of the
/// same kind, paths compared as paths and every other field as it is.
pub open spec fn location_eq(a: LocationView, b: LocationView) -> bool {
    match (a, b) {
        (LocationView::Network(u1, n1, p1), LocationView::Network(u2, n2, p2)) => u1 == u2 && n1 == n2
            && opt_paths_equal(p1, p2),
        (LocationView::Path(x), LocationView::Path(y)) => paths_equal(x, y),
        (LocationView::Recents, LocationView::Recents) => true,
        (LocationView::Search(l1, t1, h1, i1), LocationView::Search(l2, t2, h2, i2)) => search_location_eq(l1, l2)
            && t1 == t2 && h1 == h2 && i1 == i2,
        (LocationView::Trash, LocationView::Trash) => true,
        _ => false,
    }
}

fn paths_equal_exec(a: &str, b: &str) -> (r: bool)
    ensures
        r == paths_equal(a@, b@),
{
    str_eq(a, b) || same_path(a, b)
}

fn opt_paths_equal_exec(a: &Option<String>, b: &Option<String>) -> (r: bool)
    ensures
        r == opt_paths_equal(opt_view(*a), opt_view(*b)),
{
    match (a, b) {
        (Some(x), Some(y)) => paths_equal_exec(x.as_str(), y.as_str()),
        (None, None) => true,
        _ => false,
    }
}

impl SearchLocation {
    /// Whether this is the same place to search as `other`.
    pub fn same_as(&self, other: &SearchLocation) -> (r: bool)
        ensures
            r == search_location_eq(self@, other@),
    {
        match (self, other) {
            (SearchLocation::Path(a), SearchLocation::Path(b)) => paths_equal_exec(a.as_str(), b.as_str()),
            (SearchLocation::Recents, SearchLocation::Recents) => true,
            (SearchLocation::Trash, SearchLocation::Trash) => true,
            _ => false,
        }
    }
}

impl Location {
    /// Whether this is the same location as `other`: of the same kind, with
    /// the same paths (compared as paths) and the same other fields.
    pub fn same_as(&self, other: &Location) -> (r: bool)
        ensures
            r == location_eq(self@, other@),
    {
        match (self, other) {
            (Location::Network(u1, n1, p1), Location::Network(u2, n2, p2)) => {
                str_eq(u1.as_str(), u2.as_str()) && str_eq(n1.as_str(), n2.as_str()) && opt_paths_equal_exec(p1, p2)
            },
            (Location::Path(a), Location::Path(b)) => paths_equal_exec(a.as_str(), b.as_str()),
            (Location::Recents, Location::Recents) => true,
            (Location::Search(l1, t1, h1, i1), Location::Search(l2, t2, h2, i2)) => {
                l1.same_as(l2) && str_eq(t1.as_str(), t2.as_str()) && *h1 == *h2 && instant_eq(i1, i2)
            },
            (Location::Trash, Location::Trash) => true,
            _ => false,
        }
    }
}

/// The user's home directory, by `dirs::home_dir`, when it is valid UTF-8.
///
/// It comes from the environment, so nothing is promised of it.
#[verifier::external_body]
pub(crate) fn home_dir() -> (r: Option<String>) {
    dirs::home_dir().and_then(|p| p.to_str().map(str::to_owned))
}

/// The path of a location, when it has one.
pub open spec fn path_of(l: LocationView) -> Option<Seq<char>> {
    match l {
        LocationView::Path(p) => Some(p),
        LocationView::Search(SearchLocationView::Path(p), ..) => Some(p),
        LocationView::Network(_, _, p) => p,
        _ => None,
    }
}

/// `path` with a leading `~` component replaced by `home`, when there is a
/// home to replace it with.
pub open spec fn expanded(path: Seq<char>, home: Option<Seq<char>>) -> Seq<char> {
    match path_strip_prefix(path, "~"@) {
        Some(rest) => match home {
            Some(h) => path_join(h, rest),
            None => path,
        },
        None => path,
    }
}

/// `l` pointed at `path`, which is already expanded: directories and
/// directory searches move, other locations stay as they are.
pub open spec fn moved_to(l: LocationView, path: Seq<char>) -> LocationView {
    match l {
        LocationView::Path(_) => LocationView::Path(path),
        LocationView::Search(SearchLocationView::Path(_), term, hidden, time) => LocationView::Search(
            SearchLocationView::Path(path),
            term,
            hidden,
            time,
        ),
        other => other,
    }
}

/// Expand a path that starts with `~` with the home directory `home`.
pub fn expand_tilde(path: String, home: Option<&str>) -> (r: String)
    ensures
        r@ == expanded(path@, crate::text::opt_str_view(home)),
{
    match strip_prefix(path.as_str(), "~") {
        Some(rest) => match home {
            Some(h) => join(h, rest.as_str()),
            None => path,
        },
        None => path,
    }
}

impl Location {
    /// The path of this location, when it has one.
    pub fn path_opt(&self) -> (r: Option<&String>)
        ensures
            match r {
                Some(p) => path_of(self@) == Some(p@),
                None => path_of(self@) is None,
            },
    {
        match self {
            Location::Path(path) => Some(path),
            Location::Search(SearchLocation::Path(path), ..) => Some(path),
            Location::Network(_, _, path) => path.as_ref(),
            _ => None,
        }
    }

    /// The path of this location, when it has one, by value.
    pub fn into_path_opt(self) -> (r: Option<String>)
        ensures
            opt_view(r) == path_of(self@),
    {
        match self {
            Location::Path(path) => Some(path),
            Location::Search(SearchLocation::Path(path), ..) => Some(path),
            Location::Network(_, _, path) => path,
            _ => None,
        }
    }

    /// This location moved to `path`, with a leading `~` expanded to `home`.
    pub fn with_path_home(&self, path: String, home: Option<&str>) -> (r: Self)
        ensures
            r@ == moved_to(self@, expanded(path@, crate::text::opt_str_view(home))),
    {
        let path = expand_tilde(path, home);
        match self {
            Location::Path(..) => Location::Path(path),
            Location::Search(SearchLocation::Path(_), term, show_hidden, time) => Location::Search(
                SearchLocation::Path(path),
                term.clone(),
                *show_hidden,
                *time,
            ),
            other => other.clone(),
        }
    }

    /// This location moved to `path`, with a leading `~` expanded to the
    /// user's home directory.
    pub fn with_path(&self, path: String) -> (r: Self)
        ensures
            exists|home: Option<Seq<char>>| r@ == moved_to(self@, expanded(path@, home)),
    {
        let home = home_dir();
        let h: Option<&str> = match &home {
            Some(h) => Some(h.as_str()),
            None => None,
        };
        self.with_path_home(path, h)
    }

    /// This network location with the URI `uri`; any other location as it
    /// is.
    pub fn with_uri(&self, uri: String) -> (r: Self)
        ensures
            r@ == match self@ {
                LocationView::Network(_, name, path) => LocationView::Network(uri@, name, path),
                other => other,
            },
    {
        if let Location::Network(_, name, path) = self {
            Location::Network(uri, name.clone(), clone_opt(path))
        } else {
            self.clone()
        }
    }

    /// What the title of a tab at this location names. The caller puts it
    /// into words: a folder by its display name, the rest by translation.
    pub fn title(&self) -> (r: Title)
        ensures
            match *self {
                Location::Path(p) => r == Title::Folder(p),
                Location::Search(l, term, _, _) => r == Title::Search(term, l),
                Location::Trash => r is Trash,
                Location::Recents => r is Recents,
                Location::Network(uri, _, _) => r == Title::Network(uri),
            },
    {
        match self {
            Location::Path(p) => Title::Folder(p.clone()),
            Location::Search(l, term, ..) => Title::Search(term.clone(), l.clone()),
            Location::Trash => Title::Trash,
            Location::Recents => Title::Recents,
            Location::Network(uri, _, _) => Title::Network(uri.clone()),
        }
    }

    /// The directory above this one: the parent of a path; none at the root
    /// and for any other location.
    pub fn up(&self) -> (r: Option<Location>)
        ensures
            match *self {
                Location::Path(p) => match path_parent(p@) {
                    Some(q) => r matches Some(Location::Path(s)) && s@ == q,
                    None => r is None,
                },
                _ => r is None,
            },
    {
        match self {
            Location::Path(p) => match parent(p.as_str()) {
                Some(q) => Some(Location::Path(q)),
                None => None,
            },
            _ => None,
        }
    }

    /// Whether this location is the trash, or a search in it.
    pub fn is_trash(&self) -> (r: bool)
        ensures
            r == (self@ is Trash || self@ matches LocationView::Search(SearchLocationView::Trash, ..)),
    {
        match self {
            Location::Trash => true,
            Location::Search(SearchLocation::Trash, ..) => true,
            _ => false,
        }
    }

    /// Whether this location is the recent files, or a search in them.
    pub fn is_recents(&self) -> (r: bool)
        ensures
            r == (self@ is Recents || self@ matches LocationView::Search(SearchLocationView::Recents, ..)),
    {
        match self {
            Location::Recents => true,
            Location::Search(SearchLocation::Recents, ..) => true,
            _ => false,
        }
    }

    /// Whether files can be pasted here: anywhere but the trash (a search in
    /// it included) and an unmounted share.
    pub fn supports_paste(&self) -> (r: bool)
        ensures
            r == match self@ {
                LocationView::Path(..) | LocationView::Recents => true,
                LocationView::Search(l, ..) => !(l is Trash),
                LocationView::Network(_, _, p) => p is Some,
                LocationView::Trash => false,
            },
    {
        match self {
            Location::Path(..) | Location::Recents => true,
            Location::Search(SearchLocation::Trash, ..) => false,
            Location::Search(..) => true,
            Location::Network(_, _, Some(_)) => true,
            _ => false,
        }
    }
}

/// What the filesystem says about a path: its canonical form, when it can
/// be worked out, and whether that path (or the path itself, failing a
/// canonical form) is a directory.
#[derive(Clone, Debug, PartialEq, Eq)]
pub struct PathFacts {
    /// The canonical form of the path, if it could be worked out.
    pub canonical: Option<String>,
    /// Whether the canonical path, or failing it the path, is a directory.
    pub is_dir: bool,
}

/// `p` with a separator added at its end, as pushing an empty path onto a
/// `PathBuf` adds one: unless `p` is empty or already ends with one.
pub open spec fn with_trailing_sep(p: Seq<char>) -> Seq<char> {
    if p.len() > 0 && p.last() != '/' {
        p.push('/')
    } else {
        p
    }
}

/// The normal form of the path `p`, given what the filesystem says of it:
/// canonical when possible, and ending in a separator when a directory.
pub open spec fn normal_path(p: Seq<char>, canonical: Option<Seq<char>>, is_dir: bool) -> Seq<
    char,
> {
    let q = match canonical {
        Some(c) => c,
        None => p,
    };
    if is_dir {
        with_trailing_sep(q)
    } else {
        q
    }
}

/// A network location with a separator at the end of its URI.
pub open spec fn normal_network(l: LocationView) -> LocationView {
    match l {
        LocationView::Network(uri, name, path) => if uri.len() > 0 && uri.last() == '/' {
            l
        } else {
            LocationView::Network(uri.push('/'), name, path)
        },
        other => other,
    }
}

/// The normal form of `l`, given what `facts` says of its path and the home
/// directory `home`.
pub open spec fn normalized(l: LocationView, facts: PathFacts, home: Option<Seq<char>>) -> LocationView {
    if l is Network {
        normal_network(l)
    } else {
        match path_of(l) {
            Some(p) => moved_to(l, expanded(normal_path(p, opt_view(facts.canonical), facts.is_dir), home)),
            None => l,
        }
    }
}

/// `probe` may have reported `facts` for the path `p`.
pub open spec fn probed<F: Fn(&str) -> PathFacts>(probe: F, p: Seq<char>, facts: PathFacts) -> bool {
    exists|s: &str| s@ == p && call_ensures(probe, (s,), facts)
}

/// Whether `s` ends with a separator.
fn ends_with_sep(s: &str) -> (r: bool)
    ensures
        r == (s@.len() > 0 && s@.last() == '/'),
{
    let cs = crate::text::chars_of(s);
    cs.len() > 0 && cs[cs.len() - 1] == '/'
}

/// `p` with a separator added at its end, unless it is empty or ends with
/// one already.
pub fn push_trailing_sep(p: String) -> (r: String)
    ensures
        r@ == with_trailing_sep(p@),
{
    if !string_is_empty(p.as_str()) && !ends_with_sep(p.as_str()) {
        let r = concat(p.as_str(), "/");
        proof {
            reveal_strlit("/");
            assert(r@ =~= p@.push('/'));
        }
        r
    } else {
        p
    }
}

fn string_is_empty(s: &str) -> (r: bool)
    ensures
        r == (s@.len() == 0),
{
    crate::text::chars_of(s).len() == 0
}

impl Location {
    /// The normal form of this location, with the home directory `home`: a
    /// share's URI ends in a separator, and a path is made canonical and,
    /// for a directory, ends in a separator. `probe` tells what the
    /// filesystem says of a path.
    pub fn normalize_home(&self, probe: impl Fn(&str) -> PathFacts, home: Option<&str>) -> (r: Self)
        requires
            forall|s: &str| call_requires(probe, (s,)),
        ensures
            self@ is Network ==> r@ == normal_network(self@),
            !(self@ is Network) ==> match path_of(self@) {
                Some(p) => exists|facts: PathFacts|
                    probed(probe, p, facts) && r@ == normalized(self@, facts, crate::text::opt_str_view(home)),
                None => r@ == self@,
            },
    {
        if let Location::Network(uri, ..) = self {
            if !ends_with_sep(uri.as_str()) {
                let with_sep = concat(uri.as_str(), "/");
                proof {
                    reveal_strlit("/");
                    assert(with_sep@ =~= uri@.push('/'));
                }
                self.with_uri(with_sep)
            } else {
                self.clone()
            }
        } else if let Some(path) = self.path_opt() {
            let facts = probe(path.as_str());
            let base = match &facts.canonical {
                Some(c) => c.clone(),
                None => path.clone(),
            };
            let normal = if facts.is_dir {
                push_trailing_sep(base)
            } else {
                base
            };
            let r = self.with_path_home(normal, home);
            assert(probed(probe, path@, facts));
            assert(r@ == normalized(self@, facts, crate::text::opt_str_view(home)));
            r
        } else {
            self.clone()
        }
    }

    /// The normal form of this location, with `~` read as the user's home
    /// directory.
    pub fn normalize(&self, probe: impl Fn(&str) -> PathFacts) -> (r: Self)
        requires
            forall|s: &str| call_requires(probe, (s,)),
        ensures
            self@ is Network ==> r@ == normal_network(self@),
            !(self@ is Network) ==> match path_of(self@) {
                Some(p) => exists|facts: PathFacts, home: Option<Seq<char>>|
                    probed(probe, p, facts) && r@ == normalized(self@, facts, home),
                None => r@ == self@,
            },
    {
        let home = home_dir();
        let h: Option<&str> = match &home {
            Some(h) => Some(h.as_str()),
            None => None,
        };
        self.normalize_home(probe, h)
    }
}

/// Whether the ancestor `a` is the home directory `home`: a named directory
/// that is the same path.
pub open spec fn is_home(a: Seq<char>, home: Option<Seq<char>>) -> bool {
    crate::paths::path_file_name(a) is Some && (home matches Some(h) && path_eq(a, h))
}

/// `chain` up to and including the first entry that is the home directory.
pub open spec fn up_to_home(chain: Seq<Seq<char>>, home: Option<Seq<char>>) -> Seq<Seq<char>>
    decreases chain.len(),
{
    if chain.len() == 0 {
        Seq::empty()
    } else if is_home(chain[0], home) {
        seq![chain[0]]
    } else {
        seq![chain[0]] + up_to_home(chain.drop_first(), home)
    }
}

/// `up_to_home` cuts the chain just after its first entry that is the home
/// directory, at position `k`; a chain with no such entry is kept whole.
pub proof fn lemma_up_to_home_cuts_at_home(chain: Seq<Seq<char>>, home: Option<Seq<char>>, k: int)
    requires
        0 <= k <= chain.len(),
        forall|i: int| 0 <= i < k ==> !is_home(#[trigger] chain[i], home),
        k == chain.len() || is_home(chain[k], home),
    ensures
        up_to_home(chain, home) == if k == chain.len() {
            chain
        } else {
            chain.take(k + 1)
        },
    decreases chain.len(),
{
    if chain.len() > 0 && k > 0 {
        let rest = chain.drop_first();
        assert forall|i: int| 0 <= i < k - 1 implies !is_home(#[trigger] rest[i], home) by {
            assert(rest[i] == chain[i + 1]);
        }
        assert(k - 1 == rest.len() || is_home(rest[k - 1], home));
        lemma_up_to_home_cuts_at_home(rest, home, k - 1);
        if k == chain.len() {
            assert(seq![chain[0]] + rest =~= chain);
        } else {
            assert(seq![chain[0]] + rest.take(k) =~= chain.take(k + 1));
        }
    } else if chain.len() == 0 {
        assert(chain =~= Seq::<Seq<char>>::empty());
    } else {
        assert(seq![chain[0]] =~= chain.take(1));
    }
}

/// The breadcrumb trail of `l`: its path and each parent in turn, stopping
/// at the home directory.
pub open spec fn ancestor_trail(l: LocationView, home: Option<Seq<char>>) -> Seq<LocationView> {
    match path_of(l) {
        Some(p) => up_to_home(crate::paths::ancestors_spec(p), home).map_values(
            |a: Seq<char>| moved_to(l, expanded(a, home)),
        ),
        None => Seq::empty(),
    }
}

/// The breadcrumb trail of a location with a path holds, nearest first, the
/// location moved to each ancestor of that path (the path itself first), up
/// to and including the first ancestor that is the home directory, at
/// position `k`; or to every ancestor when none is.
pub proof fn lemma_trail_stops_at_home(l: LocationView, home: Option<Seq<char>>, k: int)
    requires
        path_of(l) is Some,
        0 <= k <= crate::paths::ancestors_spec(path_of(l).unwrap()).len(),
        forall|i: int| 0 <= i < k ==> !is_home(#[trigger] crate::paths::ancestors_spec(path_of(l).unwrap())[i], home),
        k == crate::paths::ancestors_spec(path_of(l).unwrap()).len() || is_home(
            crate::paths::ancestors_spec(path_of(l).unwrap())[k],
            home,
        ),
    ensures
        ancestor_trail(l, home).len() == if k == crate::paths::ancestors_spec(path_of(l).unwrap()).len() {
            k
        } else {
            k + 1
        },
        forall|i: int|
            0 <= i < ancestor_trail(l, home).len() ==> #[trigger] ancestor_trail(l, home)[i] == moved_to(
                l,
                expanded(crate::paths::ancestors_spec(path_of(l).unwrap())[i], home),
            ),
{
    let chain = crate::paths::ancestors_spec(path_of(l).unwrap());
    lemma_up_to_home_cuts_at_home(chain, home, k);
}

/// The breadcrumb trail of a location without a path is empty; that of a
/// location whose path has its chain of ancestors and does not start with
/// `~` begins with the location itself.
pub proof fn lemma_trail_starts_at_location(l: LocationView, home: Option<Seq<char>>)
    ensures
        path_of(l) is None ==> ancestor_trail(l, home).len() == 0,
        path_of(l) matches Some(p) ==> (crate::paths::is_ancestor_chain(p, crate::paths::ancestors_spec(p))
            && path_strip_prefix(p, "~"@) is None ==> ancestor_trail(l, home).len() > 0 && ancestor_trail(
            l,
            home,
        )[0] == l),
{
    if let Some(p) = path_of(l) {
        let chain = crate::paths::ancestors_spec(p);
        if crate::paths::is_ancestor_chain(p, chain) && path_strip_prefix(p, "~"@) is None {
            assert(up_to_home(chain, home).len() > 0 && up_to_home(chain, home)[0] == chain[0]);
            assert(expanded(p, home) == p);
        }
    }
}

fn is_home_dir(a: &str, home: Option<&str>) -> (r: bool)
    ensures
        r == is_home(a@, crate::text::opt_str_view(home)),
{
    match crate::paths::file_name(a) {
        Some(_) => match home {
            Some(h) => same_path(a, h),
            None => false,
        },
        None => false,
    }
}

impl Location {
    /// The breadcrumb trail of this location, nearest first, with the home
    /// directory `home`: its path and each parent, up to and including the
    /// home directory when the path is inside it.
    pub fn ancestors_home(&self, home: Option<&str>) -> (r: Vec<Location>)
        ensures
            r@.map_values(|l: Location| l@) == ancestor_trail(self@, crate::text::opt_str_view(home)),
    {
        let ghost hv = crate::text::opt_str_view(home);
        let mut out: Vec<Location> = Vec::new();
        match self.path_opt() {
            None => {
                assert(out@.map_values(|l: Location| l@) =~= ancestor_trail(self@, hv));
                out
            },
            Some(path) => {
                let chain = crate::paths::ancestors(path.as_str());
                proof {
                    crate::paths::lemma_ancestor_chain_unique(path@, chain@.map_values(|s: String| s@));
                }
                let ghost cv = chain@.map_values(|s: String| s@);
                let ghost whole = up_to_home(cv, hv);
                let mut i: usize = 0;
                assert(cv.skip(0) =~= cv);
                while i < chain.len()
                    invariant
                        i <= chain@.len(),
                        cv == chain@.map_values(|s: String| s@),
                        cv == crate::paths::ancestors_spec(path@),
                        path_of(self@) == Some(path@),
                        whole == up_to_home(cv, hv),
                        hv == crate::text::opt_str_view(home),
                        out@.len() == i,
                        forall|k: int| 0 <= k < i ==> out@[k]@ == moved_to(self@, expanded(#[trigger] cv[k], hv)),
                        up_to_home(cv, hv) == cv.take(i as int) + up_to_home(cv.skip(i as int), hv),
                        forall|k: int| 0 <= k < i ==> !is_home(#[trigger] cv[k], hv),
                    decreases chain@.len() - i,
                {
                    let ghost t = cv.skip(i as int);
                    assert(t[0] == chain@[i as int]@);
                    assert(t.drop_first() =~= cv.skip(i + 1));
                    let a = chain[i].clone();
                    let home_here = is_home_dir(a.as_str(), home);
                    let moved = self.with_path_home(a, home);
                    out.push(moved);
                    if home_here {
                        assert(up_to_home(cv, hv) == cv.take(i + 1)) by {
                            assert(cv.take(i as int) + seq![cv[i as int]] =~= cv.take(i + 1));
                        }
                        assert(out@.map_values(|l: Location| l@) =~= ancestor_trail(self@, hv)) by {
                            let trail = ancestor_trail(self@, hv);
                            assert(trail.len() == i + 1);
                            assert forall|k: int| 0 <= k < i + 1 implies trail[k] == out@[k]@ by {
                                assert(up_to_home(cv, hv)[k] == cv[k]);
                            }
                        }
                        return out;
                    }
                    assert(cv.take(i as int) + (seq![t[0]] + up_to_home(t.drop_first(), hv)) =~= cv.take(
                        i + 1,
                    ) + up_to_home(cv.skip(i + 1), hv));
                    i = i + 1;
                }
                assert(cv.skip(i as int) =~= Seq::<Seq<char>>::empty());
                assert(cv.take(i as int) =~= cv);
                assert(out@.map_values(|l: Location| l@) =~= ancestor_trail(self@, hv)) by {
                    let trail = ancestor_trail(self@, hv);
                    assert(up_to_home(cv, hv) == cv);
                    assert(trail.len() == i);
                    assert forall|k: int| 0 <= k < i implies trail[k] == out@[k]@ by {
                        assert(up_to_home(cv, hv)[k] == cv[k]);
                    }
                }
                out
            },
        }
    }

    /// The breadcrumb trail of this location, stopping at the user's home
    /// directory.
    pub fn ancestors(&self) -> (r: Vec<Location>)
        ensures
            exists|home: Option<Seq<char>>| r@.map_values(|l: Location| l@) == ancestor_trail(self@, home),
    {
        let home = home_dir();
        let h: Option<&str> = match &home {
            Some(h) => Some(h.as_str()),
            None => None,
        };
        self.ancestors_home(h)
    }
}

impl Location {
    /// The path `index` steps up from this location's path: the path itself
    /// at 0, its parent at 1, and so on; none past the root, or for a
    /// location without a path. The breadcrumb menu's actions name their
    /// crumb so.
    pub fn ancestor_path(&self, index: usize) -> (r: Option<String>)
        ensures
            r matches Some(a) ==> path_of(self@) matches Some(p) && index < crate::paths::ancestors_spec(p).len()
                && a@ == crate::paths::ancestors_spec(p)[index as int],
            r is None ==> path_of(self@) is None || index >= crate::paths::ancestors_spec(path_of(self@).unwrap()).len(),
    {
        match self.path_opt() {
            None => None,
            Some(path) => {
                let chain = crate::paths::ancestors(path.as_str());
                proof {
                    crate::paths::lemma_ancestor_chain_unique(path@, chain@.map_values(|s: String| s@));
                }
                if index < chain.len() {
                    Some(chain[index].clone())
                } else {
                    None
                }
            },
        }
    }
}

/// A search location as text.
pub open spec fn search_location_text(l: SearchLocationView) -> Seq<char> {
    match l {
        SearchLocationView::Path(p) => p,
        SearchLocationView::Recents => "recents"@,
        SearchLocationView::Trash => "trash"@,
    }
}

/// A location as text.
pub open spec fn location_text(l: LocationView) -> Seq<char> {
    match l {
        LocationView::Network(uri, ..) => uri,
        LocationView::Path(p) => p,
        LocationView::Recents => "recents"@,
        LocationView::Search(where_, term, ..) => "search "@ + search_location_text(where_) + " for "@
            + term,
        LocationView::Trash => "trash"@,
    }
}

impl SearchLocation {
    /// This search location as text: its path, `recents` or `trash`.
    pub fn to_string(&self) -> (r: String)
        ensures
            r@ == search_location_text(self@),
    {
        match self {
            SearchLocation::Path(p) => p.clone(),
            SearchLocation::Recents => "recents".to_owned(),
            SearchLocation::Trash => "trash".to_owned(),
        }
    }
}

impl Location {
    /// This location as text, the key its sort order is saved under.
    pub fn to_string(&self) -> (r: String)
        ensures
            r@ == location_text(self@),
    {
        match self {
            Location::Network(uri, ..) => uri.clone(),
            Location::Path(p) => p.clone(),
            Location::Recents => "recents".to_owned(),
            Location::Search(where_, term, ..) => {
                let a = concat("search ", where_.to_string().as_str());
                let b = concat(a.as_str(), " for ");
                concat(b.as_str(), term.as_str())
            },
            Location::Trash => "trash".to_owned(),
        }
    }
}

/// What a network mounter knows of a share: its URI, display name and
/// local path.
pub type NetworkDir = (String, String, Option<String>);

/// A [`NetworkDir`] as characters.
pub open spec fn network_dir_view(d: NetworkDir) -> LocationView {
    LocationView::Network(d.0@, d.1@, opt_view(d.2))
}

/// The location being edited in the location bar, with the completions on
/// offer and which of them is selected.
#[derive(Debug)]
pub struct EditLocation {
    /// What has been typed, as a location.
    pub location: Location,
    /// Completions of it: each a name and its path.
    pub completions: Option<Vec<(String, String)>>,
    /// Which completion is selected.
    pub selected: Option<usize>,
}

impl EditLocation {
    /// An edit of `location`, with nothing completed or selected.
    pub fn from_location(location: Location) -> (r: Self)
        ensures
            r.location == location,
            r.completions is None,
            r.selected is None,
    {
        EditLocation { location, completions: None, selected: None }
    }
}

/// What resolving an edit gives, with `home` for `~`: for a share, what the
/// mounter said of it; otherwise the typed location when nothing is
/// selected, and the selected completion, made normal, when one is.
/// `network` is the mounter's answer for a share and `facts` what the
/// filesystem says of the completion's path.
pub open spec fn resolved_edit(
    location: LocationView,
    completions: Option<Seq<(String, String)>>,
    selected: Option<usize>,
    network: Option<NetworkDir>,
    facts: PathFacts,
    home: Option<Seq<char>>,
) -> Option<LocationView> {
    if location is Network {
        match network {
            Some(d) => Some(network_dir_view(d)),
            None => None,
        }
    } else {
        match selected {
            None => Some(location),
            Some(i) => match completions {
                None => None,
                Some(cs) => if i < cs.len() {
                    Some(normalized(moved_to(location, expanded(cs[i as int].1@, home)), facts, home))
                } else {
                    None
                },
            },
        }
    }
}

/// `dir_info` may have answered `answer` for the URI `uri`.
pub open spec fn mounter_said<F: Fn(&str) -> Option<NetworkDir>>(
    dir_info: F,
    uri: Seq<char>,
    answer: Option<NetworkDir>,
) -> bool {
    exists|s: &str| s@ == uri && call_ensures(dir_info, (s,), answer)
}

/// Whether `r` is a possible resolution of an edit, given what `dir_info`
/// and `probe` may answer.
pub open spec fn resolves_to<D: Fn(&str) -> Option<NetworkDir>, P: Fn(&str) -> PathFacts>(
    location: LocationView,
    completions: Option<Seq<(String, String)>>,
    selected: Option<usize>,
    dir_info: D,
    probe: P,
    home: Option<Seq<char>>,
    r: Option<LocationView>,
) -> bool {
    exists|network: Option<NetworkDir>, facts: PathFacts|
        {
            &&& (location matches LocationView::Network(uri, ..) ==> mounter_said(dir_info, uri, network))
            &&& r == resolved_edit(location, completions, selected, network, facts, home)
            &&& (!(location is Network) ==> match (selected, completions) {
                (Some(i), Some(cs)) => i < cs.len() ==> match path_of(
                    moved_to(location, expanded(cs[i as int].1@, home)),
                ) {
                    Some(p) => probed(probe, p, facts),
                    None => true,
                },
                _ => true,
            })
        }
}

/// `r` is a normal form of `l` that `normalize_home` may give, with `probe`
/// asked about paths and `home` as the home directory.
pub open spec fn normalizes_to<F: Fn(&str) -> PathFacts>(
    probe: F,
    l: LocationView,
    home: Option<Seq<char>>,
    r: LocationView,
) -> bool {
    if l is Network {
        r == normal_network(l)
    } else {
        match path_of(l) {
            Some(p) => exists|facts: PathFacts| probed(probe, p, facts) && r == normalized(l, facts, home),
            None => r == l,
        }
    }
}

/// Resolving an edit of a location that is not a share gives the location
/// as typed when no completion is selected; else the selected completion,
/// the location moved to its path and normalized as `normalize_home` does;
/// and nothing when the selection lies past the completions or there are
/// none.
pub proof fn lemma_resolve_outside_shares<D: Fn(&str) -> Option<NetworkDir>, P: Fn(&str) -> PathFacts>(
    location: LocationView,
    completions: Option<Seq<(String, String)>>,
    selected: Option<usize>,
    dir_info: D,
    probe: P,
    home: Option<Seq<char>>,
    r: Option<LocationView>,
)
    requires
        !(location is Network),
        resolves_to(location, completions, selected, dir_info, probe, home, r),
    ensures
        selected is None ==> r == Some(location),
        selected matches Some(i) ==> match completions {
            Some(cs) => if i < cs.len() {
                r matches Some(v) && normalizes_to(
                    probe,
                    moved_to(location, expanded(cs[i as int].1@, home)),
                    home,
                    v,
                )
            } else {
                r is None
            },
            None => r is None,
        },
{
    let (network, facts) = choose|network: Option<NetworkDir>, facts: PathFacts|
        {
            &&& (location matches LocationView::Network(uri, ..) ==> mounter_said(dir_info, uri, network))
            &&& r == resolved_edit(location, completions, selected, network, facts, home)
            &&& (!(location is Network) ==> match (selected, completions) {
                (Some(i), Some(cs)) => i < cs.len() ==> match path_of(
                    moved_to(location, expanded(cs[i as int].1@, home)),
                ) {
                    Some(p) => probed(probe, p, facts),
                    None => true,
                },
                _ => true,
            })
        };
    if let (Some(i), Some(cs)) = (selected, completions) {
        if i < cs.len() {
            let moved = moved_to(location, expanded(cs[i as int].1@, home));
            assert(!(moved is Network));
            if path_of(moved) is Some {
                assert(probed(probe, path_of(moved).unwrap(), facts));
            }
        }
    }
}

/// The views of the completions on offer.
pub open spec fn completions_view(c: Option<Vec<(String, String)>>) -> Option<Seq<(String, String)>> {
    match c {
        Some(v) => Some(v@),
        None => None,
    }
}

/// An optional location as characters.
pub open spec fn opt_location_view(o: Option<Location>) -> Option<LocationView> {
    match o {
        Some(l) => Some(l@),
        None => None,
    }
}

impl EditLocation {
    /// Where this edit leads, with `home` for `~`: see [`resolved_edit`].
    pub fn resolve_home(
        &self,
        dir_info: impl Fn(&str) -> Option<NetworkDir>,
        probe: impl Fn(&str) -> PathFacts,
        home: Option<&str>,
    ) -> (r: Option<Location>)
        requires
            forall|s: &str| call_requires(dir_info, (s,)),
            forall|s: &str| call_requires(probe, (s,)),
        ensures
            resolves_to(
                self.location@,
                completions_view(self.completions),
                self.selected,
                dir_info,
                probe,
                crate::text::opt_str_view(home),
                opt_location_view(r),
            ),
    {
        let ghost hv = crate::text::opt_str_view(home);
        let ghost any_facts = PathFacts { canonical: None, is_dir: false };
        if let Location::Network(uri, ..) = &self.location {
            let answer = dir_info(uri.as_str());
            let r = match answer {
                Some((u, n, p)) => Some(Location::Network(u, n, p)),
                None => None,
            };
            assert(mounter_said(dir_info, uri@, answer));
            assert(opt_location_view(r) == resolved_edit(
                self.location@,
                completions_view(self.completions),
                self.selected,
                answer,
                any_facts,
                hv,
            ));
            return r;
        }
        let selected = match self.selected {
            None => {
                let r = Some(self.location.clone());
                assert(opt_location_view(r) == resolved_edit(
                    self.location@,
                    completions_view(self.completions),
                    self.selected,
                    None,
                    any_facts,
                    hv,
                ));
                return r;
            },
            Some(i) => i,
        };
        let completions = match &self.completions {
            Some(c) => c,
            None => {
                assert(resolved_edit(
                    self.location@,
                    completions_view(self.completions),
                    self.selected,
                    None,
                    any_facts,
                    hv,
                ) is None);
                return None;
            },
        };
        if selected >= completions.len() {
            assert(resolved_edit(
                self.location@,
                completions_view(self.completions),
                self.selected,
                None,
                any_facts,
                hv,
            ) is None);
            return None;
        }
        let moved = self.location.with_path_home(completions[selected].1.clone(), home);
        let r = moved.normalize_home(probe, home);
        assert(!(moved@ is Network));
        proof {
            match path_of(moved@) {
                Some(p) => {
                    let facts = choose|facts: PathFacts|
                        probed(probe, p, facts) && r@ == normalized(moved@, facts, hv);
                    assert(opt_location_view(Some(r)) == resolved_edit(
                        self.location@,
                        completions_view(self.completions),
                        self.selected,
                        None,
                        facts,
                        hv,
                    ));
                },
                None => {
                    assert(opt_location_view(Some(r)) == resolved_edit(
                        self.location@,
                        completions_view(self.completions),
                        self.selected,
                        None,
                        any_facts,
                        hv,
                    ));
                },
            }
        }
        Some(r)
    }
}

/// The completion selected after stepping forwards or backwards from
/// `selected` among `len` completions: one along, wrapping round at either
/// end, and the first or last when nothing was selected.
pub open spec fn next_selection(selected: Option<usize>, len: nat, forwards: bool) -> usize {
    let s: int = if forwards {
        match selected {
            Some(x) => if x < usize::MAX {
                x + 1
            } else {
                0
            },
            None => 0,
        }
    } else {
        match selected {
            Some(x) => if x > 0 {
                x - 1
            } else {
                len - 1
            },
            None => len - 1,
        }
    };
    if s >= len {
        0
    } else {
        s as usize
    }
}

impl EditLocation {
    /// Where this edit leads, with `~` read as the user's home directory.
    pub fn resolve(
        &self,
        dir_info: impl Fn(&str) -> Option<NetworkDir>,
        probe: impl Fn(&str) -> PathFacts,
    ) -> (r: Option<Location>)
        requires
            forall|s: &str| call_requires(dir_info, (s,)),
            forall|s: &str| call_requires(probe, (s,)),
        ensures
            exists|home: Option<Seq<char>>|
                resolves_to(
                    self.location@,
                    completions_view(self.completions),
                    self.selected,
                    dir_info,
                    probe,
                    home,
                    opt_location_view(r),
                ),
    {
        let home = home_dir();
        let h: Option<&str> = match &home {
            Some(h) => Some(h.as_str()),
            None => None,
        };
        self.resolve_home(dir_info, probe, h)
    }

    /// Step the selection forwards or backwards among the completions, with
    /// `home` for `~`. With a single completion the edit resolves to it
    /// straight away, when it resolves at all.
    pub fn select_home(
        &mut self,
        forwards: bool,
        dir_info: impl Fn(&str) -> Option<NetworkDir>,
        probe: impl Fn(&str) -> PathFacts,
        home: Option<&str>,
    )
        requires
            forall|s: &str| call_requires(dir_info, (s,)),
            forall|s: &str| call_requires(probe, (s,)),
        ensures
            final(self).completions == old(self).completions,
            match old(self).completions {
                Some(cs) if cs@.len() > 1 => final(self).location == old(self).location
                    && final(self).selected == Some(
                    next_selection(old(self).selected, cs@.len(), forwards),
                ),
                Some(cs) if cs@.len() == 1 => exists|r: Option<LocationView>|
                    {
                        &&& resolves_to(
                            old(self).location@,
                            Some(cs@),
                            Some(0usize),
                            dir_info,
                            probe,
                            crate::text::opt_str_view(home),
                            r,
                        )
                        &&& match r {
                            Some(l) => final(self).location@ == l && final(self).selected is None,
                            None => final(self).location == old(self).location
                                && final(self).selected == Some(0usize),
                        }
                    },
                _ => final(self).location == old(self).location && final(self).selected is None,
            },
    {
        let len = match &self.completions {
            Some(c) => c.len(),
            None => 0,
        };
        if len == 0 {
            self.selected = None;
            return;
        }
        let mut selected: usize = if forwards {
            match self.selected {
                Some(x) => if x < usize::MAX {
                    x + 1
                } else {
                    0
                },
                None => 0,
            }
        } else {
            match self.selected {
                Some(x) => if x > 0 {
                    x - 1
                } else {
                    len - 1
                },
                None => len - 1,
            }
        };
        if selected >= len {
            selected = 0;
        }
        self.selected = Some(selected);
        if len == 1 {
            let resolved = self.resolve_home(dir_info, probe, home);
            if let Some(l) = resolved {
                self.location = l;
                self.selected = None;
            }
        }
    }

    /// Step the selection, with `~` read as the user's home directory.
    pub fn select(
        &mut self,
        forwards: bool,
        dir_info: impl Fn(&str) -> Option<NetworkDir>,
        probe: impl Fn(&str) -> PathFacts,
    )
        requires
            forall|s: &str| call_requires(dir_info, (s,)),
            forall|s: &str| call_requires(probe, (s,)),
        ensures
            final(self).completions == old(self).completions,
            match old(self).completions {
                Some(cs) if cs@.len() > 1 => final(self).location == old(self).location
                    && final(self).selected == Some(
                    next_selection(old(self).selected, cs@.len(), forwards),
                ),
                Some(cs) if cs@.len() == 1 => exists|r: Option<LocationView>, home: Option<Seq<char>>|
                    {
                        &&& resolves_to(old(self).location@, Some(cs@), Some(0usize), dir_info, probe, home, r)
                        &&& match r {
                            Some(l) => final(self).location@ == l && final(self).selected is None,
                            None => final(self).location == old(self).location
                                && final(self).selected == Some(0usize),
                        }
                    },
                _ => final(self).location == old(self).location && final(self).selected is None,
            },
    {
        let home = home_dir();
        let h: Option<&str> = match &home {
            Some(h) => Some(h.as_str()),
            None => None,
        };
        self.select_home(forwards, dir_info, probe, h);
    }
}

/// Stepping forwards and then backwards among two or more completions comes
/// back to the completion it started from, and so does the reverse: the
/// selection cycles.
pub proof fn lemma_selection_cycles(s: usize, len: nat)
    requires
        len >= 2,
        s < len,
        len <= usize::MAX,
    ensures
        next_selection(Some(next_selection(Some(s), len, true)), len, false) == s,
        next_selection(Some(next_selection(Some(s), len, false)), len, true) == s,
        next_selection(Some(s), len, true) < len,
        next_selection(Some(s), len, false) < len,
{
}

/// What was typed into the location bar: a path, or a share's address.
pub open spec fn typed_text(l: LocationView) -> Option<Seq<char>> {
    match l {
        LocationView::Path(p) => Some(p),
        LocationView::Network(uri, ..) => Some(uri),
        _ => None,
    }
}

/// The edit once what was typed has been read as an address: its location,
/// completions and selection, and whether a remote address was typed. A
/// remote address becomes a share at that address, as `url` writes it, and
/// text typed as a share that is no address at all becomes a path, made
/// normal with `facts`; either starts afresh, nothing completed or
/// selected. Anything else stays as it was.
pub open spec fn reread_edit(
    l: LocationView,
    completions: Option<Seq<(String, String)>>,
    selected: Option<usize>,
    facts: PathFacts,
    home: Option<Seq<char>>,
) -> (LocationView, Option<Seq<(String, String)>>, Option<usize>, bool) {
    match typed_text(l) {
        Some(t) => match crate::uri::typed_uri_spec(t) {
            Some(Some(uri)) => (normal_network(LocationView::Network(uri, uri, None)), None, None, true),
            None => if l is Network {
                (normalized(LocationView::Path(t), facts, home), None, None, false)
            } else {
                (l, completions, selected, false)
            },
            Some(None) => (l, completions, selected, false),
        },
        None => (l, completions, selected, false),
    }
}

/// Whether any completions are on offer.
pub open spec fn offers_some(completions: Option<Seq<(String, String)>>) -> bool {
    match completions {
        Some(cs) => cs.len() > 0,
        None => false,
    }
}

/// The selection an edit is resolved with on submitting: the first
/// completion when none is selected, some are on offer, and the typed path
/// is `missing`.
pub open spec fn submit_selection(
    l: LocationView,
    completions: Option<Seq<(String, String)>>,
    selected: Option<usize>,
    missing: bool,
) -> Option<usize> {
    if selected is None && offers_some(completions) && path_of(l) is Some && missing {
        Some(0)
    } else {
        selected
    }
}

/// `path_exists` may have answered `answer` for the path `p`.
pub open spec fn exists_said<F: Fn(&str) -> bool>(path_exists: F, p: Seq<char>, answer: bool) -> bool {
    exists|s: &str| s@ == p && call_ensures(path_exists, (s,), answer)
}

/// Whether `r` is the outcome of submitting an edit when `facts` is what the
/// filesystem said of a share's text read as a path, `present` what
/// `path_exists` said of the typed path, and `resolved` what resolving the
/// settled edit gave: the edit reread (see [`reread_edit`]), its selection
/// settled (see [`submit_selection`]) and resolved; and when that leads
/// nowhere but a remote address was typed, the share at that address.
pub open spec fn submits_via<D: Fn(&str) -> Option<NetworkDir>, P: Fn(&str) -> PathFacts, X: Fn(&str) -> bool>(
    location: LocationView,
    completions: Option<Seq<(String, String)>>,
    selected: Option<usize>,
    dir_info: D,
    probe: P,
    path_exists: X,
    home: Option<Seq<char>>,
    r: Option<LocationView>,
    facts: PathFacts,
    present: bool,
    resolved: Option<LocationView>,
) -> bool {
    let reread = reread_edit(location, completions, selected, facts, home);
    &&& match typed_text(location) {
        Some(t) => (crate::uri::typed_uri_spec(t) is None && location is Network) ==> probed(probe, t, facts),
        None => true,
    }
    &&& match path_of(reread.0) {
        Some(p) => (reread.2 is None && offers_some(reread.1)) ==> exists_said(path_exists, p, present),
        None => true,
    }
    &&& resolves_to(
        reread.0,
        reread.1,
        submit_selection(reread.0, reread.1, reread.2, !present),
        dir_info,
        probe,
        home,
        resolved,
    )
    &&& r == (if resolved is None && reread.3 {
        Some(reread.0)
    } else {
        resolved
    })
}

/// Whether `r` is a possible outcome of submitting an edit, given what the
/// mounter, `probe` and `path_exists` may answer: see [`submits_via`].
pub open spec fn submits_to<D: Fn(&str) -> Option<NetworkDir>, P: Fn(&str) -> PathFacts, X: Fn(&str) -> bool>(
    location: LocationView,
    completions: Option<Seq<(String, String)>>,
    selected: Option<usize>,
    dir_info: D,
    probe: P,
    path_exists: X,
    home: Option<Seq<char>>,
    r: Option<LocationView>,
) -> bool {
    exists|facts: PathFacts, present: bool, resolved: Option<LocationView>|
        #[trigger] submits_via(location, completions, selected, dir_info, probe, path_exists, home, r, facts, present, resolved)
}

/// A share at `uri`, its address ending in a separator.
fn network_at(uri: String) -> (r: Location)
    ensures
        r@ == normal_network(LocationView::Network(uri@, uri@, None)),
{
    let l = Location::Network(uri.clone(), uri, None);
    l.normalize_home(|s: &str| PathFacts { canonical: None, is_dir: false }, None)
}

impl EditLocation {
    /// Where submitting this edit leads, with `home` for `~`: what was
    /// typed is read as an address first (a remote address becomes a share
    /// there; a share's text that is no address becomes a path); when
    /// nothing is selected and the typed path does not exist (by
    /// `path_exists`),
    /// the first completion is taken; the edit is then resolved (see
    /// [`resolved_edit`]), and if that leads nowhere a typed remote address
    /// still leads to its share.
    pub fn submit_home(
        self,
        dir_info: impl Fn(&str) -> Option<NetworkDir>,
        probe: impl Fn(&str) -> PathFacts,
        path_exists: impl Fn(&str) -> bool,
        home: Option<&str>,
    ) -> (r: Option<Location>)
        requires
            forall|s: &str| call_requires(dir_info, (s,)),
            forall|s: &str| call_requires(probe, (s,)),
            forall|s: &str| call_requires(path_exists, (s,)),
        ensures
            submits_to(
                self.location@,
                completions_view(self.completions),
                self.selected,
                dir_info,
                probe,
                path_exists,
                crate::text::opt_str_view(home),
                opt_location_view(r),
            ),
    {
        let ghost hv = crate::text::opt_str_view(home);
        let ghost loc = self.location@;
        let ghost comps = completions_view(self.completions);
        let ghost sel = self.selected;
        let ghost no_facts = PathFacts { canonical: None, is_dir: false };
        let (typed, is_network): (Option<String>, bool) = match &self.location {
            Location::Path(p) => (Some(p.clone()), false),
            Location::Network(uri, _, _) => (Some(uri.clone()), true),
            _ => (None, false),
        };
        assert(typed_text(loc) == crate::text::opt_string_view(typed));
        assert(is_network == (loc is Network));
        if let Some(t) = typed {
            match crate::uri::read_typed(t.as_str()) {
                crate::uri::TypedUri::Remote(uri) => {
                    let edit = EditLocation::from_location(network_at(uri));
                    let ghost l1 = edit.location@;
                    let resolved = edit.resolve_home(dir_info, probe, home);
                    let r = match resolved {
                        Some(l) => Some(l),
                        None => Some(edit.location),
                    };
                    proof {
                        let rv = opt_location_view(resolved);
                        assert(resolves_to(l1, None, None, dir_info, probe, hv, rv));
                        assert(submit_selection(l1, None, None, true) is None);
                        assert(opt_location_view(r) == (if rv is None {
                            Some(l1)
                        } else {
                            rv
                        }));
                        assert(submits_via(loc, comps, sel, dir_info, probe, path_exists, hv, opt_location_view(r), no_facts, true, rv));
                        assert({
                            let reread = reread_edit(loc, comps, sel, no_facts, hv);
                            &&& reread.0 == l1
                            &&& reread.1 is None
                            &&& reread.2 is None
                            &&& reread.3
                        });
                        assert(resolves_to(
                            reread_edit(loc, comps, sel, no_facts, hv).0,
                            reread_edit(loc, comps, sel, no_facts, hv).1,
                            submit_selection(
                                reread_edit(loc, comps, sel, no_facts, hv).0,
                                reread_edit(loc, comps, sel, no_facts, hv).1,
                                reread_edit(loc, comps, sel, no_facts, hv).2,
                                !true,
                            ),
                            dir_info,
                            probe,
                            hv,
                            rv,
                        ));
                    }
                    return r;
                },
                crate::uri::TypedUri::NotUri => {
                    if is_network {
                        let path_loc = Location::Path(t);
                        let ghost pv = path_loc@;
                        let l = path_loc.normalize_home(probe, home);
                        let ghost facts = choose|f: PathFacts| probed(probe, pv->Path_0, f) && l@ == normalized(pv, f, hv);
                        proof {
                            let reread = reread_edit(loc, comps, sel, facts, hv);
                            assert(reread.0 == l@);
                            assert(reread.1 is None && reread.2 is None && !reread.3);
                            let any_facts = PathFacts { canonical: None, is_dir: false };
                            assert(resolved_edit(l@, None, None, None, any_facts, hv) == Some(l@));
                            assert(resolves_to(l@, None, None, dir_info, probe, hv, Some(l@)));
                            assert(submit_selection(reread.0, reread.1, reread.2, !true) is None);
                            assert(submits_via(loc, comps, sel, dir_info, probe, path_exists, hv, Some(l@), facts, true, Some(l@)));
                        }
                        return Some(l);
                    }
                },
                crate::uri::TypedUri::Local => {},
            }
        }
        proof {
            let reread = reread_edit(loc, comps, sel, no_facts, hv);
            assert(reread.0 == loc && reread.1 == comps && reread.2 == sel && !reread.3);
        }
        let mut edit = self;
        let offered = match &edit.completions {
            Some(cs) => cs.len() > 0,
            None => false,
        };
        let mut present = true;
        if edit.selected.is_none() && offered {
            if let Some(p) = edit.location.path_opt() {
                present = path_exists(p.as_str());
                assert(exists_said(path_exists, p@, present));
                if !present {
                    edit.selected = Some(0);
                }
            }
        }
        assert(edit.selected == submit_selection(loc, comps, sel, !present));
        let resolved = edit.resolve_home(dir_info, probe, home);
        proof {
            let rv = opt_location_view(resolved);
            assert(resolves_to(loc, comps, submit_selection(loc, comps, sel, !present), dir_info, probe, hv, rv));
            assert(submits_via(loc, comps, sel, dir_info, probe, path_exists, hv, rv, no_facts, present, rv));
        }
        resolved
    }
}

impl EditLocation {
    /// Where submitting this edit leads, with `~` read as the user's home
    /// directory: see [`EditLocation::submit_home`].
    pub fn submit(
        self,
        dir_info: impl Fn(&str) -> Option<NetworkDir>,
        probe: impl Fn(&str) -> PathFacts,
        path_exists: impl Fn(&str) -> bool,
    ) -> (r: Option<Location>)
        requires
            forall|s: &str| call_requires(dir_info, (s,)),
            forall|s: &str| call_requires(probe, (s,)),
            forall|s: &str| call_requires(path_exists, (s,)),
        ensures
            exists|home: Option<Seq<char>>|
                submits_to(
                    self.location@,
                    completions_view(self.completions),
                    self.selected,
                    dir_info,
                    probe,
                    path_exists,
                    home,
                    opt_location_view(r),
                ),
    {
        let home = home_dir();
        let h: Option<&str> = match &home {
            Some(h) => Some(h.as_str()),
            None => None,
        };
        self.submit_home(dir_info, probe, path_exists, h)
    }
}

} // verus!
