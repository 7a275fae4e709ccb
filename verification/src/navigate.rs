//! Going somewhere: whether an activated path is entered or opened, and what
//! a tab does when it is asked to go to a location.
//!
//! The filesystem is asked through the functions the caller passes in: what
//! it says of a path when a location is normalized, and whether a path is a
//! directory.

use crate::location::{
    expanded, home_dir, location_eq, moved_to, normalized, normalizes_to, opt_view, path_of, probed, Location,
    LocationView, PathFacts,
};
use crate::history::{visited, History};
use crate::selection::Selection;
use crate::paths::{parent, path_parent};
use crate::text::opt_str_view;
use vstd::prelude::*;

verus! {

/// What an activated location leads to.
#[derive(Debug)]
pub enum Activation {
    /// Go to the location.
    Enter(Location),
    /// Open the file at this path.
    OpenFile(String),
}

/// `is_dir` may have answered `answer` for the path `p`.
pub open spec fn dir_said<F: Fn(&str) -> bool>(is_dir: F, p: Seq<char>, answer: bool) -> bool {
    exists|s: &str| s@ == p && call_ensures(is_dir, (s,), answer)
}

/// What activating `location` leads to: a path is entered when it is a
/// directory and opened as a file when it is not; any other location is
/// entered. `is_dir` tells whether a path is a directory.
pub fn activate(location: &Location, is_dir: impl Fn(&str) -> bool) -> (r: Activation)
    requires
        forall|s: &str| call_requires(is_dir, (s,)),
    ensures
        !(location@ is Path) ==> r == Activation::Enter(*location),
        location@ is Path ==> exists|answer: bool|
            #[trigger] dir_said(is_dir, location@->Path_0, answer) && if answer {
                r == Activation::Enter(*location)
            } else {
                r matches Activation::OpenFile(f) && f@ == location@->Path_0
            },
{
    match location {
        Location::Path(p) => {
            let answer = is_dir(p.as_str());
            assert(dir_said(is_dir, p@, answer));
            let r = if answer {
                Activation::Enter(location.clone())
            } else {
                Activation::OpenFile(p.clone())
            };
            assert(location@->Path_0 == p@);
            assert(dir_said(is_dir, location@->Path_0, answer));
            r
        },
        _ => Activation::Enter(location.clone()),
    }
}

/// What a tab does when it is asked to go to a location.
#[derive(Debug)]
pub enum LocationChange {
    /// Nothing: the tab is there already, and no file is to be selected.
    Stay,
    /// Go to the location and select the item at the path, if there is one.
    Move(Location, Option<String>),
    /// Nothing: the location's path is not a directory.
    NotADirectory(Location),
}

/// A [`LocationChange`] as characters.
pub enum LocationChangeView {
    Stay,
    Move(LocationView, Option<Seq<char>>),
    NotADirectory(LocationView),
}

impl View for LocationChange {
    type V = LocationChangeView;

    open spec fn view(&self) -> LocationChangeView {
        match self {
            LocationChange::Stay => LocationChangeView::Stay,
            LocationChange::Move(l, s) => LocationChangeView::Move(l@, opt_view(*s)),
            LocationChange::NotADirectory(l) => LocationChangeView::NotADirectory(l@),
        }
    }
}

/// The file that going to the normal location `normal` selects: its path,
/// when `is_dir` says that path is not a directory and it has a parent to go
/// to instead.
pub open spec fn selected_file(normal: LocationView, is_dir: bool) -> Option<Seq<char>> {
    match path_of(normal) {
        Some(p) => if !is_dir && path_parent(p) is Some {
            Some(p)
        } else {
            None
        },
        None => None,
    }
}

/// Where going to the normal location `normal` leads: to the parent of a
/// selected file (with `~` read as `home`), else to `normal` itself.
pub open spec fn destination(normal: LocationView, is_dir: bool, home: Option<Seq<char>>) -> LocationView {
    match selected_file(normal, is_dir) {
        Some(p) => moved_to(normal, expanded(path_parent(p).unwrap(), home)),
        None => normal,
    }
}

/// What a tab at `current` does about going to `dest`, selecting `select`,
/// when `dest_is_dir` says whether the path of `dest` is a directory: it
/// stays where it is when `dest` is where it is (paths compared as paths)
/// and nothing is to be selected; it refuses a path that is not a
/// directory; else it moves, and selects `select` or, failing it, the path
/// it came from.
pub open spec fn change_decision(
    current: LocationView,
    dest: LocationView,
    select: Option<Seq<char>>,
    dest_is_dir: bool,
) -> LocationChangeView {
    if !location_eq(dest, current) || select is Some {
        if path_of(dest) is None || dest_is_dir {
            LocationChangeView::Move(
                dest,
                if select is Some {
                    select
                } else {
                    path_of(current)
                },
            )
        } else {
            LocationChangeView::NotADirectory(dest)
        }
    } else {
        LocationChangeView::Stay
    }
}

/// Whether `r` is what a tab at `current` does when asked to go to `target`,
/// when `normal` is the normal form of `target`, `target_dir` what `is_dir`
/// said of its path, and `dest_dir` what it said of the path of the
/// destination, when a file was selected there.
pub open spec fn changes_via<P: Fn(&str) -> PathFacts, D: Fn(&str) -> bool>(
    probe: P,
    is_dir: D,
    home: Option<Seq<char>>,
    current: LocationView,
    target: LocationView,
    normal: LocationView,
    target_dir: bool,
    dest_dir: bool,
    r: LocationChangeView,
) -> bool {
    let select = selected_file(normal, target_dir);
    let dest = destination(normal, target_dir, home);
    &&& normalizes_to(probe, target, home, normal)
    &&& path_of(normal) matches Some(p) ==> dir_said(is_dir, p, target_dir)
    &&& select is Some ==> (path_of(dest) matches Some(q) ==> dir_said(is_dir, q, dest_dir))
    &&& r == change_decision(
        current,
        dest,
        select,
        if select is Some {
            dest_dir
        } else {
            target_dir
        },
    )
}

/// Where going to the normal location `normal` leads, with `~` read as
/// `home`, and the file it selects there; `is_dir` says whether the path of
/// `normal` is a directory.
pub fn destination_home(normal: &Location, is_dir: bool, home: Option<&str>) -> (r: (Location, Option<String>))
    ensures
        r.0@ == destination(normal@, is_dir, opt_str_view(home)),
        opt_view(r.1) == selected_file(normal@, is_dir),
{
    match normal.path_opt() {
        Some(p) => {
            if !is_dir {
                match parent(p.as_str()) {
                    Some(up) => (normal.with_path_home(up, home), Some(p.clone())),
                    None => (normal.clone(), None),
                }
            } else {
                (normal.clone(), None)
            }
        },
        None => (normal.clone(), None),
    }
}

/// What a tab at `current` does about going to `dest` and selecting
/// `select`, when `dest_is_dir` says whether the path of `dest` is a
/// directory.
pub fn decide_change(current: &Location, dest: Location, select: Option<String>, dest_is_dir: bool) -> (r:
    LocationChange)
    ensures
        r@ == change_decision(current@, dest@, opt_view(select), dest_is_dir),
{
    let moving = !dest.same_as(current) || select.is_some();
    if moving {
        let refused = dest.path_opt().is_some() && !dest_is_dir;
        if refused {
            LocationChange::NotADirectory(dest)
        } else {
            let select = match select {
                Some(s) => Some(s),
                None => match current.path_opt() {
                    Some(p) => Some(p.clone()),
                    None => None,
                },
            };
            LocationChange::Move(dest, select)
        }
    } else {
        LocationChange::Stay
    }
}

impl Location {
    /// What a tab at this location does when asked to go to `target`, with
    /// the home directory `home`: `target` is normalized (`probe` tells what
    /// the filesystem says of a path); a path that is not a directory
    /// becomes its parent, with the file selected there; and the tab moves
    /// unless it is there already with nothing to select, or the path it
    /// would go to is not a directory (`is_dir` tells).
    pub fn change_to_home(
        &self,
        target: &Location,
        probe: impl Fn(&str) -> PathFacts,
        is_dir: impl Fn(&str) -> bool,
        home: Option<&str>,
    ) -> (r: LocationChange)
        requires
            forall|s: &str| call_requires(probe, (s,)),
            forall|s: &str| call_requires(is_dir, (s,)),
        ensures
            exists|normal: LocationView, target_dir: bool, dest_dir: bool|
                #[trigger] changes_via(
                    probe,
                    is_dir,
                    opt_str_view(home),
                    self@,
                    target@,
                    normal,
                    target_dir,
                    dest_dir,
                    r@,
                ),
    {
        let normal = target.normalize_home(probe, home);
        let target_dir = match normal.path_opt() {
            Some(p) => {
                let answer = is_dir(p.as_str());
                assert(dir_said(is_dir, p@, answer));
                answer
            },
            None => true,
        };
        let (dest, select) = destination_home(&normal, target_dir, home);
        let dest_dir = if select.is_some() {
            match dest.path_opt() {
                Some(q) => {
                    let answer = is_dir(q.as_str());
                    assert(dir_said(is_dir, q@, answer));
                    answer
                },
                None => true,
            }
        } else {
            target_dir
        };
        let r = decide_change(self, dest, select, dest_dir);
        assert(changes_via(
            probe,
            is_dir,
            opt_str_view(home),
            self@,
            target@,
            normal@,
            target_dir,
            dest_dir,
            r@,
        ));
        r
    }

    /// What a tab at this location does when asked to go to `target`, with
    /// `~` read as the user's home directory.
    pub fn change_to(&self, target: &Location, probe: impl Fn(&str) -> PathFacts, is_dir: impl Fn(&str) -> bool) -> (r:
        LocationChange)
        requires
            forall|s: &str| call_requires(probe, (s,)),
            forall|s: &str| call_requires(is_dir, (s,)),
        ensures
            exists|home: Option<Seq<char>>, normal: LocationView, target_dir: bool, dest_dir: bool|
                #[trigger] changes_via(probe, is_dir, home, self@, target@, normal, target_dir, dest_dir, r@),
    {
        let home = home_dir();
        let h: Option<&str> = match &home {
            Some(h) => Some(h.as_str()),
            None => None,
        };
        self.change_to_home(target, probe, is_dir, h)
    }
}

/// What going somewhere asks of the rest of the application.
#[derive(Debug)]
pub enum Command {
    /// Open the file at this path.
    OpenFile(String),
    /// The tab went to the location; select the item at the path, if any.
    ChangeLocation(Location, Option<String>),
}

/// Take the tab whose history is `history` and whose listing is `items` to
/// `target`, with the home directory `home`: a path that is not a directory
/// is opened as a file; otherwise the tab does what
/// [`Location::change_to_home`] decides, and when it moves, the destination
/// is visited in the history, the listing is dropped until the new one is
/// read, and the move is announced.
pub fn go_to<S: Copy>(
    history: &mut History<S>,
    items: &mut Option<Selection>,
    target: &Location,
    probe: impl Fn(&str) -> PathFacts + Copy,
    is_dir: impl Fn(&str) -> bool + Copy,
    home: Option<&str>,
) -> (r: Option<Command>)
    requires
        old(history).wf(),
        old(history).index() < usize::MAX,
        forall|s: &str| call_requires(probe, (s,)),
        forall|s: &str| call_requires(is_dir, (s,)),
    ensures
        final(history).wf(),
        r matches Some(Command::ChangeLocation(..)) ==> *final(items) is None,
        !(r matches Some(Command::ChangeLocation(..))) ==> *final(items) == *old(items),
        match r {
            Some(Command::OpenFile(f)) => {
                &&& *final(history) == *old(history)
                &&& target@ matches LocationView::Path(p) && f@ == p && dir_said(is_dir, p, false)
            },
            Some(Command::ChangeLocation(dest, select)) => {
                &&& target@ matches LocationView::Path(p) ==> dir_said(is_dir, p, true)
                &&& exists|normal: LocationView, target_dir: bool, dest_dir: bool|
                    #[trigger] changes_via(
                        probe,
                        is_dir,
                        opt_str_view(home),
                        old(history).loc()@,
                        target@,
                        normal,
                        target_dir,
                        dest_dir,
                        LocationChangeView::Move(dest@, opt_view(select)),
                    )
                &&& final(history).entries() == visited(old(history).entries(), old(history).index(), dest@)
                &&& final(history).index() == final(history).entries().len() - 1
                &&& final(history).scrolls().last() is None
                &&& final(history).scroll_spec() is None
                &&& final(history).pending_spec() is None
                &&& exists|h: Option<Seq<char>>| normalizes_to(probe, dest@, h, final(history).loc()@)
            },
            None => {
                &&& *final(history) == *old(history)
                &&& target@ matches LocationView::Path(p) ==> dir_said(is_dir, p, true)
                &&& exists|normal: LocationView, target_dir: bool, dest_dir: bool, c: LocationChangeView|
                    #[trigger] changes_via(
                        probe,
                        is_dir,
                        opt_str_view(home),
                        old(history).loc()@,
                        target@,
                        normal,
                        target_dir,
                        dest_dir,
                        c,
                    ) && (c is Stay || c is NotADirectory)
            },
        },
{
    if let Location::Path(p) = target {
        let answer = is_dir(p.as_str());
        assert(dir_said(is_dir, p@, answer));
        if !answer {
            let f = p.clone();
            assert(target@->Path_0 == p@);
            assert(dir_said(is_dir, target@->Path_0, false));
            return Some(Command::OpenFile(f));
        }
    }
    let current = history.location().clone();
    let change = current.change_to_home(target, probe, is_dir, home);
    match change {
        LocationChange::Move(dest, select) => {
            history.change_location(&dest, None, probe);
            *items = None;
            proof {
                let l = dest@;
                let now = history.loc()@;
                if !(l is Network) && path_of(l) is Some {
                    let p = path_of(l).unwrap();
                    let (facts, h) = choose|facts: PathFacts, h: Option<Seq<char>>|
                        probed(probe, p, facts) && now == normalized(l, facts, h);
                    assert(normalizes_to(probe, l, h, now));
                } else {
                    assert(normalizes_to(probe, l, None, now));
                }
            }
            Some(Command::ChangeLocation(dest, select))
        },
        _ => None,
    }
}

} // verus!
